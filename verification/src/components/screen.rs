//! The screen widget's state: the framebuffer rendered as rows of text,
//! two characters per pixel.

use vstd::prelude::*;

use crate::action::Action;

verus! {

/// The two display characters of one pixel: a full block when the pixel
/// is lit, a space when it is dark.
pub open spec fn pixel_char(b: u8, j: int) -> char {
    if (b >> (7 - j) as u8) & 1 == 1 {
        '█'
    } else {
        ' '
    }
}

/// One framebuffer row as text: 64 pixels, each doubled to two
/// characters, leftmost pixel first.
pub open spec fn row_chars(gfx: Seq<u8>, row: int) -> Seq<char> {
    Seq::new(128, |p: int| pixel_char(gfx[row * 8 + (p / 2) / 8], (p / 2) % 8))
}

/// The whole framebuffer as 32 rows of text.
pub open spec fn screen_rows(gfx: Seq<u8>) -> Seq<Seq<char>> {
    Seq::new(32, |r: int| row_chars(gfx, r))
}

/// The screen component: the rendered framebuffer text and whether the
/// machine is running (the host tints the border with it).
pub struct Screen {
    screen_data: Vec<Vec<char>>,
    is_running: bool,
}

impl Screen {
    /// The rendered rows of text.
    pub closed spec fn rows_view(&self) -> Seq<Seq<char>> {
        self.screen_data.deep_view()
    }

    /// Whether the component shows the machine as running.
    pub closed spec fn running(&self) -> bool {
        self.is_running
    }

    /// An empty screen, not running.
    pub fn new() -> (r: Self)
        ensures
            r.rows_view() == Seq::<Seq<char>>::empty(),
            !r.running(),
    {
        let r = Screen { screen_data: Vec::new(), is_running: false };
        proof {
            assert(r.rows_view() =~= Seq::<Seq<char>>::empty());
        }
        r
    }

    /// The rendered rows, for the host to draw.
    pub fn rows(&self) -> (r: &Vec<Vec<char>>)
        ensures
            r.deep_view() == self.rows_view(),
    {
        &self.screen_data
    }

    /// Absorbs one host message: a redraw renders the framebuffer into
    /// text, the start and stop messages flip the running flag, and every
    /// other message is ignored.  No message is passed on.
    pub fn update(&mut self, action: Action) -> (r: Option<Action>)
        requires
            action matches Action::Redraw(data) ==> data@.len() == 256,
        ensures
            r is None,
            match action {
                Action::Redraw(data) => final(self).rows_view() == screen_rows(data@)
                    && final(self).running() == old(self).running(),
                Action::StartEmulation => final(self).rows_view() == old(self).rows_view()
                    && final(self).running(),
                Action::StopEmulation => final(self).rows_view() == old(self).rows_view()
                    && !final(self).running(),
                _ => *final(self) == *old(self),
            },
    {
        match action {
            Action::Redraw(data) => {
                let mut rows: Vec<Vec<char>> = Vec::new();
                let mut row: usize = 0;
                while row < 32
                    invariant
                        row <= 32,
                        data@.len() == 256,
                        rows.deep_view().len() == row,
                        forall|i: int|
                            0 <= i < row ==> rows.deep_view()[i] == screen_rows(data@)[i],
                    decreases 32 - row,
                {
                    let mut line: Vec<char> = Vec::new();
                    let mut col: usize = 0;
                    while col < 8
                        invariant
                            col <= 8,
                            row < 32,
                            data@.len() == 256,
                            line@.len() == 16 * col,
                            forall|p: int|
                                0 <= p < 16 * col ==> line@[p] == row_chars(data@, row as int)[p],
                        decreases 8 - col,
                    {
                        let byte = data[row * 8 + col];
                        let mut bit: usize = 0;
                        while bit < 8
                            invariant
                                bit <= 8,
                                col < 8,
                                row < 32,
                                data@.len() == 256,
                                byte == data@[row * 8 + col],
                                line@.len() == 16 * col + 2 * bit,
                                forall|p: int|
                                    0 <= p < 16 * col + 2 * bit ==> line@[p] == row_chars(
                                        data@,
                                        row as int,
                                    )[p],
                            decreases 8 - bit,
                        {
                            let sh: u8 = (7 - bit) as u8;
                            let ch: char = if (byte >> sh) & 1 == 1 {
                                '█'
                            } else {
                                ' '
                            };
                            line.push(ch);
                            line.push(ch);
                            proof {
                                let p = 16 * col as int + 2 * bit as int;
                                assert((p / 2) / 8 == col as int && (p / 2) % 8 == bit as int);
                                assert(((p + 1) / 2) / 8 == col as int && ((p + 1) / 2) % 8
                                    == bit as int);
                                assert(line@[p] == row_chars(data@, row as int)[p]);
                                assert(line@[p + 1] == row_chars(data@, row as int)[p + 1]);
                            }
                            bit = bit + 1;
                        }
                        col = col + 1;
                    }
                    proof {
                        assert(line.deep_view() =~= row_chars(data@, row as int));
                    }
                    let ghost prev = rows;
                    rows.push(line);
                    proof {
                        assert forall|i: int| 0 <= i < row as int + 1 implies rows.deep_view()[i]
                            == screen_rows(data@)[i] by {
                            assert(rows.deep_view()[i] == rows@[i].deep_view());
                            if i < row as int {
                                assert(rows@[i] == prev@[i]);
                                assert(prev.deep_view()[i] == prev@[i].deep_view());
                            }
                        }
                    }
                    row = row + 1;
                }
                self.screen_data = rows;
                proof {
                    assert(self.rows_view() =~= screen_rows(data@));
                }
            },
            Action::StartEmulation => {
                self.is_running = true;
            },
            Action::StopEmulation => {
                self.is_running = false;
            },
            _ => {},
        }
        None
    }
}

} // verus!
