//! The status-bar widget's state: the opcode it shows.

use vstd::prelude::*;

use crate::action::Action;

verus! {

/// The status bar: shows the machine's current opcode.
pub struct StatusBar {
    opcode: u16,
}

impl StatusBar {
    /// The opcode on display.
    pub closed spec fn shown_opcode(&self) -> u16 {
        self.opcode
    }

    /// A status bar showing opcode 0.
    pub fn new() -> (r: Self)
        ensures
            r.shown_opcode() == 0,
    {
        StatusBar { opcode: 0x0000 }
    }

    /// The opcode on display, for the host to draw.
    pub fn opcode(&self) -> (r: u16)
        ensures
            r == self.shown_opcode(),
    {
        self.opcode
    }

    /// Absorbs one host message: an opcode update changes the display,
    /// everything else is ignored.  No message is passed on.
    pub fn update(&mut self, action: Action) -> (r: Option<Action>)
        ensures
            r is None,
            match action {
                Action::UpdateOpcode(op) => final(self).shown_opcode() == op,
                _ => *final(self) == *old(self),
            },
    {
        if let Action::UpdateOpcode(op) = action {
            self.opcode = op;
        }
        None
    }
}

} // verus!
