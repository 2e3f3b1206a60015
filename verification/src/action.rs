//! The messages exchanged between the engine and its host, and the
//! mapping from host keyboard characters to the sixteen logical keys.

use vstd::prelude::*;

verus! {

/// A host-side message: UI events, engine control, and the engine's
/// outputs on their way to the presentation layer.
#[derive(Debug, Clone)]
pub enum Action {
    Tick,
    Render,
    Resize(u16, u16),
    Suspend,
    Resume,
    Quit,
    Refresh,
    Error(String),
    Help,
    Redraw(Vec<u8>),
    StartEmulation,
    StopEmulation,
    UpdateOpcode(u16),
    LoadOpcodesList(Vec<u16>),
    SelectOpcode(u16),
    FocusFileSelector,
    MoveFileSelectorUp,
    MoveFileSelectorDown,
    SelectFile,
}

/// The logical key bound to a host keyboard character: the 4x4 block of
/// `1234` / `qwer` / `asdf` / `zxcv` stands for the machine's hexadecimal
/// keypad.  Any other character maps to 255, which no keypad call
/// accepts.
pub open spec fn key_of_char(c: char) -> u8 {
    match c {
        '1' => 1,
        '2' => 2,
        '3' => 3,
        '4' => 12,
        'q' => 4,
        'w' => 5,
        'e' => 6,
        'r' => 13,
        'a' => 7,
        's' => 8,
        'd' => 9,
        'f' => 14,
        'z' => 10,
        'x' => 0,
        'c' => 11,
        'v' => 15,
        _ => 255,
    }
}

/// The logical key for a host keyboard character.
pub fn get_key_from_char(c: &char) -> (k: u8)
    ensures
        k == key_of_char(*c),
{
    match *c {
        '1' => 1,
        '2' => 2,
        '3' => 3,
        '4' => 12,
        'q' => 4,
        'w' => 5,
        'e' => 6,
        'r' => 13,
        'a' => 7,
        's' => 8,
        'd' => 9,
        'f' => 14,
        'z' => 10,
        'x' => 0,
        'c' => 11,
        'v' => 15,
        _ => u8::MAX,
    }
}

} // verus!
