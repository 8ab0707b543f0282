//! Key strokes, as the viewers read them.

use vstd::prelude::*;

verus! {

/// The key of a key stroke.
#[derive(Clone, Copy, Debug, PartialEq, Eq, Structural)]
pub enum Key {
    Char(char),
    Up,
    Down,
    Enter,
    Other,
}

/// A key event: the key, whether shift was held, and whether the key went
/// down (rather than up, or repeating).
#[derive(Clone, Copy, Debug, PartialEq, Eq, Structural)]
pub struct KeyEvent {
    pub key: Key,
    pub shift: bool,
    pub pressed: bool,
}

} // verus!
