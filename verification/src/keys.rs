//! The keys that the game listens to.

use crate::grid::Offset;
use vstd::prelude::*;

verus! {

/// What the keyboard did since the last frame.
#[derive(Debug, Clone, Copy, PartialEq, Eq, Structural)]
pub struct Keys {
    /// The up key went down.
    pub up: bool,
    /// The down key went down.
    pub down: bool,
    /// The right key went down.
    pub right: bool,
    /// The left key went down.
    pub left: bool,
    /// The restart key came up.
    pub restart: bool,
    /// The escape key is held.
    pub escape: bool,
}

/// The turns that `keys` ask for, in the order in which they are queued: up,
/// down, right, left.
pub open spec fn pressed(keys: Keys) -> Seq<Offset> {
    (if keys.up {
        seq![Offset::up()]
    } else {
        Seq::empty()
    }) + (if keys.down {
        seq![Offset::down()]
    } else {
        Seq::empty()
    }) + (if keys.right {
        seq![Offset::right()]
    } else {
        Seq::empty()
    }) + (if keys.left {
        seq![Offset::left()]
    } else {
        Seq::empty()
    })
}

impl Keys {
    /// No key did anything.
    pub fn none() -> (keys: Keys)
        ensures
            keys == (Keys {
                up: false,
                down: false,
                right: false,
                left: false,
                restart: false,
                escape: false,
            }),
    {
        Keys { up: false, down: false, right: false, left: false, restart: false, escape: false }
    }
}

} // verus!
