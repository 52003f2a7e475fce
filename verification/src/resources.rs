//! Session-wide state: the score pair and the pause flag.

use vstd::prelude::*;

verus! {

/// The score: points of the left player, then of the right player.
/// Counters only ever grow during a session.
#[derive(Clone, Copy, Debug, PartialEq, Eq, Structural)]
pub struct Score(pub u32, pub u32);

/// The pause flag: true at startup and right after a score; cleared
/// only by the serve action.
#[derive(Clone, Copy, Debug, PartialEq, Eq, Structural)]
pub struct Paused(pub bool);

impl Paused {
    pub fn new(paused: bool) -> (r: Paused)
        ensures
            r == Paused(paused),
    {
        Paused(paused)
    }
}

} // verus!
