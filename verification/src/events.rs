//! The scoring notification.

use vstd::prelude::*;

use crate::components::Player;

verus! {

/// An ephemeral notification that a point was scored, carrying the
/// player who receives it. Produced at most once per fixed tick by the
/// collision system and consumed at most once by the round state
/// machine.
#[derive(Clone, Copy, Debug, PartialEq, Eq, Structural)]
pub struct Scored {
    pub player: Player,
}

} // verus!
