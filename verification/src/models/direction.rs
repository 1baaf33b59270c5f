//! The steering intent of a player.

use vstd::prelude::*;

verus! {

/// What a player asks its head to do on every tick until it says otherwise.
#[derive(Clone, Copy, Debug, PartialEq, Eq, Structural)]
pub enum Direction {
    Left,
    Right,
    Straight,
}

} // verus!
