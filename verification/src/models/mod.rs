//! Data model of the game and the constants that fix its physics.
//!
//! Lengths and angles are whole numbers of one unit: the three-millionth part
//! of an arena unit, and of a radian. The round runs at thirty ticks a
//! second, and with this unit the thirtieth part of every speed is a whole
//! number, so that thirty ticks cover exactly what one second covers.

use vstd::prelude::*;

pub mod direction;
pub mod heading;
pub mod network_message;
pub mod player_states;

verus! {

/// Units in one arena unit, and in one radian.
pub const SCALE: i32 = 3_000_000;

/// Simulation steps per second.
pub const TICKS_PER_SECOND: u64 = 30;

/// Wall-clock length of one simulation step, in milliseconds.
pub const MILLIS_PER_TICK: u64 = 33;

/// Distance a head covers in one second: 200 arena units.
pub const MOVE_SPEED: i32 = 600_000_000;

/// Angle a steering player turns through in one second: 2.5 radians.
pub const ROTATION_SPEED: i32 = 7_500_000;

/// Distance a head covers in one tick: the thirtieth part of `MOVE_SPEED`.
pub const MOVE_SPEED_PER_TICK: i32 = 20_000_000;

/// Angle a steering player turns through in one tick: the thirtieth part of
/// `ROTATION_SPEED`.
pub const ROTATION_SPEED_PER_TICK: i32 = 250_000;

/// Width of the arena: 1000 arena units. The arena is centred on the origin.
pub const GAME_BOARD_WIDTH: i64 = 3_000_000_000;

/// Height of the arena: 1000 arena units.
pub const GAME_BOARD_HEIGHT: i64 = 3_000_000_000;

/// A head closer than this to a trail point collides with it: 20 arena units.
pub const COLLISION_RADIUS: i32 = 60_000_000;

/// One full turn, to the nearest unit. Headings are kept in `0 .. FULL_TURN`.
pub const FULL_TURN: i32 = 18_849_556;

/// A quarter of `FULL_TURN`.
pub const QUARTER_TURN: i32 = 4_712_389;

/// Length of a unit vector in the scale that heading vectors are given in.
pub const UNIT: i64 = 3_000_000_000;

/// Players are placed at the start of a round with both coordinates in
/// `SPAWN_MIN .. SPAWN_MAX`, the inner half of the arena.
pub const SPAWN_MIN: i32 = -750_000_000;

/// The end of the spawn area, which is itself outside it.
pub const SPAWN_MAX: i32 = 750_000_000;

/// Seconds counted down between a start request and the start of the round.
pub const COUNTDOWN_SECONDS: u32 = 5;

/// Number of the most recent points of a player's own trail that its head may
/// touch without dying: the head's own point and the ones it has just left,
/// which lie within `COLLISION_RADIUS` because a tick moves the head by less
/// than that.
pub const SELF_TRAIL_GRACE: usize = 4;

} // verus!
