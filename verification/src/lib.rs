//! Authoritative core of a multiplayer light-trail arena game.
//!
//! Every quantity of the simulation is an integer: positions and headings
//! are whole numbers of a unit of which three million make an arena unit, or
//! a radian. The same inputs therefore give the same round on every machine,
//! and a head that goes straight along an axis is exactly where the speed
//! and the number of ticks say.

pub mod collision;
pub mod entropy;
pub mod game_state;
pub mod laws;
pub mod models;
pub mod round;
pub mod session;
