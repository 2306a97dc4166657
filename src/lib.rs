//! Rules of a two-player Connect-Four game kept as an event-sourced model:
//! commands are checked against the current games, accepted commands become
//! events, and the games are the fold of the events.

use vstd::prelude::*;

pub mod board;
pub mod events;
pub mod game;
pub mod position;

verus! {

} // verus!
