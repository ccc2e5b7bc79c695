//! The rules of the board game Coerceo, its computer player and its game state.
use vstd::prelude::*;

pub mod model;
pub mod ai;
pub mod quiescence;
pub mod update;

verus! {
} // verus!
