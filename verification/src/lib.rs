//! Turn-based decision engine for a territory-conquest game played on bases
//! placed in three-dimensional integer space.
//!
//! Each turn the engine receives a snapshot of the game and answers with a
//! list of attack orders. It keeps no state between turns.

pub mod logic;
pub mod models;
