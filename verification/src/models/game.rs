use vstd::prelude::*;

verus! {

/// The game as seen by the acting player.
#[derive(Clone, Copy, Debug, PartialEq, Eq, Structural, Default)]
pub struct Game {
    /// How many players are still in the game.
    pub remaining_players: u32,
    /// The player on whose behalf orders are given.
    pub player: u32,
}

} // verus!
