use vstd::prelude::*;
use crate::models::base::{level_is_known, Base};
use crate::models::board_action::BoardAction;
use crate::models::game::Game;
use crate::models::game_config::GameConfig;

verus! {

/// Everything known about one turn.
#[derive(Clone, Debug, PartialEq, Eq, Default)]
pub struct GameState {
    pub actions: Vec<BoardAction>,
    pub bases: Vec<Base>,
    pub config: GameConfig,
    pub game: Game,
}

impl GameState {
    /// The level of every base is an index into the level table of the
    /// configuration.
    pub open spec fn well_formed(self) -> bool {
        forall|b: Base| #[trigger]
            self.bases@.contains(b) ==> level_is_known(b, self.config.base_levels@)
    }

    /// Whether the level of every base is an index into the level table of the
    /// configuration.
    pub fn is_well_formed(&self) -> (ok: bool)
        ensures
            ok == self.well_formed(),
    {
        let mut i: usize = 0;
        while i < self.bases.len()
            invariant
                i <= self.bases.len(),
                forall|j: int|
                    0 <= j < i ==> level_is_known(
                        #[trigger] self.bases@[j],
                        self.config.base_levels@,
                    ),
            decreases self.bases.len() - i,
        {
            if self.bases[i].level as usize >= self.config.base_levels.len() {
                assert(self.bases@.contains(self.bases@[i as int]));
                return false;
            }
            i = i + 1;
        }
        true
    }
}

} // verus!
