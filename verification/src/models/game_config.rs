use vstd::prelude::*;
use crate::models::base_level::BaseLevel;
use crate::models::path_config::PathConfig;

verus! {

/// Configuration that stays the same over all turns of a game.
#[derive(Clone, Debug, PartialEq, Eq, Default)]
pub struct GameConfig {
    pub base_levels: Vec<BaseLevel>,
    pub paths: PathConfig,
}

} // verus!
