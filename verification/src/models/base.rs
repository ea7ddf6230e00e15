use vstd::prelude::*;
use crate::models::base_level::BaseLevel;
use crate::models::position::Position;

verus! {

/// A capturable location. `player == 0` means that nobody holds it.
#[derive(Clone, Copy, Debug, PartialEq, Eq, Structural, Default)]
pub struct Base {
    pub position: Position,
    pub uid: u32,
    pub player: u32,
    pub population: u32,
    /// Index into the level table of the configuration.
    pub level: u32,
}

/// The level of `base` is an index into the level table `levels`.
pub open spec fn level_is_known(base: Base, levels: Seq<BaseLevel>) -> bool {
    (base.level as int) < levels.len()
}

} // verus!
