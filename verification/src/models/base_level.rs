use vstd::prelude::*;

verus! {

/// One tier of the level table: what a base of that level produces.
#[derive(Clone, Copy, Debug, PartialEq, Eq, Structural, Default)]
pub struct BaseLevel {
    /// Troops generated per time unit.
    pub spawn_rate: u32,
}

} // verus!
