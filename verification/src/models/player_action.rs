use vstd::prelude::*;

verus! {

/// An order: send `amount` troops from base `src` to base `dest`.
#[derive(Clone, Copy, Debug, PartialEq, Eq, Structural, Default)]
pub struct PlayerAction {
    pub src: u32,
    pub dest: u32,
    pub amount: u32,
}

} // verus!
