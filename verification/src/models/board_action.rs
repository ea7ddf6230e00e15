use vstd::prelude::*;
use crate::models::progress::Progress;

verus! {

/// An order given in an earlier turn whose troops are still under way.
#[derive(Clone, Copy, Debug, PartialEq, Eq, Default)]
pub struct BoardAction {
    pub src: u32,
    pub dest: u32,
    pub amount: u32,
    pub progress: Progress,
}

} // verus!
