use vstd::prelude::*;

verus! {

/// How far an order that is under way has come.
#[derive(Clone, Copy, Debug, PartialEq, Eq, PartialOrd, Ord, Default)]
pub struct Progress {
    /// Distance between the two bases.
    pub distance: u32,
    /// Distance already traveled.
    pub traveled: u32,
}

} // verus!
