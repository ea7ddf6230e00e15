use vstd::prelude::*;

verus! {

/// How troops die on the way between two bases.
#[derive(Clone, Copy, Debug, PartialEq, Eq, Structural, Default)]
pub struct PathConfig {
    /// Distance up to which a journey costs nothing.
    pub grace_period: u32,
    /// Troops lost per unit of distance beyond the grace period.
    pub death_rate: u32,
}

} // verus!
