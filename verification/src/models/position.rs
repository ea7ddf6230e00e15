use vstd::prelude::*;

verus! {

/// A point of the abstract three-dimensional space in which bases lie.
#[derive(Clone, Copy, Debug, PartialEq, Eq, Structural, Default)]
pub struct Position {
    pub x: i32,
    pub y: i32,
    pub z: i32,
}

} // verus!
