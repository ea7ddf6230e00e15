//! Distances between bases.

use vstd::prelude::*;
use crate::models::base::Base;
use crate::models::position::Position;

verus! {

/// `r` is the square root of `n`, rounded down to an integer.
pub open spec fn is_floor_sqrt(n: int, r: int) -> bool {
    0 <= r && r * r <= n < (r + 1) * (r + 1)
}

/// The square root of `n`, rounded down to an integer (for `n >= 0`).
pub open spec fn floor_sqrt(n: int) -> int {
    choose|r: int| is_floor_sqrt(n, r)
}

/// The sum of the squares of the differences along the three axes.
pub open spec fn squared_distance(x1: int, y1: int, z1: int, x2: int, y2: int, z2: int) -> int {
    (x1 - x2) * (x1 - x2) + (y1 - y2) * (y1 - y2) + (z1 - z2) * (z1 - z2)
}

/// The Euclidean distance between two points, rounded down to an integer.
pub open spec fn euclid_spec(x1: int, y1: int, z1: int, x2: int, y2: int, z2: int) -> int {
    floor_sqrt(squared_distance(x1, y1, z1, x2, y2, z2))
}

/// The Euclidean distance between two positions, rounded down to an integer.
pub open spec fn distance(a: Position, b: Position) -> int {
    euclid_spec(a.x as int, a.y as int, a.z as int, b.x as int, b.y as int, b.z as int)
}

/// Squaring keeps the order of non-negative integers.
proof fn lemma_square_monotonic(a: int, b: int)
    requires
        0 <= a <= b,
    ensures
        a * a <= b * b,
{
    assert(a * a <= b * b) by (nonlinear_arith)
        requires
            0 <= a <= b,
    ;
}

/// A number has at most one rounded-down square root.
pub proof fn lemma_floor_sqrt_unique(n: int, r1: int, r2: int)
    requires
        is_floor_sqrt(n, r1),
        is_floor_sqrt(n, r2),
    ensures
        r1 == r2,
{
    if r1 < r2 {
        lemma_square_monotonic(r1 + 1, r2);
    } else if r2 < r1 {
        lemma_square_monotonic(r2 + 1, r1);
    }
}

/// Whatever meets the definition of the rounded-down square root is the root.
pub proof fn lemma_floor_sqrt_is(n: int, r: int)
    requires
        is_floor_sqrt(n, r),
    ensures
        floor_sqrt(n) == r,
{
    lemma_floor_sqrt_unique(n, r, floor_sqrt(n));
}

/// The square root of `n`, rounded down.
pub fn integer_sqrt(n: u128) -> (r: u64)
    ensures
        is_floor_sqrt(n as int, r as int),
        r == floor_sqrt(n as int),
{
    let mut lo: u128 = 0;
    let mut hi: u128 = 0x1_0000_0000_0000_0000;
    assert(0x1_0000_0000_0000_0000int * 0x1_0000_0000_0000_0000int
        == 0x1_0000_0000_0000_0000_0000_0000_0000_0000int) by (nonlinear_arith);
    while hi - lo > 1
        invariant
            lo < hi <= 0x1_0000_0000_0000_0000,
            lo * lo <= n < hi * hi,
        decreases hi - lo,
    {
        let mid: u128 = lo + (hi - lo) / 2;
        proof {
            lemma_square_monotonic(mid as int, 0xFFFF_FFFF_FFFF_FFFFint);
            assert(0xFFFF_FFFF_FFFF_FFFFint * 0xFFFF_FFFF_FFFF_FFFFint
                == 0xFFFF_FFFF_FFFF_FFFE_0000_0000_0000_0001int) by (nonlinear_arith);
        }
        if mid * mid <= n {
            lo = mid;
        } else {
            hi = mid;
        }
    }
    proof {
        lemma_floor_sqrt_is(n as int, lo as int);
    }
    lo as u64
}

/// The distance between `a` and `b` along one axis.
fn axis_gap(a: i32, b: i32) -> (gap: u64)
    ensures
        gap == if a >= b { a - b } else { b - a },
        gap <= 0xFFFF_FFFF,
{
    if a >= b {
        (a as i64 - b as i64) as u64
    } else {
        (b as i64 - a as i64) as u64
    }
}

/// The Euclidean distance between `(x1, y1, z1)` and `(x2, y2, z2)`, rounded
/// down to an integer. The squares are taken in a type wide enough for any
/// pair of points, so the result is exact for all coordinates.
pub fn euclid(x1: i32, y1: i32, z1: i32, x2: i32, y2: i32, z2: i32) -> (d: u64)
    ensures
        d == euclid_spec(x1 as int, y1 as int, z1 as int, x2 as int, y2 as int, z2 as int),
        is_floor_sqrt(
            squared_distance(x1 as int, y1 as int, z1 as int, x2 as int, y2 as int, z2 as int),
            d as int,
        ),
{
    let dx: u128 = axis_gap(x1, x2) as u128;
    let dy: u128 = axis_gap(y1, y2) as u128;
    let dz: u128 = axis_gap(z1, z2) as u128;
    proof {
        lemma_square_monotonic(dx as int, 0xFFFF_FFFFint);
        lemma_square_monotonic(dy as int, 0xFFFF_FFFFint);
        lemma_square_monotonic(dz as int, 0xFFFF_FFFFint);
        assert(dx * dx == (x1 - x2) * (x1 - x2)) by (nonlinear_arith)
            requires
                dx == x1 - x2 || dx == x2 - x1,
        ;
        assert(dy * dy == (y1 - y2) * (y1 - y2)) by (nonlinear_arith)
            requires
                dy == y1 - y2 || dy == y2 - y1,
        ;
        assert(dz * dz == (z1 - z2) * (z1 - z2)) by (nonlinear_arith)
            requires
                dz == z1 - z2 || dz == z2 - z1,
        ;
    }
    integer_sqrt(dx * dx + dy * dy + dz * dz)
}

/// The distance between two bases.
pub fn get_base_distance(base_1: &Base, base_2: &Base) -> (d: u64)
    ensures
        d == distance(base_1.position, base_2.position),
        is_floor_sqrt(
            squared_distance(
                base_1.position.x as int,
                base_1.position.y as int,
                base_1.position.z as int,
                base_2.position.x as int,
                base_2.position.y as int,
                base_2.position.z as int,
            ),
            d as int,
        ),
{
    euclid(
        base_1.position.x,
        base_1.position.y,
        base_1.position.z,
        base_2.position.x,
        base_2.position.y,
        base_2.position.z,
    )
}

} // verus!
