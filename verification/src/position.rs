//! 2D coordinates and Euclidean distance.

use crate::num::{isqrt, sqrt_floor};
use vstd::prelude::*;

verus! {

/// Largest coordinate magnitude a position may hold, in milli units.
/// Keeping coordinates inside this range lets every distance computation
/// stay inside `i128`/`u128` arithmetic.
pub const COORD_LIMIT: i64 = 1_000_000_000_000;

/// A point in the galaxy's 2D plane, both coordinates in milli units.
#[derive(Debug, Clone, Copy, PartialEq, Eq, Structural)]
pub struct Position {
    pub x: i64,
    pub y: i64,
}

/// Squared Euclidean distance between two positions, as mathematical integers.
pub open spec fn spec_dist2(a: Position, b: Position) -> int {
    (a.x - b.x) * (a.x - b.x) + (a.y - b.y) * (a.y - b.y)
}

impl Position {
    /// Both coordinates lie inside the supported range.
    pub open spec fn wf(self) -> bool {
        -COORD_LIMIT <= self.x <= COORD_LIMIT && -COORD_LIMIT <= self.y <= COORD_LIMIT
    }

    pub fn new(x: i64, y: i64) -> (r: Self)
        requires
            -COORD_LIMIT <= x <= COORD_LIMIT,
            -COORD_LIMIT <= y <= COORD_LIMIT,
        ensures
            r.x == x,
            r.y == y,
            r.wf(),
    {
        Self { x, y }
    }

    pub fn x(&self) -> (r: i64)
        ensures
            r == self.x,
    {
        self.x
    }

    pub fn y(&self) -> (r: i64)
        ensures
            r == self.y,
    {
        self.y
    }

    /// Squared Euclidean distance, exact.
    pub fn dist2(&self, other: &Position) -> (r: u128)
        requires
            self.wf(),
            other.wf(),
        ensures
            r == spec_dist2(*self, *other),
    {
        let dx: i128 = (self.x as i128) - (other.x as i128);
        let dy: i128 = (self.y as i128) - (other.y as i128);
        proof {
            assert(dx * dx <= 2000000000000 * 2000000000000 && dx * dx >= 0) by (nonlinear_arith)
                requires
                    -2000000000000 <= dx <= 2000000000000,
            ;
            assert(dy * dy <= 2000000000000 * 2000000000000 && dy * dy >= 0) by (nonlinear_arith)
                requires
                    -2000000000000 <= dy <= 2000000000000,
            ;
        }
        let sq: i128 = dx * dx + dy * dy;
        sq as u128
    }

    /// Euclidean distance, rounded down to a whole milli step.
    pub fn distance_to(&self, other: &Position) -> (r: u64)
        requires
            self.wf(),
            other.wf(),
        ensures
            r == sqrt_floor(spec_dist2(*self, *other)),
    {
        let sq: u128 = self.dist2(other);
        isqrt(sq)
    }
}

} // verus!
