//! Exact planar geometry on integer coordinates.
//!
//! Distances are never rounded: every comparison of a Euclidean distance with
//! a radius is decided on the squared distance, which is an integer.

use vstd::prelude::*;

verus! {

/// A point of the arena, as `(x, y)`.
pub type Point = (i32, i32);

/// The squared Euclidean distance between `p` and `q`.
pub open spec fn dist_sq(p: Point, q: Point) -> int {
    (p.0 - q.0) * (p.0 - q.0) + (p.1 - q.1) * (p.1 - q.1)
}

/// `p` and `q` are strictly less than `radius` apart.
pub open spec fn closer_than(p: Point, q: Point, radius: u32) -> bool {
    dist_sq(p, q) < radius * radius
}

/// `p` and `q` are at most `radius` apart.
pub open spec fn within(p: Point, q: Point, radius: u32) -> bool {
    dist_sq(p, q) <= radius * radius
}

/// The square of every coordinate difference fits in 64 bits.
proof fn lemma_square_bound(d: int)
    requires
        -0x1_0000_0000 < d < 0x1_0000_0000,
    ensures
        0 <= d * d <= 0xffff_fffe_0000_0001,
{
    assert(0 <= d * d <= 0xffff_fffe_0000_0001) by (nonlinear_arith)
        requires
            -0x1_0000_0000 < d < 0x1_0000_0000,
    ;
}

/// A squared distance between two points is never negative and fits in 66 bits.
pub proof fn lemma_dist_sq_bounds(p: Point, q: Point)
    ensures
        0 <= dist_sq(p, q) <= 0x1_ffff_fffc_0000_0002,
{
    lemma_square_bound(p.0 - q.0);
    lemma_square_bound(p.1 - q.1);
}

/// The distance computations of the engine.
pub struct Utils {}

impl Utils {
    /// Computes the squared distance between two points without overflow,
    /// whatever the coordinates.
    pub fn distance_sq(p: Point, q: Point) -> (d: u128)
        ensures
            d == dist_sq(p, q),
    {
        let dx: i128 = p.0 as i128 - q.0 as i128;
        let dy: i128 = p.1 as i128 - q.1 as i128;
        proof {
            lemma_square_bound(dx as int);
            lemma_square_bound(dy as int);
        }
        (dx * dx + dy * dy) as u128
    }

    /// Tells whether two points are strictly less than `radius` apart.
    pub fn closer_than(p: Point, q: Point, radius: u32) -> (b: bool)
        ensures
            b == closer_than(p, q, radius),
    {
        let r: u128 = radius as u128;
        proof {
            lemma_square_bound(radius as int);
        }
        Self::distance_sq(p, q) < r * r
    }

    /// Tells whether two points are at most `radius` apart.
    pub fn within(p: Point, q: Point, radius: u32) -> (b: bool)
        ensures
            b == within(p, q, radius),
    {
        let r: u128 = radius as u128;
        proof {
            lemma_square_bound(radius as int);
        }
        Self::distance_sq(p, q) <= r * r
    }
}

} // verus!
