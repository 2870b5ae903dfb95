//! Fixed-point plane geometry.
//!
//! World coordinates, sizes and offsets are carried in thousandths
//! of a world unit, so that sprite-sheet layout arithmetic and world
//! scrolling stay exact in integers.

use vstd::prelude::*;

verus! {

/// One thousandth of a world unit: the resolution of all fixed-point
/// coordinates in the library.
pub const MILLI_PER_UNIT: i64 = 1000;

/// Largest magnitude accepted for sprite-sheet geometry values, in
/// thousandths of a unit.  Keeping layout inputs within this bound
/// makes the layout arithmetic provably free of overflow.
pub const MAX_GEOMETRY: i64 = 1_000_000_000;

/// A plane vector in thousandths of a world unit.
#[derive(Clone, Copy, Debug, PartialEq, Eq, Structural)]
pub struct Vec2 {
    /// Horizontal component, in thousandths of a unit.
    pub x: i64,
    /// Vertical component, in thousandths of a unit.
    pub y: i64,
}

impl Vec2 {
    /// The zero vector.
    pub fn zero() -> (r: Vec2)
        ensures
            r.x == 0,
            r.y == 0,
    {
        Vec2 { x: 0, y: 0 }
    }
}

impl Default for Vec2 {
    /// The zero vector.
    fn default() -> (r: Vec2)
        ensures
            r.x == 0,
            r.y == 0,
    {
        Vec2 { x: 0, y: 0 }
    }
}

/// A sprite-sheet geometry component: non-negative and small enough
/// that layout products fit comfortably in 64 bits.
pub open spec fn geometry_coord_ok(v: i64) -> bool {
    0 <= v <= MAX_GEOMETRY
}

/// Both components of a sprite-sheet geometry vector in range.
pub open spec fn geometry_vec_ok(v: Vec2) -> bool {
    geometry_coord_ok(v.x) && geometry_coord_ok(v.y)
}

/// `a * b / 1000`, the product of two fixed-point values scaled back
/// to thousandths, truncated toward zero.
pub fn milli_mul(a: i64, b: i64) -> (r: i64)
    requires
        geometry_coord_ok(a),
        geometry_coord_ok(b),
    ensures
        r == a * b / (MILLI_PER_UNIT as int),
        0 <= r <= MAX_GEOMETRY * MAX_GEOMETRY / (MILLI_PER_UNIT as int),
{
    proof {
        assert(a * b <= MAX_GEOMETRY * MAX_GEOMETRY) by (nonlinear_arith)
            requires
                0 <= a <= MAX_GEOMETRY,
                0 <= b <= MAX_GEOMETRY,
        ;
        assert(a * b >= 0) by (nonlinear_arith)
            requires
                0 <= a,
                0 <= b,
        ;
        assert(MAX_GEOMETRY * MAX_GEOMETRY / (MILLI_PER_UNIT as int) == 1_000_000_000_000_000)
            by (nonlinear_arith);
        vstd::arithmetic::div_mod::lemma_div_is_ordered(
            a as int * b as int,
            MAX_GEOMETRY as int * MAX_GEOMETRY as int,
            MILLI_PER_UNIT as int,
        );
        vstd::arithmetic::div_mod::lemma_div_pos_is_pos(a as int * b as int, MILLI_PER_UNIT as int);
    }
    let prod: u64 = (a as u64) * (b as u64);
    (prod / 1000) as i64
}

} // verus!
