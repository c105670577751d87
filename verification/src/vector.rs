//! Vectors in the plane with fixed-point coordinates.

use crate::fixed::{
    fixed_mul, lemma_truncated_bounds, sat_add, sat_neg, sat_sub, spec_fixed_mul, spec_sat_add,
    spec_sat_neg, spec_sat_sub, truncated, Scalar, SCALE,
};
use vstd::prelude::*;

verus! {

/// A point or a displacement in the plane.
#[derive(Clone, Copy, Debug, PartialEq, Eq, Structural)]
pub struct Vector {
    pub x: Scalar,
    pub y: Scalar,
}

impl Vector {
    /// The vector with both coordinates equal to `value`.
    pub open spec fn spec_splat(value: Scalar) -> Vector {
        Vector { x: value, y: value }
    }

    /// The sum, coordinate by coordinate.
    pub open spec fn spec_plus(self, rhs: Vector) -> Vector {
        Vector { x: spec_sat_add(self.x, rhs.x), y: spec_sat_add(self.y, rhs.y) }
    }

    /// The difference, coordinate by coordinate.
    pub open spec fn spec_minus(self, rhs: Vector) -> Vector {
        Vector { x: spec_sat_sub(self.x, rhs.x), y: spec_sat_sub(self.y, rhs.y) }
    }

    /// The vector that points the other way.
    pub open spec fn spec_negated(self) -> Vector {
        Vector { x: spec_sat_neg(self.x), y: spec_sat_neg(self.y) }
    }

    /// The vector stretched by `factor`.
    pub open spec fn spec_scaled(self, factor: Scalar) -> Vector {
        Vector { x: spec_fixed_mul(self.x, factor), y: spec_fixed_mul(self.y, factor) }
    }

    /// The dot product: the two coordinate products, each rounded, added.
    pub open spec fn spec_dot(self, rhs: Vector) -> Scalar {
        spec_sat_add(spec_fixed_mul(self.x, rhs.x), spec_fixed_mul(self.y, rhs.y))
    }

    /// The part of `self` that lies along the unit vector `normal`.
    pub open spec fn spec_project_onto_normalized(self, normal: Vector) -> Vector {
        normal.spec_scaled(self.spec_dot(normal))
    }

    /// What is left of `self` once its part along the unit vector `normal`
    /// is taken away.
    pub open spec fn spec_reject_from_normalized(self, normal: Vector) -> Vector {
        self.spec_minus(self.spec_project_onto_normalized(normal))
    }

    /// Makes a vector from its coordinates.
    pub fn new(x: Scalar, y: Scalar) -> (v: Vector)
        ensures
            v == (Vector { x, y }),
    {
        Vector { x, y }
    }

    /// Makes a vector with both coordinates equal to `value`.
    #[verifier::when_used_as_spec(spec_splat)]
    pub fn splat(value: Scalar) -> (v: Vector)
        ensures
            v == Vector::spec_splat(value),
    {
        Vector { x: value, y: value }
    }

    /// Adds `rhs` to `self`.
    #[verifier::when_used_as_spec(spec_plus)]
    pub fn plus(self, rhs: Vector) -> (v: Vector)
        ensures
            v == self.spec_plus(rhs),
    {
        Vector { x: sat_add(self.x, rhs.x), y: sat_add(self.y, rhs.y) }
    }

    /// Subtracts `rhs` from `self`.
    #[verifier::when_used_as_spec(spec_minus)]
    pub fn minus(self, rhs: Vector) -> (v: Vector)
        ensures
            v == self.spec_minus(rhs),
    {
        Vector { x: sat_sub(self.x, rhs.x), y: sat_sub(self.y, rhs.y) }
    }

    /// Turns `self` to point the other way.
    #[verifier::when_used_as_spec(spec_negated)]
    pub fn negated(self) -> (v: Vector)
        ensures
            v == self.spec_negated(),
    {
        Vector { x: sat_neg(self.x), y: sat_neg(self.y) }
    }

    /// Stretches `self` by `factor`.
    #[verifier::when_used_as_spec(spec_scaled)]
    pub fn scaled(self, factor: Scalar) -> (v: Vector)
        ensures
            v == self.spec_scaled(factor),
    {
        Vector { x: fixed_mul(self.x, factor), y: fixed_mul(self.y, factor) }
    }

    /// The dot product of `self` and `rhs`.
    #[verifier::when_used_as_spec(spec_dot)]
    pub fn dot(self, rhs: Vector) -> (d: Scalar)
        ensures
            d == self.spec_dot(rhs),
    {
        sat_add(fixed_mul(self.x, rhs.x), fixed_mul(self.y, rhs.y))
    }

    /// Projects `self` onto the unit vector `normal`.
    #[verifier::when_used_as_spec(spec_project_onto_normalized)]
    pub fn project_onto_normalized(self, normal: Vector) -> (v: Vector)
        ensures
            v == self.spec_project_onto_normalized(normal),
    {
        normal.scaled(self.dot(normal))
    }

    /// Removes from `self` its part along the unit vector `normal`, which
    /// leaves the part along the surface that `normal` stands on.
    #[verifier::when_used_as_spec(spec_reject_from_normalized)]
    pub fn reject_from_normalized(self, normal: Vector) -> (v: Vector)
        ensures
            v == self.spec_reject_from_normalized(normal),
    {
        self.minus(self.project_onto_normalized(normal))
    }
}

/// The largest coordinate for which [`lemma_rejection_is_tangent`] vouches.
pub const MODERATE: Scalar = 0x2000_0000_0000_0000;

/// Whether both coordinates of `v` are moderate in size.
pub open spec fn moderate(v: Vector) -> bool {
    &&& -MODERATE <= v.x <= MODERATE
    &&& -MODERATE <= v.y <= MODERATE
}

/// Whether `normal` has length one exactly.
pub open spec fn unit(normal: Vector) -> bool {
    normal.x * normal.x + normal.y * normal.y == SCALE * SCALE
}

/// What is left of a vector after its part along a unit vector is taken away
/// has next to nothing along that unit vector: less than six millionths, which
/// the roundings on the way account for.
pub proof fn lemma_rejection_is_tangent(v: Vector, normal: Vector)
    requires
        moderate(v),
        unit(normal),
    ensures
        -6 < v.spec_reject_from_normalized(normal).spec_dot(normal) < 6,
{
    let s = SCALE as int;
    let (nx, ny) = (normal.x as int, normal.y as int);
    let (vx, vy) = (v.x as int, v.y as int);
    lemma_unit_coordinates(normal);

    // The dot product of `v` and the normal.
    let p1 = truncated(vx * nx, s);
    let p2 = truncated(vy * ny, s);
    lemma_truncated_bounds(vx * nx, s);
    lemma_truncated_bounds(vy * ny, s);
    lemma_product_bound(vx, nx, MODERATE as int, s);
    lemma_product_bound(vy, ny, MODERATE as int, s);
    let f1 = vx * nx - p1 * s;
    let f2 = vy * ny - p2 * s;
    let d = p1 + p2;
    assert(v.spec_dot(normal) == d);

    // The projection onto the normal, and what is left.
    let q1 = truncated(nx * d, s);
    let q2 = truncated(ny * d, s);
    lemma_truncated_bounds(nx * d, s);
    lemma_truncated_bounds(ny * d, s);
    lemma_product_bound(d, nx, 2 * MODERATE, s);
    lemma_product_bound(d, ny, 2 * MODERATE, s);
    assert(nx * d == d * nx) by (nonlinear_arith);
    assert(ny * d == d * ny) by (nonlinear_arith);
    let g1 = nx * d - q1 * s;
    let g2 = ny * d - q2 * s;
    let rx = vx - q1;
    let ry = vy - q2;
    let rest = v.spec_reject_from_normalized(normal);
    assert(rest.x == rx && rest.y == ry);

    // The dot product of what is left and the normal.
    let t1 = truncated(rx * nx, s);
    let t2 = truncated(ry * ny, s);
    lemma_truncated_bounds(rx * nx, s);
    lemma_truncated_bounds(ry * ny, s);
    lemma_product_bound(rx, nx, 3 * MODERATE, s);
    lemma_product_bound(ry, ny, 3 * MODERATE, s);
    let h1 = rx * nx - t1 * s;
    let h2 = ry * ny - t2 * s;
    let left = t1 + t2;

    // s * s * left == s * (f1 + f2 - h1 - h2) + g1 * nx + g2 * ny
    assert(rx * nx == vx * nx - q1 * nx) by (nonlinear_arith)
        requires
            rx == vx - q1,
    ;
    assert(ry * ny == vy * ny - q2 * ny) by (nonlinear_arith)
        requires
            ry == vy - q2,
    ;
    assert(s * (q1 * nx) == d * (nx * nx) - g1 * nx) by (nonlinear_arith)
        requires
            g1 == nx * d - q1 * s,
    ;
    assert(s * (q2 * ny) == d * (ny * ny) - g2 * ny) by (nonlinear_arith)
        requires
            g2 == ny * d - q2 * s,
    ;
    assert(d * (nx * nx) + d * (ny * ny) == d * (s * s)) by (nonlinear_arith)
        requires
            nx * nx + ny * ny == s * s,
    ;
    assert(d * (s * s) == s * (s * d)) by (nonlinear_arith);
    assert(s * (s * left) == s * (f1 + f2 - h1 - h2) + g1 * nx + g2 * ny) by (nonlinear_arith)
        requires
            s * left == (rx * nx - h1) + (ry * ny - h2),
            rx * nx == vx * nx - q1 * nx,
            ry * ny == vy * ny - q2 * ny,
            vx * nx == f1 + p1 * s,
            vy * ny == f2 + p2 * s,
            d == p1 + p2,
            s * (q1 * nx) + s * (q2 * ny) == s * (s * d) - g1 * nx - g2 * ny,
    ;
    assert(-(s * s) <= g1 * nx <= s * s) by (nonlinear_arith)
        requires
            -s < g1 < s,
            -s <= nx <= s,
            s > 0,
    ;
    assert(-(s * s) <= g2 * ny <= s * s) by (nonlinear_arith)
        requires
            -s < g2 < s,
            -s <= ny <= s,
            s > 0,
    ;
    assert(-6 < left < 6) by (nonlinear_arith)
        requires
            s == 1_000_000,
            s * (s * left) == s * (f1 + f2 - h1 - h2) + g1 * nx + g2 * ny,
            -s < f1 < s,
            -s < f2 < s,
            -s < h1 < s,
            -s < h2 < s,
            -(s * s) <= g1 * nx <= s * s,
            -(s * s) <= g2 * ny <= s * s,
    ;
    assert(rest.spec_dot(normal) == left);
}

/// The coordinates of a unit vector are at most one in size.
pub proof fn lemma_unit_coordinates(normal: Vector)
    requires
        unit(normal),
    ensures
        -SCALE <= normal.x <= SCALE,
        -SCALE <= normal.y <= SCALE,
{
    let (nx, ny) = (normal.x as int, normal.y as int);
    let s = SCALE as int;
    assert(-s <= nx <= s && -s <= ny <= s) by (nonlinear_arith)
        requires
            nx * nx + ny * ny == s * s,
            s > 0,
    ;
}

/// The product of a number of size at most `bound` and a number of size at
/// most `unit`, divided by `unit`, has size at most `bound`.
proof fn lemma_product_bound(a: int, b: int, bound: int, unit: int)
    requires
        -bound <= a <= bound,
        -unit <= b <= unit,
        unit > 0,
    ensures
        -(bound * unit) <= a * b <= bound * unit,
        -bound <= truncated(a * b, unit) <= bound,
{
    assert(-(bound * unit) <= a * b <= bound * unit) by (nonlinear_arith)
        requires
            -bound <= a <= bound,
            -unit <= b <= unit,
            unit > 0,
    ;
    lemma_truncated_bounds(a * b, unit);
    let t = truncated(a * b, unit);
    assert(-bound <= t <= bound) by (nonlinear_arith)
        requires
            -(bound * unit) <= a * b <= bound * unit,
            a * b >= 0 ==> 0 <= t * unit <= a * b,
            a * b <= 0 ==> a * b <= t * unit <= 0,
            unit > 0,
    ;
}

} // verus!
