use vstd::prelude::*;
use crate::math::lemma_mul_bound;

verus! {

/// Largest magnitude allowed for a coordinate of a well-formed vector
/// (`2^29`). Keeping coordinates within this bound makes every product the
/// intersection math forms fit comfortably in an `i64`.
pub const COORD_LIMIT: i64 = 0x2000_0000;

/// The mathematical value of a [`Vector3`]: a triple of unbounded integers.
pub ghost struct IntVec {
    pub x: int,
    pub y: int,
    pub z: int,
}

/// Componentwise difference.
pub open spec fn vsub(a: IntVec, b: IntVec) -> IntVec {
    IntVec { x: a.x - b.x, y: a.y - b.y, z: a.z - b.z }
}

/// Euclidean dot product.
pub open spec fn vdot(a: IntVec, b: IntVec) -> int {
    a.x * b.x + a.y * b.y + a.z * b.z
}

/// Every component of `v` lies in `[-m, m]`.
pub open spec fn vec_bounded(v: IntVec, m: int) -> bool {
    &&& -m <= v.x <= m
    &&& -m <= v.y <= m
    &&& -m <= v.z <= m
}

/// `d` has unit length. Over integer coordinates this holds exactly of the
/// six axis directions, the only directions the orthographic camera needs.
pub open spec fn is_unit(d: IntVec) -> bool {
    vdot(d, d) == 1
}

/// A 3-D vector with integer coordinates.
#[derive(Clone, Copy, PartialEq, Eq, Structural, Debug)]
pub struct Vector3 {
    pub x: i64,
    pub y: i64,
    pub z: i64,
}

impl View for Vector3 {
    type V = IntVec;

    open spec fn view(&self) -> IntVec {
        IntVec { x: self.x as int, y: self.y as int, z: self.z as int }
    }
}

impl Vector3 {
    /// Every coordinate is within [`COORD_LIMIT`] in magnitude.
    pub open spec fn wf(self) -> bool {
        vec_bounded(self@, COORD_LIMIT as int)
    }

    pub fn new(x: i64, y: i64, z: i64) -> (v: Vector3)
        ensures
            v == (Vector3 { x, y, z }),
    {
        Vector3 { x, y, z }
    }

    /// Componentwise difference, `self - other`.
    pub fn sub(&self, other: &Vector3) -> (r: Vector3)
        requires
            self.wf(),
            other.wf(),
        ensures
            r@ == vsub(self@, other@),
            vec_bounded(r@, 2 * COORD_LIMIT as int),
    {
        Vector3 { x: self.x - other.x, y: self.y - other.y, z: self.z - other.z }
    }

    /// Euclidean dot product of two vectors whose components are bounded by
    /// twice [`COORD_LIMIT`], so that the sum of products cannot overflow.
    pub fn dot(&self, other: &Vector3) -> (r: i64)
        requires
            vec_bounded(self@, 2 * COORD_LIMIT as int),
            vec_bounded(other@, 2 * COORD_LIMIT as int),
        ensures
            r == vdot(self@, other@),
    {
        proof {
            lemma_mul_bound(self@.x, other@.x, 0x4000_0000);
            lemma_mul_bound(self@.y, other@.y, 0x4000_0000);
            lemma_mul_bound(self@.z, other@.z, 0x4000_0000);
        }
        self.x * other.x + self.y * other.y + self.z * other.z
    }
}

/// A half-line: an origin and a direction. The intersection math assumes the
/// direction has unit length; see [`Ray::wf`].
#[derive(Clone, Copy, PartialEq, Eq, Structural, Debug)]
pub struct Ray {
    pub origin: Vector3,
    pub direction: Vector3,
}

impl Ray {
    /// The origin is bounded and the direction has unit length.
    pub open spec fn wf(self) -> bool {
        self.origin.wf() && is_unit(self.direction@)
    }

    pub fn new(origin: Vector3, direction: Vector3) -> (r: Ray)
        ensures
            r == (Ray { origin, direction }),
    {
        Ray { origin, direction }
    }
}

/// A unit vector with integer components is one of the six axis directions.
pub proof fn lemma_unit_axis(d: IntVec)
    requires
        is_unit(d),
    ensures
        (d.y == 0 && d.z == 0 && (d.x == 1 || d.x == -1))
            || (d.x == 0 && d.z == 0 && (d.y == 1 || d.y == -1))
            || (d.x == 0 && d.y == 0 && (d.z == 1 || d.z == -1)),
{
    assert(d.x * d.x >= 0) by (nonlinear_arith);
    assert(d.y * d.y >= 0) by (nonlinear_arith);
    assert(d.z * d.z >= 0) by (nonlinear_arith);
    assert(-1 <= d.x <= 1) by (nonlinear_arith)
        requires d.x * d.x <= 1;
    assert(-1 <= d.y <= 1) by (nonlinear_arith)
        requires d.y * d.y <= 1;
    assert(-1 <= d.z <= 1) by (nonlinear_arith)
        requires d.z * d.z <= 1;
    assert((d.x == 0 ==> d.x * d.x == 0) && (d.x != 0 ==> d.x * d.x == 1)) by (nonlinear_arith)
        requires -1 <= d.x <= 1;
    assert((d.y == 0 ==> d.y * d.y == 0) && (d.y != 0 ==> d.y * d.y == 1)) by (nonlinear_arith)
        requires -1 <= d.y <= 1;
    assert((d.z == 0 ==> d.z * d.z == 0) && (d.z != 0 ==> d.z * d.z == 1)) by (nonlinear_arith)
        requires -1 <= d.z <= 1;
}

/// Projecting a vector bounded by `m` onto a unit direction stays within
/// `[-m, m]`, and the squared perpendicular distance it leaves is
/// non-negative.
pub proof fn lemma_unit_projection(l: IntVec, d: IntVec, m: int)
    requires
        is_unit(d),
        vec_bounded(l, m),
    ensures
        -m <= vdot(l, d) <= m,
        vdot(l, l) - vdot(l, d) * vdot(l, d) >= 0,
{
    lemma_unit_axis(d);
    assert(d.y == 0 && d.z == 0 ==> vdot(l, d) == l.x * d.x) by (nonlinear_arith);
    assert(d.x == 0 && d.z == 0 ==> vdot(l, d) == l.y * d.y) by (nonlinear_arith);
    assert(d.x == 0 && d.y == 0 ==> vdot(l, d) == l.z * d.z) by (nonlinear_arith);
    assert((d.x == 1 || d.x == -1) && (vdot(l, d) == l.x * d.x)
        ==> vdot(l, d) * vdot(l, d) == l.x * l.x) by (nonlinear_arith);
    assert((d.y == 1 || d.y == -1) && (vdot(l, d) == l.y * d.y)
        ==> vdot(l, d) * vdot(l, d) == l.y * l.y) by (nonlinear_arith);
    assert((d.z == 1 || d.z == -1) && (vdot(l, d) == l.z * d.z)
        ==> vdot(l, d) * vdot(l, d) == l.z * l.z) by (nonlinear_arith);
    assert(l.x * l.x >= 0) by (nonlinear_arith);
    assert(l.y * l.y >= 0) by (nonlinear_arith);
    assert(l.z * l.z >= 0) by (nonlinear_arith);
    assert((d.x == 1 || d.x == -1) ==> (-m <= l.x * d.x <= m)) by (nonlinear_arith)
        requires -m <= l.x <= m;
    assert((d.y == 1 || d.y == -1) ==> (-m <= l.y * d.y <= m)) by (nonlinear_arith)
        requires -m <= l.y <= m;
    assert((d.z == 1 || d.z == -1) ==> (-m <= l.z * d.z <= m)) by (nonlinear_arith)
        requires -m <= l.z <= m;
}

} // verus!
