//! Integer vectors and the exact dot products the collision code is built on.
//!
//! Coordinates are `i64` fixed-point values; every product is taken in `i128`
//! after the callers establish the coordinate bounds, so each executable
//! operation returns exactly the mathematical value its contract names.

use vstd::prelude::*;

verus! {

/// World-coordinate bound: every position, vertex, normal and radius the
/// library works with stays within this many fixed-point steps of the origin.
pub const MAX_COORD: i64 = 262144;

/// Bound accepted by the dot-product helpers; wide enough for every
/// intermediate point the library constructs.
pub const DOT_COORD: i64 = 0x1_0000_0000;

#[derive(Clone, Copy, PartialEq, Eq, Structural, Debug)]
pub struct Vec3 {
    pub x: i64,
    pub y: i64,
    pub z: i64,
}

#[derive(Clone, Copy, PartialEq, Eq, Structural, Debug)]
pub struct Vec2 {
    pub x: i64,
    pub y: i64,
}

/// Every coordinate of `v` lies in `[-b, b]`.
pub open spec fn in_bounds(v: Vec3, b: int) -> bool {
    &&& -b <= v.x <= b
    &&& -b <= v.y <= b
    &&& -b <= v.z <= b
}

/// `v` lies inside the world-coordinate bound.
pub open spec fn world_ok(v: Vec3) -> bool {
    in_bounds(v, MAX_COORD as int)
}

/// `v` is acceptable to the dot-product helpers.
pub open spec fn dot_ok(v: Vec3) -> bool {
    in_bounds(v, DOT_COORD as int)
}

/// Mathematical dot product of two vectors.
pub open spec fn sdot(a: Vec3, b: Vec3) -> int {
    a.x * b.x + a.y * b.y + a.z * b.z
}

/// Dot product of `n` with the difference `p - q`.
pub open spec fn sdot_sub(n: Vec3, p: Vec3, q: Vec3) -> int {
    n.x * (p.x - q.x) + n.y * (p.y - q.y) + n.z * (p.z - q.z)
}

/// Squared Euclidean distance between `p` and `q`.
pub open spec fn sdist_sq(p: Vec3, q: Vec3) -> int {
    (p.x - q.x) * (p.x - q.x) + (p.y - q.y) * (p.y - q.y) + (p.z - q.z) * (p.z - q.z)
}

/// Squared length of `v`.
pub open spec fn snorm_sq(v: Vec3) -> int {
    sdot(v, v)
}

proof fn lemma_abs_mul_bound(x: int, y: int, bx: int, by: int) by (nonlinear_arith)
    requires
        -bx <= x <= bx,
        -by <= y <= by,
        0 <= bx,
        0 <= by,
    ensures
        -(bx * by) <= x * y <= bx * by,
{
}

/// Exact dot product.
pub fn dot(a: &Vec3, b: &Vec3) -> (r: i128)
    requires
        dot_ok(*a),
        dot_ok(*b),
    ensures
        r == sdot(*a, *b),
{
    proof {
        let db = DOT_COORD as int;
        lemma_abs_mul_bound(a.x as int, b.x as int, db, db);
        lemma_abs_mul_bound(a.y as int, b.y as int, db, db);
        lemma_abs_mul_bound(a.z as int, b.z as int, db, db);
    }
    (a.x as i128) * (b.x as i128) + (a.y as i128) * (b.y as i128) + (a.z as i128) * (b.z as i128)
}

/// Exact dot product of `n` with `p - q`.
pub fn dot_sub(n: &Vec3, p: &Vec3, q: &Vec3) -> (r: i128)
    requires
        dot_ok(*n),
        dot_ok(*p),
        dot_ok(*q),
    ensures
        r == sdot_sub(*n, *p, *q),
{
    proof {
        let db = DOT_COORD as int;
        lemma_abs_mul_bound(n.x as int, p.x - q.x, db, 2 * db);
        lemma_abs_mul_bound(n.y as int, p.y - q.y, db, 2 * db);
        lemma_abs_mul_bound(n.z as int, p.z - q.z, db, 2 * db);
    }
    (n.x as i128) * ((p.x as i128) - (q.x as i128))
        + (n.y as i128) * ((p.y as i128) - (q.y as i128))
        + (n.z as i128) * ((p.z as i128) - (q.z as i128))
}

/// Exact squared distance between two points.
pub fn dist_sq(p: &Vec3, q: &Vec3) -> (r: i128)
    requires
        dot_ok(*p),
        dot_ok(*q),
    ensures
        r == sdist_sq(*p, *q),
        r >= 0,
        r == 0 <==> *p == *q,
{
    let dx: i128 = (p.x as i128) - (q.x as i128);
    let dy: i128 = (p.y as i128) - (q.y as i128);
    let dz: i128 = (p.z as i128) - (q.z as i128);
    proof {
        let db = DOT_COORD as int;
        lemma_abs_mul_bound(dx as int, dx as int, 2 * db, 2 * db);
        lemma_abs_mul_bound(dy as int, dy as int, 2 * db, 2 * db);
        lemma_abs_mul_bound(dz as int, dz as int, 2 * db, 2 * db);
        lemma_square_nonneg(dx as int);
        lemma_square_nonneg(dy as int);
        lemma_square_nonneg(dz as int);
    }
    dx * dx + dy * dy + dz * dz
}

/// Bound on a dot product with a difference from the coordinate bounds of
/// its operands.
pub proof fn lemma_dot_sub_bound(n: Vec3, p: Vec3, q: Vec3, b: int) by (nonlinear_arith)
    requires
        b >= 0,
        in_bounds(n, b),
        in_bounds(p, b),
        in_bounds(q, b),
    ensures
        -(6 * b * b) <= sdot_sub(n, p, q) <= 6 * b * b,
{
}

/// A square is never negative, and is zero only at zero.
pub proof fn lemma_square_nonneg(x: int) by (nonlinear_arith)
    ensures
        x * x >= 0,
        x * x == 0 <==> x == 0,
{
}

} // verus!
