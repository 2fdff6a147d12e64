//! Closest-point queries: point onto segment, point onto plane, and point
//! onto triangle (face, edge and vertex cases), the primitives behind both
//! the capsule and the camera contact resolution.

use vstd::prelude::*;
use crate::vec3::{
    Vec3, Vec2, in_bounds, sdot_sub, sdist_sq, snorm_sq, MAX_COORD, DOT_COORD,
};
use crate::shapes::{Plane, Triangle, tri_plane_spec, project2};
use crate::num::fdiv;
use crate::intersect::spoint_in_triangle;

verus! {

/// Squared length of the segment `p0 p1`.
pub open spec fn seg_dd(p0: Vec3, p1: Vec3) -> int {
    sdist_sq(p0, p1)
}

/// Numerator of the projection parameter of `q` onto the segment:
/// `(q - p0) . (p1 - p0)`, over denominator `seg_dd`.
pub open spec fn seg_qnum(q: Vec3, p0: Vec3, p1: Vec3) -> int {
    (q.x - p0.x) * (p1.x - p0.x) + (q.y - p0.y) * (p1.y - p0.y) + (q.z - p0.z) * (p1.z - p0.z)
}

/// The closest point of the segment to `q`: the projection clamped to the
/// endpoints (a degenerate zero-length segment yields `p0`), rounded to the
/// grid.
pub open spec fn cps_point(q: Vec3, p0: Vec3, p1: Vec3) -> Vec3 {
    let dd = seg_dd(p0, p1);
    let num = seg_qnum(q, p0, p1);
    if num <= 0 || dd == 0 {
        p0
    } else if num >= dd {
        p1
    } else {
        Vec3 {
            x: fdiv(p0.x * dd + num * (p1.x - p0.x), dd) as i64,
            y: fdiv(p0.y * dd + num * (p1.y - p0.y), dd) as i64,
            z: fdiv(p0.z * dd + num * (p1.z - p0.z), dd) as i64,
        }
    }
}

/// Standard projection of `q` onto the segment `p0 p1`, clamped to the
/// endpoints, exact per `cps_point`; the result stays coordinatewise between
/// the endpoints.
pub fn closest_point_on_line_segment(q: &Vec3, p0: &Vec3, p1: &Vec3) -> (r: Vec3)
    requires
        in_bounds(*q, 32 * MAX_COORD as int),
        in_bounds(*p0, MAX_COORD as int),
        in_bounds(*p1, MAX_COORD as int),
    ensures
        r == cps_point(*q, *p0, *p1),
        in_bounds(r, MAX_COORD as int),
{
    proof {
        let b = MAX_COORD as int;
        assert(-(100 * b * b) <= (q.x - p0.x) * (p1.x - p0.x) <= 100 * b * b
            && -(100 * b * b) <= (q.y - p0.y) * (p1.y - p0.y) <= 100 * b * b
            && -(100 * b * b) <= (q.z - p0.z) * (p1.z - p0.z) <= 100 * b * b
            && 0 <= (p0.x - p1.x) * (p0.x - p1.x) + (p0.y
            - p1.y) * (p0.y - p1.y) + (p0.z - p1.z) * (p0.z - p1.z) <= 12 * b * b)
            by (nonlinear_arith)
            requires
                -32 * b <= q.x <= 32 * b,
                -32 * b <= q.y <= 32 * b,
                -32 * b <= q.z <= 32 * b,
                -b <= p0.x <= b && -b <= p0.y <= b && -b <= p0.z <= b,
                -b <= p1.x <= b && -b <= p1.y <= b && -b <= p1.z <= b,
                b == 262144;
    }
    let dd: i128 = crate::vec3::dist_sq(p0, p1);
    let num: i128 = ((q.x as i128) - (p0.x as i128)) * ((p1.x as i128) - (p0.x as i128))
        + ((q.y as i128) - (p0.y as i128)) * ((p1.y as i128) - (p0.y as i128))
        + ((q.z as i128) - (p0.z as i128)) * ((p1.z as i128) - (p0.z as i128));
    if num <= 0 || dd == 0 {
        *p0
    } else if num >= dd {
        *p1
    } else {
        let x: i64 = crate::intersect::interp_coord(p0.x, p1.x, num, dd);
        let y: i64 = crate::intersect::interp_coord(p0.y, p1.y, num, dd);
        let z: i64 = crate::intersect::interp_coord(p0.z, p1.z, num, dd);
        Vec3 { x, y, z }
    }
}

/// Numerator of the plane projection's X coordinate over denominator
/// `snorm_sq(plane.normal)`.
pub open spec fn pp_xnum(q: Vec3, plane: Plane) -> int {
    q.x * snorm_sq(plane.normal) - sdot_sub(plane.normal, q, plane.point) * plane.normal.x
}

/// Numerator of the plane projection's Y coordinate.
pub open spec fn pp_ynum(q: Vec3, plane: Plane) -> int {
    q.y * snorm_sq(plane.normal) - sdot_sub(plane.normal, q, plane.point) * plane.normal.y
}

/// Numerator of the plane projection's Z coordinate.
pub open spec fn pp_znum(q: Vec3, plane: Plane) -> int {
    q.z * snorm_sq(plane.normal) - sdot_sub(plane.normal, q, plane.point) * plane.normal.z
}

/// The perpendicular projection of `q` onto the plane, rounded to the grid.
pub open spec fn pp_point(q: Vec3, plane: Plane) -> Vec3 {
    let nn = snorm_sq(plane.normal);
    Vec3 {
        x: fdiv(pp_xnum(q, plane), nn) as i64,
        y: fdiv(pp_ynum(q, plane), nn) as i64,
        z: fdiv(pp_znum(q, plane), nn) as i64,
    }
}

/// Cauchy-Schwarz in three dimensions, by Lagrange's identity: the defect is
/// a sum of three squares.
proof fn lemma_lagrange_pair(ai: int, bi: int, aj: int, bj: int)
    ensures
        (ai * bj - aj * bi) * (ai * bj - aj * bi) == (ai * ai) * (bj * bj) + (aj * aj) * (bi * bi)
            - 2 * ((ai * bi) * (aj * bj)),
        (ai * ai) * (bi * bi) == (ai * bi) * (ai * bi),
{
    let x = ai * bj;
    let y = aj * bi;
    assert((x - y) * (x - y) == x * x - 2 * (x * y) + y * y) by (nonlinear_arith);
    assert(x * x == (ai * ai) * (bj * bj)) by (nonlinear_arith)
        requires
            x == ai * bj;
    assert(y * y == (aj * aj) * (bi * bi)) by (nonlinear_arith)
        requires
            y == aj * bi;
    assert(x * y == (ai * bi) * (aj * bj)) by (nonlinear_arith)
        requires
            x == ai * bj,
            y == aj * bi;
    assert((ai * ai) * (bi * bi) == (ai * bi) * (ai * bi)) by (nonlinear_arith);
}

pub proof fn lemma_cauchy_schwarz(a1: int, a2: int, a3: int, b1: int, b2: int, b3: int)
    ensures
        (a1 * b1 + a2 * b2 + a3 * b3) * (a1 * b1 + a2 * b2 + a3 * b3) <= (a1 * a1 + a2 * a2 + a3
            * a3) * (b1 * b1 + b2 * b2 + b3 * b3),
{
    let s1 = a1 * b1;
    let s2 = a2 * b2;
    let s3 = a3 * b3;
    let u1 = a1 * a1;
    let u2 = a2 * a2;
    let u3 = a3 * a3;
    let v1 = b1 * b1;
    let v2 = b2 * b2;
    let v3 = b3 * b3;
    let l1 = a1 * b2 - a2 * b1;
    let l2 = a1 * b3 - a3 * b1;
    let l3 = a2 * b3 - a3 * b2;
    lemma_lagrange_pair(a1, b1, a2, b2);
    lemma_lagrange_pair(a1, b1, a3, b3);
    lemma_lagrange_pair(a2, b2, a3, b3);
    lemma_lagrange_pair(a3, b3, a1, b1);
    crate::vec3::lemma_square_nonneg(l1);
    crate::vec3::lemma_square_nonneg(l2);
    crate::vec3::lemma_square_nonneg(l3);
    // expand both sides over the nine product terms
    assert((u1 + u2 + u3) * (v1 + v2 + v3) == u1 * v1 + u1 * v2 + u1 * v3 + u2 * v1 + u2 * v2 + u2
        * v3 + u3 * v1 + u3 * v2 + u3 * v3) by (nonlinear_arith);
    assert((s1 + s2 + s3) * (s1 + s2 + s3) == s1 * s1 + s2 * s2 + s3 * s3 + 2 * (s1 * s2) + 2 * (
    s1 * s3) + 2 * (s2 * s3)) by (nonlinear_arith);
}

proof fn lemma_dn_ni_bound(dn: int, ni: int, nn: int, b: int)
    requires
        dn * dn <= nn * (243 * b * b),
        ni * ni <= nn,
        nn > 0,
        b > 0,
    ensures
        -(16 * b * nn) <= dn * ni <= 16 * b * nn,
{
    assert((dn * ni) * (dn * ni) <= (16 * b * nn) * (16 * b * nn)) by (nonlinear_arith)
        requires
            dn * dn <= nn * (243 * b * b),
            ni * ni <= nn,
            nn > 0,
            b > 0;
    assert(16 * b * nn > 0) by (nonlinear_arith)
        requires
            nn > 0,
            b > 0;
    assert(-(16 * b * nn) <= dn * ni <= 16 * b * nn) by (nonlinear_arith)
        requires
            (dn * ni) * (dn * ni) <= (16 * b * nn) * (16 * b * nn),
            16 * b * nn > 0;
}

/// The projection of `q` onto the plane moves `q` by no more than the
/// distance from `q` to the plane's reference point, coordinatewise (a
/// Cauchy-Schwarz consequence used to bound the projected point).
proof fn lemma_pp_num_bounds(q: Vec3, plane: Plane, b: int)
    requires
        b == MAX_COORD as int,
        in_bounds(q, 8 * b),
        in_bounds(plane.point, b),
        in_bounds(plane.normal, b),
        snorm_sq(plane.normal) > 0,
    ensures
        (q.x - 16 * b) * snorm_sq(plane.normal) <= pp_xnum(q, plane) <= (q.x + 16 * b) * snorm_sq(
            plane.normal,
        ),
        (q.y - 16 * b) * snorm_sq(plane.normal) <= pp_ynum(q, plane) <= (q.y + 16 * b) * snorm_sq(
            plane.normal,
        ),
        (q.z - 16 * b) * snorm_sq(plane.normal) <= pp_znum(q, plane) <= (q.z + 16 * b) * snorm_sq(
            plane.normal,
        ),
{
    let n = plane.normal;
    let a = plane.point;
    let nn = snorm_sq(n);
    let dn = sdot_sub(n, q, a);
    lemma_cauchy_schwarz(
        n.x as int,
        n.y as int,
        n.z as int,
        q.x - a.x,
        q.y - a.y,
        q.z - a.z,
    );
    let dd = sdist_sq(q, a);
    assert(dn * dn <= nn * dd);
    assert(dd <= 243 * b * b) by (nonlinear_arith)
        requires
            dd == (q.x - a.x) * (q.x - a.x) + (q.y - a.y) * (q.y - a.y) + (q.z - a.z) * (q.z
                - a.z),
            in_bounds(q, 8 * b),
            in_bounds(a, b),
            b > 0;
    assert(n.x * n.x <= nn && n.y * n.y <= nn && n.z * n.z <= nn) by {
        crate::vec3::lemma_square_nonneg(n.x as int);
        crate::vec3::lemma_square_nonneg(n.y as int);
        crate::vec3::lemma_square_nonneg(n.z as int);
    }
    assert(dn * dn <= nn * (243 * b * b)) by (nonlinear_arith)
        requires
            dn * dn <= nn * dd,
            dd <= 243 * b * b,
            nn > 0;
    lemma_dn_ni_bound(dn, n.x as int, nn, b);
    lemma_dn_ni_bound(dn, n.y as int, nn, b);
    lemma_dn_ni_bound(dn, n.z as int, nn, b);
    assert((q.x - 16 * b) * nn == q.x * nn - 16 * b * nn && (q.x + 16 * b) * nn == q.x * nn + 16
        * b * nn) by (nonlinear_arith);
    assert((q.y - 16 * b) * nn == q.y * nn - 16 * b * nn && (q.y + 16 * b) * nn == q.y * nn + 16
        * b * nn) by (nonlinear_arith);
    assert((q.z - 16 * b) * nn == q.z * nn - 16 * b * nn && (q.z + 16 * b) * nn == q.z * nn + 16
        * b * nn) by (nonlinear_arith);
}

/// Project `q` perpendicularly onto the plane.  Returns the signed distance
/// scaled by the normal's length (`normal . (q - plane.point)`, exact) and
/// the projected point rounded to the grid.
pub fn projected_point_on_plane(q: &Vec3, plane: &Plane) -> (r: (i128, Vec3))
    requires
        in_bounds(*q, 8 * MAX_COORD as int),
        in_bounds(plane.point, MAX_COORD as int),
        in_bounds(plane.normal, MAX_COORD as int),
        snorm_sq(plane.normal) > 0,
    ensures
        r.0 == sdot_sub(plane.normal, *q, plane.point),
        r.1 == pp_point(*q, *plane),
        in_bounds(r.1, 32 * MAX_COORD as int),
{
    let ghost b = MAX_COORD as int;
    let nn: i128 = crate::vec3::dot(&plane.normal, &plane.normal);
    let dn: i128 = crate::vec3::dot_sub(&plane.normal, q, &plane.point);
    proof {
        crate::intersect::lemma_sdot_bound(plane.normal, plane.normal, b);
        assert(-(27 * b * b) <= dn <= 27 * b * b) by (nonlinear_arith)
            requires
                dn == plane.normal.x * (q.x - plane.point.x) + plane.normal.y * (q.y
                    - plane.point.y) + plane.normal.z * (q.z - plane.point.z),
                in_bounds(*q, 8 * b),
                in_bounds(plane.point, b),
                in_bounds(plane.normal, b),
                b > 0;
        lemma_pp_num_bounds(*q, *plane, b);
        assert(-(0x1_0000_0000_0000_0000_0000) <= q.x * nn <= 0x1_0000_0000_0000_0000_0000
            && -(0x1_0000_0000_0000_0000_0000) <= dn * plane.normal.x
                <= 0x1_0000_0000_0000_0000_0000
            && -(0x1_0000_0000_0000_0000_0000) <= q.y * nn <= 0x1_0000_0000_0000_0000_0000
            && -(0x1_0000_0000_0000_0000_0000) <= dn * plane.normal.y
                <= 0x1_0000_0000_0000_0000_0000
            && -(0x1_0000_0000_0000_0000_0000) <= q.z * nn <= 0x1_0000_0000_0000_0000_0000
            && -(0x1_0000_0000_0000_0000_0000) <= dn * plane.normal.z
                <= 0x1_0000_0000_0000_0000_0000) by (nonlinear_arith)
            requires
                0 < nn <= 3 * b * b,
                -(27 * b * b) <= dn <= 27 * b * b,
                in_bounds(*q, 8 * b),
                in_bounds(plane.normal, b),
                b == 262144;
    }
    let xn: i128 = (q.x as i128) * nn - dn * (plane.normal.x as i128);
    let yn: i128 = (q.y as i128) * nn - dn * (plane.normal.y as i128);
    let zn: i128 = (q.z as i128) * nn - dn * (plane.normal.z as i128);
    let x: i128 = crate::num::floor_div(xn, nn);
    let y: i128 = crate::num::floor_div(yn, nn);
    let z: i128 = crate::num::floor_div(zn, nn);
    proof {
        crate::num::lemma_fdiv_bounds(q.x - 16 * b, q.x + 16 * b, xn as int, nn as int);
        crate::num::lemma_fdiv_bounds(q.y - 16 * b, q.y + 16 * b, yn as int, nn as int);
        crate::num::lemma_fdiv_bounds(q.z - 16 * b, q.z + 16 * b, zn as int, nn as int);
    }
    (dn, Vec3 { x: x as i64, y: y as i64, z: z as i64 })
}

/// `p` lies inside the triangle, tested in the triangle's dominant-axis 2D
/// projection.
pub open spec fn srobust_in_tri(p: Vec3, tri: Triangle) -> bool {
    spoint_in_triangle(
        project2(tri.normal, p),
        project2(tri.normal, tri.a),
        project2(tri.normal, tri.b),
        project2(tri.normal, tri.c),
    )
}

/// Containment of a 3D point in a triangle via the dominant-axis 2D
/// projection, exact per `srobust_in_tri`.
pub fn robust_point_in_triangle(p: &Vec3, tri: &Triangle) -> (r: bool)
    requires
        in_bounds(*p, 32 * MAX_COORD as int),
        in_bounds(tri.a, MAX_COORD as int),
        in_bounds(tri.b, MAX_COORD as int),
        in_bounds(tri.c, MAX_COORD as int),
    ensures
        r == srobust_in_tri(*p, *tri),
{
    let (t2, a2, b2, c2): (Vec2, Vec2, Vec2, Vec2) = if tri.normal.z > 0 {
        (
            Vec2 { x: p.x, y: p.y },
            Vec2 { x: tri.a.x, y: tri.a.y },
            Vec2 { x: tri.b.x, y: tri.b.y },
            Vec2 { x: tri.c.x, y: tri.c.y },
        )
    } else {
        (
            Vec2 { x: p.x, y: p.z },
            Vec2 { x: tri.a.x, y: tri.a.z },
            Vec2 { x: tri.b.x, y: tri.b.z },
            Vec2 { x: tri.c.x, y: tri.c.z },
        )
    };
    crate::intersect::point_in_triangle(&t2, &a2, &b2, &c2)
}

proof fn lemma_dist_sq_shift_coord(q: int, p0: int, p1: int) by (nonlinear_arith)
    ensures
        (q - p1) * (q - p1) == (q - p0) * (q - p0) - 2 * ((q - p0) * (p1 - p0)) + (p1 - p0) * (p1
            - p0),
{
}

/// The closest-point-on-triangle distance never exceeds the distance to a
/// vertex, stated for the exact projection onto an edge's line: before
/// clamping and grid rounding, the squared distance from `q` to its
/// projection, which is `(|q - p0|^2 * dd - num^2) / dd` over the edge's
/// squared length `dd`, is at most the squared distance to either endpoint.
/// The clamped cases return an endpoint outright, so with this every exact
/// edge candidate obeys the vertex bound.
pub proof fn lemma_segment_projection_beats_endpoints(q: Vec3, p0: Vec3, p1: Vec3)
    requires
        seg_dd(p0, p1) > 0,
    ensures
        ({
            let dd = seg_dd(p0, p1);
            let num = seg_qnum(q, p0, p1);
            &&& sdist_sq(q, p0) * dd - num * num <= sdist_sq(q, p0) * dd
            &&& sdist_sq(q, p0) * dd - num * num <= sdist_sq(q, p1) * dd
        }),
{
    let dd = seg_dd(p0, p1);
    let num = seg_qnum(q, p0, p1);
    let qq = sdist_sq(q, p0);
    let q1 = sdist_sq(q, p1);
    crate::vec3::lemma_square_nonneg(num);
    lemma_dist_sq_shift_coord(q.x as int, p0.x as int, p1.x as int);
    lemma_dist_sq_shift_coord(q.y as int, p0.y as int, p1.y as int);
    lemma_dist_sq_shift_coord(q.z as int, p0.z as int, p1.z as int);
    assert((p0.x - p1.x) * (p0.x - p1.x) == (p1.x - p0.x) * (p1.x - p0.x) && (p0.y - p1.y) * (p0.y
        - p1.y) == (p1.y - p0.y) * (p1.y - p0.y) && (p0.z - p1.z) * (p0.z - p1.z) == (p1.z
        - p0.z) * (p1.z - p0.z)) by (nonlinear_arith);
    assert(q1 == qq - 2 * num + dd);
    crate::vec3::lemma_square_nonneg(num - dd);
    // qq * dd - num^2 <= (qq - 2 num + dd) * dd  <=>  0 <= (num - dd)^2
    assert(qq * dd - num * num <= (qq - 2 * num + dd) * dd) by (nonlinear_arith)
        requires
            (num - dd) * (num - dd) >= 0;
}

/// The perpendicular distance from `q` to a plane is the least distance to
/// any point of the plane: for every `w` on the plane, the scaled squared
/// perpendicular distance `(normal . (q - a))^2` is at most
/// `|normal|^2 * |q - w|^2`.  With a triangle's vertices as `w`, this is
/// the vertex bound for the face case of the closest-point query.
pub proof fn lemma_perpendicular_distance_minimal(q: Vec3, plane: Plane, w: Vec3)
    requires
        sdot_sub(plane.normal, w, plane.point) == 0,
    ensures
        sdot_sub(plane.normal, q, plane.point) * sdot_sub(plane.normal, q, plane.point)
            <= snorm_sq(plane.normal) * sdist_sq(q, w),
{
    let n = plane.normal;
    let a = plane.point;
    let dn = sdot_sub(n, q, a);
    assert(dn == n.x * (q.x - w.x) + n.y * (q.y - w.y) + n.z * (q.z - w.z)) by (nonlinear_arith)
        requires
            dn == n.x * (q.x - a.x) + n.y * (q.y - a.y) + n.z * (q.z - a.z),
            n.x * (w.x - a.x) + n.y * (w.y - a.y) + n.z * (w.z - a.z) == 0;
    lemma_cauchy_schwarz(
        n.x as int,
        n.y as int,
        n.z as int,
        q.x - w.x,
        q.y - w.y,
        q.z - w.z,
    );
}

/// The rounding chain shared by the vertex-bound proofs: a grid point whose
/// scaled residuals `X_i` are within `den * den * Q` in square sum, each
/// moved by a floor-division remainder under `den`, stays within a
/// four-step slack of the square root of `Q`.
proof fn lemma_rounding_chain(
    x1: int, x2: int, x3: int, d1: int, d2: int, d3: int, den: int, qq: int, s: int, dist: int,
)
    requires
        den > 0,
        s >= 0,
        0 <= qq <= (s + 1) * (s + 1) - 1,
        x1 * x1 + x2 * x2 + x3 * x3 <= (den * den) * qq,
        0 <= d1 < den,
        0 <= d2 < den,
        0 <= d3 < den,
        (den * den) * dist == (x1 + d1) * (x1 + d1) + (x2 + d2) * (x2 + d2) + (x3 + d3) * (x3
            + d3),
    ensures
        dist <= (s + 4) * (s + 4),
{
    let bb = den * (s + 1);
    crate::vec3::lemma_square_nonneg(x1);
    crate::vec3::lemma_square_nonneg(x2);
    crate::vec3::lemma_square_nonneg(x3);
    assert(x1 * x1 <= bb * bb && x2 * x2 <= bb * bb && x3 * x3 <= bb * bb) by (nonlinear_arith)
        requires
            x1 * x1 + x2 * x2 + x3 * x3 <= (den * den) * qq,
            x1 * x1 >= 0 && x2 * x2 >= 0 && x3 * x3 >= 0,
            qq <= (s + 1) * (s + 1) - 1,
            bb == den * (s + 1),
            den > 0,
            s >= 0;
    lemma_abs_from_square(x1, bb);
    lemma_abs_from_square(x2, bb);
    lemma_abs_from_square(x3, bb);
    assert((x1 + d1) * (x1 + d1) <= x1 * x1 + 2 * (bb * den) + den * den) by (nonlinear_arith)
        requires
            -bb <= x1 <= bb,
            0 <= d1 < den,
            bb >= 0;
    assert((x2 + d2) * (x2 + d2) <= x2 * x2 + 2 * (bb * den) + den * den) by (nonlinear_arith)
        requires
            -bb <= x2 <= bb,
            0 <= d2 < den,
            bb >= 0;
    assert((x3 + d3) * (x3 + d3) <= x3 * x3 + 2 * (bb * den) + den * den) by (nonlinear_arith)
        requires
            -bb <= x3 <= bb,
            0 <= d3 < den,
            bb >= 0;
    assert((den * den) * dist <= (den * den) * ((s + 4) * (s + 4))) by (nonlinear_arith)
        requires
            (den * den) * dist <= (den * den) * qq + 6 * (bb * den) + 3 * (den * den),
            qq <= (s + 1) * (s + 1) - 1,
            bb == den * (s + 1),
            den > 0,
            s >= 0;
    assert(dist <= (s + 4) * (s + 4)) by (nonlinear_arith)
        requires
            (den * den) * dist <= (den * den) * ((s + 4) * (s + 4)),
            den > 0;
}

proof fn lemma_abs_from_square(x: int, b: int)
    requires
        x * x <= b * b,
        b >= 0,
    ensures
        -b <= x <= b,
{
    assert(-b <= x <= b) by (nonlinear_arith)
        requires
            x * x <= b * b,
            b >= 0;
}

proof fn lemma_seg_residual_coord(q: int, p0: int, p1: int, dd: int, num: int, nn: int)
    requires
        nn == p0 * dd + num * (p1 - p0),
    ensures
        (dd * q - nn) * (dd * q - nn) == (dd * dd) * ((q - p0) * (q - p0)) - 2 * ((dd * num) * ((q
            - p0) * (p1 - p0))) + (num * num) * ((p1 - p0) * (p1 - p0)),
{
    let u = q - p0;
    let w = p1 - p0;
    let x = dd * q - nn;
    let a = dd * u;
    let bq = num * w;
    assert(x == a - bq) by (nonlinear_arith)
        requires
            x == dd * q - (p0 * dd + num * (p1 - p0)),
            a == dd * (q - p0),
            bq == num * (p1 - p0);
    assert(x * x == a * a - 2 * (a * bq) + bq * bq) by (nonlinear_arith)
        requires
            x == a - bq;
    assert(a * a == (dd * dd) * (u * u)) by (nonlinear_arith)
        requires
            a == dd * u;
    assert(a * bq == (dd * num) * (u * w)) by (nonlinear_arith)
        requires
            a == dd * u,
            bq == num * w;
    assert(bq * bq == (num * num) * (w * w)) by (nonlinear_arith)
        requires
            bq == num * w;
}

proof fn lemma_distribute3(a: int, t1: int, t2: int, t3: int) by (nonlinear_arith)
    ensures
        a * (t1 + t2 + t3) == a * t1 + a * t2 + a * t3,
{
}

/// The closest point a segment offers, after clamping and grid rounding, is
/// never farther from `q` than either endpoint by more than four grid
/// steps: `|q - cps| ^ 2 <= (floor |q - end| + 4) ^ 2` for both endpoints.
pub proof fn lemma_cps_beats_endpoints(q: Vec3, p0: Vec3, p1: Vec3)
    requires
        in_bounds(q, 32 * MAX_COORD as int),
        in_bounds(p0, MAX_COORD as int),
        in_bounds(p1, MAX_COORD as int),
    ensures
        ({
            let sa = crate::num::sqrt_floor(sdist_sq(q, p0));
            let sb = crate::num::sqrt_floor(sdist_sq(q, p1));
            &&& sdist_sq(q, cps_point(q, p0, p1)) <= (sa + 4) * (sa + 4)
            &&& sdist_sq(q, cps_point(q, p0, p1)) <= (sb + 4) * (sb + 4)
        }),
{
    let dd = seg_dd(p0, p1);
    let num = seg_qnum(q, p0, p1);
    let qq = sdist_sq(q, p0);
    let q1 = sdist_sq(q, p1);
    let sa = crate::num::sqrt_floor(qq);
    let sb = crate::num::sqrt_floor(q1);
    crate::vec3::lemma_square_nonneg(q.x - p0.x);
    crate::vec3::lemma_square_nonneg(q.y - p0.y);
    crate::vec3::lemma_square_nonneg(q.z - p0.z);
    crate::vec3::lemma_square_nonneg(p0.x - p1.x);
    crate::vec3::lemma_square_nonneg(p0.y - p1.y);
    crate::vec3::lemma_square_nonneg(p0.z - p1.z);
    crate::vec3::lemma_square_nonneg(q.x - p1.x);
    crate::vec3::lemma_square_nonneg(q.y - p1.y);
    crate::vec3::lemma_square_nonneg(q.z - p1.z);
    crate::num::lemma_sqrt_floor_bounds(qq);
    crate::num::lemma_sqrt_floor_bounds(q1);
    lemma_dist_sq_shift_coord(q.x as int, p0.x as int, p1.x as int);
    lemma_dist_sq_shift_coord(q.y as int, p0.y as int, p1.y as int);
    lemma_dist_sq_shift_coord(q.z as int, p0.z as int, p1.z as int);
    assert((p0.x - p1.x) * (p0.x - p1.x) == (p1.x - p0.x) * (p1.x - p0.x) && (p0.y - p1.y) * (p0.y
        - p1.y) == (p1.y - p0.y) * (p1.y - p0.y) && (p0.z - p1.z) * (p0.z - p1.z) == (p1.z
        - p0.z) * (p1.z - p0.z)) by (nonlinear_arith);
    assert(q1 == qq - 2 * num + dd);
    let c = cps_point(q, p0, p1);
    if num <= 0 || dd == 0 {
        // the candidate is the first endpoint itself
        assert(c == p0);
        if dd == 0 {
            assert(p0 == p1) by {
                crate::vec3::lemma_square_nonneg(p0.x - p1.x);
                crate::vec3::lemma_square_nonneg(p0.y - p1.y);
                crate::vec3::lemma_square_nonneg(p0.z - p1.z);
            }
        } else {
            assert(qq <= q1);
        }
        assert(qq <= (sa + 4) * (sa + 4) && qq <= (sb + 4) * (sb + 4)) by (nonlinear_arith)
            requires
                qq < (sa + 1) * (sa + 1),
                qq <= q1 < (sb + 1) * (sb + 1),
                sa >= 0,
                sb >= 0;
    } else if num >= dd {
        // the candidate is the second endpoint; the projection lies beyond
        // it, so the second endpoint is the nearer of the two
        assert(c == p1);
        assert(q1 <= qq);
        assert(q1 <= (sa + 4) * (sa + 4) && q1 <= (sb + 4) * (sb + 4)) by (nonlinear_arith)
            requires
                q1 <= qq < (sa + 1) * (sa + 1),
                q1 < (sb + 1) * (sb + 1),
                sa >= 0,
                sb >= 0;
    } else {
        // interior projection, rounded to the grid
        let nx = p0.x * dd + num * (p1.x - p0.x);
        let ny = p0.y * dd + num * (p1.y - p0.y);
        let nz = p0.z * dd + num * (p1.z - p0.z);
        let xx = dd * q.x - nx;
        let xy = dd * q.y - ny;
        let xz = dd * q.z - nz;
        lemma_seg_residual_coord(q.x as int, p0.x as int, p1.x as int, dd, num, nx);
        lemma_seg_residual_coord(q.y as int, p0.y as int, p1.y as int, dd, num, ny);
        lemma_seg_residual_coord(q.z as int, p0.z as int, p1.z as int, dd, num, nz);
        lemma_distribute3(
            dd * dd,
            (q.x - p0.x) * (q.x - p0.x),
            (q.y - p0.y) * (q.y - p0.y),
            (q.z - p0.z) * (q.z - p0.z),
        );
        lemma_distribute3(
            dd * num,
            (q.x - p0.x) * (p1.x - p0.x),
            (q.y - p0.y) * (p1.y - p0.y),
            (q.z - p0.z) * (p1.z - p0.z),
        );
        lemma_distribute3(
            num * num,
            (p1.x - p0.x) * (p1.x - p0.x),
            (p1.y - p0.y) * (p1.y - p0.y),
            (p1.z - p0.z) * (p1.z - p0.z),
        );
        assert((p1.x - p0.x) * (p1.x - p0.x) + (p1.y - p0.y) * (p1.y - p0.y) + (p1.z - p0.z) * (
        p1.z - p0.z) == dd);
        assert(xx * xx + xy * xy + xz * xz == (dd * dd) * qq - 2 * ((dd * num) * num) + (num
            * num) * dd);
        let sx2 = xx * xx + xy * xy + xz * xz;
        assert(sx2 == dd * (qq * dd - num * num)) by (nonlinear_arith)
            requires
                sx2 == (dd * dd) * qq - 2 * ((dd * num) * num) + (num * num) * dd;
        lemma_segment_projection_beats_endpoints(q, p0, p1);
        crate::vec3::lemma_square_nonneg(num);
        assert(sx2 <= (dd * dd) * qq && sx2 <= (dd * dd) * q1) by (nonlinear_arith)
            requires
                sx2 == dd * (qq * dd - num * num),
                qq * dd - num * num <= qq * dd,
                qq * dd - num * num <= q1 * dd,
                dd > 0;
        // the grid coordinates and their floor remainders
        vstd::arithmetic::div_mod::lemma_fundamental_div_mod(nx, dd);
        vstd::arithmetic::div_mod::lemma_mod_bound(nx, dd);
        vstd::arithmetic::div_mod::lemma_fundamental_div_mod(ny, dd);
        vstd::arithmetic::div_mod::lemma_mod_bound(ny, dd);
        vstd::arithmetic::div_mod::lemma_fundamental_div_mod(nz, dd);
        vstd::arithmetic::div_mod::lemma_mod_bound(nz, dd);
        crate::intersect::lemma_interp_num_bounds(p0.x as int, p1.x as int, num, dd);
        crate::intersect::lemma_interp_num_bounds(p0.y as int, p1.y as int, num, dd);
        crate::intersect::lemma_interp_num_bounds(p0.z as int, p1.z as int, num, dd);
        if p0.x <= p1.x {
            crate::num::lemma_fdiv_bounds(p0.x as int, p1.x as int, nx, dd);
        } else {
            crate::num::lemma_fdiv_bounds(p1.x as int, p0.x as int, nx, dd);
        }
        if p0.y <= p1.y {
            crate::num::lemma_fdiv_bounds(p0.y as int, p1.y as int, ny, dd);
        } else {
            crate::num::lemma_fdiv_bounds(p1.y as int, p0.y as int, ny, dd);
        }
        if p0.z <= p1.z {
            crate::num::lemma_fdiv_bounds(p0.z as int, p1.z as int, nz, dd);
        } else {
            crate::num::lemma_fdiv_bounds(p1.z as int, p0.z as int, nz, dd);
        }
        assert(c.x == nx / dd && c.y == ny / dd && c.z == nz / dd);
        let ex = nx - dd * c.x;
        let ey = ny - dd * c.y;
        let ez = nz - dd * c.z;
        assert(0 <= ex < dd && 0 <= ey < dd && 0 <= ez < dd);
        let dist = sdist_sq(q, c);
        assert((dd * (q.x - c.x)) * (dd * (q.x - c.x)) == (dd * dd) * ((q.x - c.x) * (q.x - c.x))
            && (dd * (q.y - c.y)) * (dd * (q.y - c.y)) == (dd * dd) * ((q.y - c.y) * (q.y - c.y))
            && (dd * (q.z - c.z)) * (dd * (q.z - c.z)) == (dd * dd) * ((q.z - c.z) * (q.z
            - c.z))) by (nonlinear_arith);
        assert(dd * (q.x - c.x) == xx + ex && dd * (q.y - c.y) == xy + ey && dd * (q.z - c.z)
            == xz + ez) by (nonlinear_arith)
            requires
                xx == dd * q.x - nx && ex == nx - dd * c.x,
                xy == dd * q.y - ny && ey == ny - dd * c.y,
                xz == dd * q.z - nz && ez == nz - dd * c.z;
        assert((dd * dd) * dist == (xx + ex) * (xx + ex) + (xy + ey) * (xy + ey) + (xz + ez) * (xz
            + ez)) by (nonlinear_arith)
            requires
                dist == (q.x - c.x) * (q.x - c.x) + (q.y - c.y) * (q.y - c.y) + (q.z - c.z) * (q.z
                    - c.z),
                (dd * (q.x - c.x)) * (dd * (q.x - c.x)) == (dd * dd) * ((q.x - c.x) * (q.x
                    - c.x)),
                (dd * (q.y - c.y)) * (dd * (q.y - c.y)) == (dd * dd) * ((q.y - c.y) * (q.y
                    - c.y)),
                (dd * (q.z - c.z)) * (dd * (q.z - c.z)) == (dd * dd) * ((q.z - c.z) * (q.z
                    - c.z)),
                dd * (q.x - c.x) == xx + ex,
                dd * (q.y - c.y) == xy + ey,
                dd * (q.z - c.z) == xz + ez;
        assert(qq <= (sa + 1) * (sa + 1) - 1 && q1 <= (sb + 1) * (sb + 1) - 1);
        lemma_rounding_chain(xx, xy, xz, ex, ey, ez, dd, qq, sa, dist);
        lemma_rounding_chain(xx, xy, xz, ex, ey, ez, dd, q1, sb, dist);
    }
}

/// The rounded plane projection of `q` is never farther from `q` than any
/// point `w` of the plane by more than four grid steps.
proof fn lemma_pp_dist_bound(q: Vec3, plane: Plane, w: Vec3)
    requires
        in_bounds(q, 8 * MAX_COORD as int),
        in_bounds(plane.point, MAX_COORD as int),
        in_bounds(plane.normal, MAX_COORD as int),
        snorm_sq(plane.normal) > 0,
        sdot_sub(plane.normal, w, plane.point) == 0,
    ensures
        ({
            let s = crate::num::sqrt_floor(sdist_sq(q, w));
            sdist_sq(q, pp_point(q, plane)) <= (s + 4) * (s + 4)
        }),
{
    let b = MAX_COORD as int;
    let n = plane.normal;
    let nn = snorm_sq(n);
    let dn = sdot_sub(n, q, plane.point);
    let qw = sdist_sq(q, w);
    crate::vec3::lemma_square_nonneg(q.x - w.x);
    crate::vec3::lemma_square_nonneg(q.y - w.y);
    crate::vec3::lemma_square_nonneg(q.z - w.z);
    crate::num::lemma_sqrt_floor_bounds(qw);
    let s = crate::num::sqrt_floor(qw);
    let nx = pp_xnum(q, plane);
    let ny = pp_ynum(q, plane);
    let nz = pp_znum(q, plane);
    let xx = nn * q.x - nx;
    let xy = nn * q.y - ny;
    let xz = nn * q.z - nz;
    assert(xx == dn * n.x && xy == dn * n.y && xz == dn * n.z);
    assert(xx * xx == (dn * dn) * (n.x * n.x) && xy * xy == (dn * dn) * (n.y * n.y) && xz * xz
        == (dn * dn) * (n.z * n.z)) by (nonlinear_arith)
        requires
            xx == dn * n.x,
            xy == dn * n.y,
            xz == dn * n.z;
    lemma_distribute3(dn * dn, n.x * n.x, n.y * n.y, n.z * n.z);
    assert(xx * xx + xy * xy + xz * xz == (dn * dn) * nn);
    lemma_perpendicular_distance_minimal(q, plane, w);
    assert((dn * dn) * nn <= (nn * nn) * qw) by (nonlinear_arith)
        requires
            dn * dn <= nn * qw,
            nn > 0,
            qw >= 0;
    // the grid coordinates and their floor remainders
    vstd::arithmetic::div_mod::lemma_fundamental_div_mod(nx, nn);
    vstd::arithmetic::div_mod::lemma_mod_bound(nx, nn);
    vstd::arithmetic::div_mod::lemma_fundamental_div_mod(ny, nn);
    vstd::arithmetic::div_mod::lemma_mod_bound(ny, nn);
    vstd::arithmetic::div_mod::lemma_fundamental_div_mod(nz, nn);
    vstd::arithmetic::div_mod::lemma_mod_bound(nz, nn);
    lemma_pp_num_bounds(q, plane, b);
    crate::num::lemma_fdiv_bounds(q.x - 16 * b, q.x + 16 * b, nx, nn);
    crate::num::lemma_fdiv_bounds(q.y - 16 * b, q.y + 16 * b, ny, nn);
    crate::num::lemma_fdiv_bounds(q.z - 16 * b, q.z + 16 * b, nz, nn);
    let c = pp_point(q, plane);
    assert(c.x == nx / nn && c.y == ny / nn && c.z == nz / nn);
    let ex = nx - nn * c.x;
    let ey = ny - nn * c.y;
    let ez = nz - nn * c.z;
    assert(0 <= ex < nn && 0 <= ey < nn && 0 <= ez < nn);
    let dist = sdist_sq(q, c);
    assert((nn * (q.x - c.x)) * (nn * (q.x - c.x)) == (nn * nn) * ((q.x - c.x) * (q.x - c.x))
        && (nn * (q.y - c.y)) * (nn * (q.y - c.y)) == (nn * nn) * ((q.y - c.y) * (q.y - c.y))
        && (nn * (q.z - c.z)) * (nn * (q.z - c.z)) == (nn * nn) * ((q.z - c.z) * (q.z - c.z)))
        by (nonlinear_arith);
    assert(nn * (q.x - c.x) == xx + ex && nn * (q.y - c.y) == xy + ey && nn * (q.z - c.z) == xz
        + ez) by (nonlinear_arith)
        requires
            xx == nn * q.x - nx && ex == nx - nn * c.x,
            xy == nn * q.y - ny && ey == ny - nn * c.y,
            xz == nn * q.z - nz && ez == nz - nn * c.z;
    assert((nn * nn) * dist == (xx + ex) * (xx + ex) + (xy + ey) * (xy + ey) + (xz + ez) * (xz
        + ez)) by (nonlinear_arith)
        requires
            dist == (q.x - c.x) * (q.x - c.x) + (q.y - c.y) * (q.y - c.y) + (q.z - c.z) * (q.z
                - c.z),
            (nn * (q.x - c.x)) * (nn * (q.x - c.x)) == (nn * nn) * ((q.x - c.x) * (q.x - c.x)),
            (nn * (q.y - c.y)) * (nn * (q.y - c.y)) == (nn * nn) * ((q.y - c.y) * (q.y - c.y)),
            (nn * (q.z - c.z)) * (nn * (q.z - c.z)) == (nn * nn) * ((q.z - c.z) * (q.z - c.z)),
            nn * (q.x - c.x) == xx + ex,
            nn * (q.y - c.y) == xy + ey,
            nn * (q.z - c.z) == xz + ez;
    assert(qw <= (s + 1) * (s + 1) - 1);
    lemma_rounding_chain(xx, xy, xz, ex, ey, ez, nn, qw, s, dist);
}

/// The closest-point query never returns a distance beyond the distance to
/// any single vertex of the triangle, up to a grid-rounding slack of four
/// steps: `copt` squared distance stays within `(floor |q - v| + 4) ^ 2`
/// for each vertex `v`.  The face case needs the stored normal to really be
/// the face's normal (perpendicular to both edges); on a mesh whose normals
/// disagree with their triangles the face distance measures the stored
/// plane instead and no vertex bound can hold.
pub proof fn lemma_closest_point_never_beyond_vertex(q: Vec3, tri: Triangle)
    requires
        in_bounds(q, MAX_COORD as int),
        in_bounds(tri.a, MAX_COORD as int),
        in_bounds(tri.b, MAX_COORD as int),
        in_bounds(tri.c, MAX_COORD as int),
        in_bounds(tri.normal, MAX_COORD as int),
        snorm_sq(tri.normal) > 0,
        sdot_sub(tri.normal, tri.b, tri.a) == 0,
        sdot_sub(tri.normal, tri.c, tri.a) == 0,
    ensures
        ({
            let sa = crate::num::sqrt_floor(sdist_sq(q, tri.a));
            let sb = crate::num::sqrt_floor(sdist_sq(q, tri.b));
            let sc = crate::num::sqrt_floor(sdist_sq(q, tri.c));
            &&& copt(q, tri).0 <= (sa + 4) * (sa + 4)
            &&& copt(q, tri).0 <= (sb + 4) * (sb + 4)
            &&& copt(q, tri).0 <= (sc + 4) * (sc + 4)
        }),
{
    let pl = tri_plane_spec(tri);
    if copt_face(q, tri) {
        lemma_pp_dist_bound(q, pl, tri.a);
        lemma_pp_dist_bound(q, pl, tri.b);
        lemma_pp_dist_bound(q, pl, tri.c);
    } else {
        lemma_cps_beats_endpoints(q, tri.a, tri.b);
        lemma_cps_beats_endpoints(q, tri.b, tri.c);
        lemma_cps_beats_endpoints(q, tri.c, tri.a);
    }
}

/// The perpendicular projection of `q` lands inside the triangle: the face
/// of the triangle, not an edge, is the nearest feature.
pub open spec fn copt_face(q: Vec3, tri: Triangle) -> bool {
    srobust_in_tri(pp_point(q, tri_plane_spec(tri)), tri)
}

/// Closest point of the triangle to `q` and its exact squared distance, on
/// the rounded grid: the plane projection when it falls inside the triangle,
/// otherwise the nearest of the three per-edge closest points (the first of
/// equally near candidates wins).
pub open spec fn copt(q: Vec3, tri: Triangle) -> (int, Vec3) {
    if copt_face(q, tri) {
        let p = pp_point(q, tri_plane_spec(tri));
        (sdist_sq(q, p), p)
    } else {
        let c1 = cps_point(q, tri.a, tri.b);
        let c2 = cps_point(q, tri.b, tri.c);
        let c3 = cps_point(q, tri.c, tri.a);
        let d1 = sdist_sq(q, c1);
        let d2 = sdist_sq(q, c2);
        let d3 = sdist_sq(q, c3);
        if d1 <= d2 && d1 <= d3 {
            (d1, c1)
        } else if d2 <= d3 {
            (d2, c2)
        } else {
            (d3, c3)
        }
    }
}

/// Closest point on a triangle: project onto the plane and keep that point
/// when it falls inside the footprint, else clamp to the nearest of the
/// three edges.  Returns the exact squared distance to the returned point.
pub fn closest_point_on_triangle(q: &Vec3, tri: &Triangle) -> (r: (i128, Vec3))
    requires
        in_bounds(*q, MAX_COORD as int),
        in_bounds(tri.a, MAX_COORD as int),
        in_bounds(tri.b, MAX_COORD as int),
        in_bounds(tri.c, MAX_COORD as int),
        in_bounds(tri.normal, MAX_COORD as int),
        snorm_sq(tri.normal) > 0,
    ensures
        (r.0 as int, r.1) == copt(*q, *tri),
        r.0 == sdist_sq(*q, r.1),
        in_bounds(r.1, 32 * MAX_COORD as int),
{
    let plane = Plane { point: tri.a, normal: tri.normal };
    let (_dn, proj): (i128, Vec3) = projected_point_on_plane(q, &plane);
    if robust_point_in_triangle(&proj, tri) {
        let d: i128 = crate::vec3::dist_sq(q, &proj);
        (d, proj)
    } else {
        let c1: Vec3 = closest_point_on_line_segment(q, &tri.a, &tri.b);
        let c2: Vec3 = closest_point_on_line_segment(q, &tri.b, &tri.c);
        let c3: Vec3 = closest_point_on_line_segment(q, &tri.c, &tri.a);
        let d1: i128 = crate::vec3::dist_sq(q, &c1);
        let d2: i128 = crate::vec3::dist_sq(q, &c2);
        let d3: i128 = crate::vec3::dist_sq(q, &c3);
        if d1 <= d2 && d1 <= d3 {
            (d1, c1)
        } else if d2 <= d3 {
            (d2, c2)
        } else {
            (d3, c3)
        }
    }
}

} // verus!
