//! Segment/plane and point/triangle intersection primitives.
//!
//! The intersection parameter `t` of a segment against a plane is the exact
//! rational `num / den` of two integer dot products; the code normalizes the
//! pair so the denominator is positive, compares exactly by
//! cross-multiplication, and rounds interpolated points to the integer grid
//! with floor division.  Each contract names those exact quantities.

use vstd::prelude::*;
use crate::vec3::{Vec3, Vec2, in_bounds, sdot_sub, MAX_COORD};
use crate::shapes::{LineSegment, Plane, PlaneBoundaries, AABB};
use crate::num::{fdiv, floor_div};

verus! {

/// Denominator of the intersection parameter: `normal . (p1 - p0)`.
/// Zero means the segment is parallel to the plane (reported as no hit).
pub open spec fn shp_den(plane: Plane, seg: LineSegment) -> int {
    sdot_sub(plane.normal, seg.p1, seg.p0)
}

/// Numerator of the intersection parameter: `normal . (point - p0)`.
pub open spec fn shp_num(plane: Plane, seg: LineSegment) -> int {
    sdot_sub(plane.normal, plane.point, seg.p0)
}

/// Denominator normalized to be positive (zero when parallel).
pub open spec fn shp_pden(plane: Plane, seg: LineSegment) -> int {
    if shp_den(plane, seg) >= 0 { shp_den(plane, seg) } else { -shp_den(plane, seg) }
}

/// Numerator normalized together with `shp_pden`.
pub open spec fn shp_pnum(plane: Plane, seg: LineSegment) -> int {
    if shp_den(plane, seg) >= 0 { shp_num(plane, seg) } else { -shp_num(plane, seg) }
}

/// The segment strikes the plane: the denominator is non-zero (parallel
/// segments never hit, an exact test with no tolerance) and the parameter
/// satisfies `0 < t <= 1`, so a start point already resting on the plane is
/// not a fresh collision.
pub open spec fn shp_hits(plane: Plane, seg: LineSegment) -> bool {
    shp_pden(plane, seg) != 0 && 0 < shp_pnum(plane, seg) <= shp_pden(plane, seg)
}

/// Exact numerator of the intersection point's X over denominator
/// `shp_pden`: `p0.x * den + num * (p1.x - p0.x)`.
pub open spec fn shp_xnum(plane: Plane, seg: LineSegment) -> int {
    seg.p0.x * shp_pden(plane, seg) + shp_pnum(plane, seg) * (seg.p1.x - seg.p0.x)
}

/// Exact numerator of the intersection point's Y over `shp_pden`.
pub open spec fn shp_ynum(plane: Plane, seg: LineSegment) -> int {
    seg.p0.y * shp_pden(plane, seg) + shp_pnum(plane, seg) * (seg.p1.y - seg.p0.y)
}

/// Exact numerator of the intersection point's Z over `shp_pden`.
pub open spec fn shp_znum(plane: Plane, seg: LineSegment) -> int {
    seg.p0.z * shp_pden(plane, seg) + shp_pnum(plane, seg) * (seg.p1.z - seg.p0.z)
}

/// The returned intersection point: the exact rational point rounded to the
/// grid by floor division.
pub open spec fn shp_point(plane: Plane, seg: LineSegment) -> Vec3 {
    Vec3 {
        x: fdiv(shp_xnum(plane, seg), shp_pden(plane, seg)) as i64,
        y: fdiv(shp_ynum(plane, seg), shp_pden(plane, seg)) as i64,
        z: fdiv(shp_znum(plane, seg), shp_pden(plane, seg)) as i64,
    }
}

/// Inputs acceptable to the segment/plane routines.
pub open spec fn shp_args_ok(plane: Plane, seg: LineSegment) -> bool {
    &&& in_bounds(plane.point, MAX_COORD as int)
    &&& in_bounds(plane.normal, MAX_COORD as int)
    &&& in_bounds(seg.p0, MAX_COORD as int)
    &&& in_bounds(seg.p1, MAX_COORD as int)
}

pub proof fn lemma_interp_num_bounds(p0: int, p1: int, num: int, den: int) by (nonlinear_arith)
    requires
        0 < num <= den,
    ensures
        p0 <= p1 ==> p0 * den <= p0 * den + num * (p1 - p0) <= p1 * den,
        p1 <= p0 ==> p1 * den <= p0 * den + num * (p1 - p0) <= p0 * den,
{
}

/// One rounded coordinate of the interpolated intersection point.  The
/// result always lies between the corresponding endpoint coordinates.
pub(crate) fn interp_coord(p0: i64, p1: i64, num: i128, den: i128) -> (r: i64)
    requires
        0 < num <= den,
        den <= 0x80_0000_0000_0000_0000_0000,
        -MAX_COORD <= p0 <= MAX_COORD,
        -MAX_COORD <= p1 <= MAX_COORD,
    ensures
        r == fdiv(p0 * den + num * (p1 - p0), den as int),
        -MAX_COORD <= r <= MAX_COORD,
{
    proof {
        let b = MAX_COORD as int;
        crate::vec3::lemma_square_nonneg(den as int);
        assert(-(b * den) <= p0 * den <= b * den && -(2 * b * den) <= num * (p1 - p0) <= 2 * b * den
            && -0x4_0000_0000_0000_0000_0000_0000_0000 <= p0 * den <= 0x4_0000_0000_0000_0000_0000_0000_0000
            && -0x4_0000_0000_0000_0000_0000_0000_0000 <= num * (p1 - p0) <= 0x4_0000_0000_0000_0000_0000_0000_0000)
            by (nonlinear_arith)
            requires
                -b <= p0 <= b,
                -b <= p1 <= b,
                0 < num <= den,
                den <= 0x80_0000_0000_0000_0000_0000,
                b == 262144;
        lemma_interp_num_bounds(p0 as int, p1 as int, num as int, den as int);
    }
    let n: i128 = (p0 as i128) * den + num * ((p1 as i128) - (p0 as i128));
    let q: i128 = floor_div(n, den);
    proof {
        if p0 <= p1 {
            crate::num::lemma_fdiv_bounds(p0 as int, p1 as int, n as int, den as int);
        } else {
            crate::num::lemma_fdiv_bounds(p1 as int, p0 as int, n as int, den as int);
        }
    }
    q as i64
}

/// Where (if anywhere) a segment strikes an infinite plane.
///
/// Returns `Some` exactly when `shp_hits` holds, i.e. the segment is not
/// parallel to the plane and the intersection parameter lies in `(0, 1]`;
/// the returned point is the exact rational intersection rounded down to the
/// integer grid, coordinatewise between the segment's endpoints.
pub fn segment_hit_plane(plane: &Plane, segment: &LineSegment) -> (r: Option<Vec3>)
    requires
        shp_args_ok(*plane, *segment),
    ensures
        r.is_some() <==> shp_hits(*plane, *segment),
        r.is_some() ==> r.unwrap() == shp_point(*plane, *segment),
        r.is_some() ==> in_bounds(r.unwrap(), MAX_COORD as int),
{
    let den: i128 = crate::vec3::dot_sub(&plane.normal, &segment.p1, &segment.p0);
    let num: i128 = crate::vec3::dot_sub(&plane.normal, &plane.point, &segment.p0);
    proof {
        crate::vec3::lemma_dot_sub_bound(plane.normal, segment.p1, segment.p0, MAX_COORD as int);
        crate::vec3::lemma_dot_sub_bound(plane.normal, plane.point, segment.p0, MAX_COORD as int);
    }
    let (pnum, pden): (i128, i128) = if den >= 0 { (num, den) } else { (-num, -den) };
    if pden == 0 {
        return None;
    }
    if !(0 < pnum && pnum <= pden) {
        return None;
    }
    let x: i64 = interp_coord(segment.p0.x, segment.p1.x, pnum, pden);
    let y: i64 = interp_coord(segment.p0.y, segment.p1.y, pnum, pden);
    let z: i64 = interp_coord(segment.p0.z, segment.p1.z, pnum, pden);
    Some(Vec3 { x, y, z })
}

/// Signed distance from a point to a plane, scaled by the normal's length:
/// exactly `normal . (point - plane.point)`.  Positive values lie on the
/// side the normal points to.
pub fn point_plane_distance(point: &Vec3, plane: &Plane) -> (r: i128)
    requires
        in_bounds(*point, crate::vec3::DOT_COORD as int),
        in_bounds(plane.point, crate::vec3::DOT_COORD as int),
        in_bounds(plane.normal, crate::vec3::DOT_COORD as int),
    ensures
        r == sdot_sub(plane.normal, *point, plane.point),
{
    crate::vec3::dot_sub(&plane.normal, point, &plane.point)
}

/// The edge orientation test of the 2D point-in-triangle check:
/// `(test.x - p1.x) * (p0.y - p1.y) - (p0.x - p1.x) * (test.y - p1.y)`.
pub open spec fn ssign(test: Vec2, p0: Vec2, p1: Vec2) -> int {
    (test.x - p1.x) * (p0.y - p1.y) - (p0.x - p1.x) * (test.y - p1.y)
}

/// A point is inside the triangle when the three edge tests do not produce
/// both a positive and a negative value; zeros (points on an edge or a
/// degenerate triangle) count as inside.
pub open spec fn spoint_in_triangle(test: Vec2, p0: Vec2, p1: Vec2, p2: Vec2) -> bool {
    let d1 = ssign(test, p0, p1);
    let d2 = ssign(test, p1, p2);
    let d3 = ssign(test, p2, p0);
    !((d1 < 0 || d2 < 0 || d3 < 0) && (d1 > 0 || d2 > 0 || d3 > 0))
}

/// Every coordinate of the 2D point lies in `[-b, b]`.
pub open spec fn in_bounds2(v: Vec2, b: int) -> bool {
    -b <= v.x <= b && -b <= v.y <= b
}

/// Exact edge orientation test.
pub fn sign(test: &Vec2, p0: &Vec2, p1: &Vec2) -> (r: i128)
    requires
        in_bounds2(*test, crate::vec3::DOT_COORD as int),
        in_bounds2(*p0, crate::vec3::DOT_COORD as int),
        in_bounds2(*p1, crate::vec3::DOT_COORD as int),
    ensures
        r == ssign(*test, *p0, *p1),
{
    proof {
        let db = crate::vec3::DOT_COORD as int;
        assert(-(4 * db * db) <= (test.x - p1.x) * (p0.y - p1.y) <= 4 * db * db
            && -(4 * db * db) <= (p0.x - p1.x) * (test.y - p1.y) <= 4 * db * db)
            by (nonlinear_arith)
            requires
                -2 * db <= test.x - p1.x <= 2 * db,
                -2 * db <= p0.y - p1.y <= 2 * db,
                -2 * db <= p0.x - p1.x <= 2 * db,
                -2 * db <= test.y - p1.y <= 2 * db,
                db > 0;
    }
    ((test.x as i128) - (p1.x as i128)) * ((p0.y as i128) - (p1.y as i128))
        - ((p0.x as i128) - (p1.x as i128)) * ((test.y as i128) - (p1.y as i128))
}

/// 2D point-in-triangle test by three edge sign tests, exact per
/// `spoint_in_triangle`.
pub fn point_in_triangle(test_point: &Vec2, p0: &Vec2, p1: &Vec2, p2: &Vec2) -> (r: bool)
    requires
        in_bounds2(*test_point, crate::vec3::DOT_COORD as int),
        in_bounds2(*p0, crate::vec3::DOT_COORD as int),
        in_bounds2(*p1, crate::vec3::DOT_COORD as int),
        in_bounds2(*p2, crate::vec3::DOT_COORD as int),
    ensures
        r == spoint_in_triangle(*test_point, *p0, *p1, *p2),
{
    let d1: i128 = sign(test_point, p0, p1);
    let d2: i128 = sign(test_point, p1, p2);
    let d3: i128 = sign(test_point, p2, p0);
    let has_neg: bool = d1 < 0 || d2 < 0 || d3 < 0;
    let has_pos: bool = d1 > 0 || d2 > 0 || d3 > 0;
    !(has_neg && has_pos)
}

/// The 2D containment test does not depend on which vertex the winding
/// starts at: rotating `(a, b, c)` to `(b, c, a)` tests the same three edges.
pub proof fn lemma_point_in_triangle_cyclic(t: Vec2, a: Vec2, b: Vec2, c: Vec2)
    ensures
        spoint_in_triangle(t, a, b, c) == spoint_in_triangle(t, b, c, a),
{
}

/// For any non-degenerate triangle the centroid lies inside it.  Stated on
/// the integer grid by scaling by three: the point `a + b + c` lies in the
/// triangle with vertices `3a`, `3b`, `3c`, which is the centroid statement
/// with every coordinate tripled.
pub proof fn lemma_centroid_in_triangle(a: Vec2, b: Vec2, c: Vec2)
    requires
        in_bounds2(a, MAX_COORD as int),
        in_bounds2(b, MAX_COORD as int),
        in_bounds2(c, MAX_COORD as int),
        ssign(a, b, c) != 0,
    ensures
        spoint_in_triangle(
            (Vec2 { x: (a.x + b.x + c.x) as i64, y: (a.y + b.y + c.y) as i64 }),
            (Vec2 { x: (3 * a.x) as i64, y: (3 * a.y) as i64 }),
            (Vec2 { x: (3 * b.x) as i64, y: (3 * b.y) as i64 }),
            (Vec2 { x: (3 * c.x) as i64, y: (3 * c.y) as i64 }),
        ),
{
    let t = Vec2 { x: (a.x + b.x + c.x) as i64, y: (a.y + b.y + c.y) as i64 };
    let a3 = Vec2 { x: (3 * a.x) as i64, y: (3 * a.y) as i64 };
    let b3 = Vec2 { x: (3 * b.x) as i64, y: (3 * b.y) as i64 };
    let c3 = Vec2 { x: (3 * c.x) as i64, y: (3 * c.y) as i64 };
    let d = ssign(a, b, c);
    assert(ssign(t, a3, b3) == 3 * d && ssign(t, b3, c3) == 3 * d && ssign(t, c3, a3) == 3 * d)
        by (nonlinear_arith)
        requires
            t.x == a.x + b.x + c.x,
            t.y == a.y + b.y + c.y,
            a3.x == 3 * a.x && a3.y == 3 * a.y,
            b3.x == 3 * b.x && b3.y == 3 * b.y,
            c3.x == 3 * c.x && c3.y == 3 * c.y,
            d == ssign(a, b, c);
}

proof fn lemma_plane_identity_coord(n: int, p0: int, p1: int, a: int, d: int, m: int, num: int)
    by (nonlinear_arith)
    requires
        num == p0 * d + m * (p1 - p0),
    ensures
        n * (num - a * d) == d * (n * (p0 - a)) + m * (n * (p1 - p0)),
{
}

proof fn lemma_coord_residual(n: int, d: int, v: int, a: int, num: int, e: int) by (nonlinear_arith)
    requires
        e == num - d * v,
    ensures
        d * (n * (v - a)) == n * (num - a * d) - n * e,
{
}

/// Every returned segment/plane intersection lies on the plane.  The exact
/// rational point (the coordinate numerators over `shp_pden`) satisfies the
/// plane equation with no error at all, and the rounded grid point returned
/// by `segment_hit_plane` is off the plane by strictly less than the sum of
/// the normal's absolute coordinates — under one grid step for a unit-scaled
/// normal.  The parameter itself satisfies `0 < t <= 1` by `shp_hits`.
pub proof fn lemma_intersection_on_plane(plane: Plane, seg: LineSegment)
    requires
        shp_args_ok(plane, seg),
        shp_hits(plane, seg),
    ensures
        plane.normal.x * (shp_xnum(plane, seg) - plane.point.x * shp_pden(plane, seg))
            + plane.normal.y * (shp_ynum(plane, seg) - plane.point.y * shp_pden(plane, seg))
            + plane.normal.z * (shp_znum(plane, seg) - plane.point.z * shp_pden(plane, seg)) == 0,
        ({
            let sum = vstd::math::abs(plane.normal.x as int) + vstd::math::abs(plane.normal.y as int)
                + vstd::math::abs(plane.normal.z as int);
            -sum < sdot_sub(plane.normal, shp_point(plane, seg), plane.point) < sum
        }),
{
    let n = plane.normal;
    let a = plane.point;
    let p0 = seg.p0;
    let p1 = seg.p1;
    let den0 = shp_den(plane, seg);
    let num0 = shp_num(plane, seg);
    let d = shp_pden(plane, seg);
    let m = shp_pnum(plane, seg);
    let nx = shp_xnum(plane, seg);
    let ny = shp_ynum(plane, seg);
    let nz = shp_znum(plane, seg);
    lemma_plane_identity_coord(n.x as int, p0.x as int, p1.x as int, a.x as int, d, m, nx);
    lemma_plane_identity_coord(n.y as int, p0.y as int, p1.y as int, a.y as int, d, m, ny);
    lemma_plane_identity_coord(n.z as int, p0.z as int, p1.z as int, a.z as int, d, m, nz);
    let t0 = n.x * (p0.x - a.x) + n.y * (p0.y - a.y) + n.z * (p0.z - a.z);
    let t1 = n.x * (p1.x - p0.x) + n.y * (p1.y - p0.y) + n.z * (p1.z - p0.z);
    assert(t0 == -num0 && t1 == den0) by (nonlinear_arith)
        requires
            t0 == n.x * (p0.x - a.x) + n.y * (p0.y - a.y) + n.z * (p0.z - a.z),
            t1 == n.x * (p1.x - p0.x) + n.y * (p1.y - p0.y) + n.z * (p1.z - p0.z),
            num0 == n.x * (a.x - p0.x) + n.y * (a.y - p0.y) + n.z * (a.z - p0.z),
            den0 == n.x * (p1.x - p0.x) + n.y * (p1.y - p0.y) + n.z * (p1.z - p0.z);
    assert(n.x * (nx - a.x * d) + n.y * (ny - a.y * d) + n.z * (nz - a.z * d)
        == d * (-num0) + m * den0)
        by (nonlinear_arith)
        requires
            n.x * (nx - a.x * d) == d * (n.x * (p0.x - a.x)) + m * (n.x * (p1.x - p0.x)),
            n.y * (ny - a.y * d) == d * (n.y * (p0.y - a.y)) + m * (n.y * (p1.y - p0.y)),
            n.z * (nz - a.z * d) == d * (n.z * (p0.z - a.z)) + m * (n.z * (p1.z - p0.z)),
            n.x * (p0.x - a.x) + n.y * (p0.y - a.y) + n.z * (p0.z - a.z) == -num0,
            n.x * (p1.x - p0.x) + n.y * (p1.y - p0.y) + n.z * (p1.z - p0.z) == den0;
    assert(d * (-num0) + m * den0 == 0) by (nonlinear_arith)
        requires
            d == (if den0 >= 0 { den0 } else { -den0 }),
            m == (if den0 >= 0 { num0 } else { -num0 });
    // Rounding: each grid coordinate is the floor of the exact one, so the
    // residual against the plane equation stays under one denominator per
    // normal coordinate.
    let v = shp_point(plane, seg);
    vstd::arithmetic::div_mod::lemma_fundamental_div_mod(nx, d);
    vstd::arithmetic::div_mod::lemma_mod_bound(nx, d);
    vstd::arithmetic::div_mod::lemma_fundamental_div_mod(ny, d);
    vstd::arithmetic::div_mod::lemma_mod_bound(ny, d);
    vstd::arithmetic::div_mod::lemma_fundamental_div_mod(nz, d);
    vstd::arithmetic::div_mod::lemma_mod_bound(nz, d);
    let b = MAX_COORD as int;
    lemma_interp_num_bounds(p0.x as int, p1.x as int, m, d);
    lemma_interp_num_bounds(p0.y as int, p1.y as int, m, d);
    lemma_interp_num_bounds(p0.z as int, p1.z as int, m, d);
    if p0.x <= p1.x {
        crate::num::lemma_fdiv_bounds(p0.x as int, p1.x as int, nx, d);
    } else {
        crate::num::lemma_fdiv_bounds(p1.x as int, p0.x as int, nx, d);
    }
    if p0.y <= p1.y {
        crate::num::lemma_fdiv_bounds(p0.y as int, p1.y as int, ny, d);
    } else {
        crate::num::lemma_fdiv_bounds(p1.y as int, p0.y as int, ny, d);
    }
    if p0.z <= p1.z {
        crate::num::lemma_fdiv_bounds(p0.z as int, p1.z as int, nz, d);
    } else {
        crate::num::lemma_fdiv_bounds(p1.z as int, p0.z as int, nz, d);
    }
    assert(v.x == nx / d && v.y == ny / d && v.z == nz / d);
    let ex = nx - d * v.x;
    let ey = ny - d * v.y;
    let ez = nz - d * v.z;
    assert(0 <= ex < d && 0 <= ey < d && 0 <= ez < d);
    let sum = vstd::math::abs(n.x as int) + vstd::math::abs(n.y as int)
        + vstd::math::abs(n.z as int);
    assert(sum > 0) by {
        if n.x == 0 && n.y == 0 && n.z == 0 {
            assert(den0 == 0) by (nonlinear_arith)
                requires
                    den0 == n.x * (p1.x - p0.x) + n.y * (p1.y - p0.y) + n.z * (p1.z - p0.z),
                    n.x == 0 && n.y == 0 && n.z == 0;
        }
    }
    let s = sdot_sub(n, v, a);
    lemma_coord_residual(n.x as int, d, v.x as int, a.x as int, nx, ex);
    lemma_coord_residual(n.y as int, d, v.y as int, a.y as int, ny, ey);
    lemma_coord_residual(n.z as int, d, v.z as int, a.z as int, nz, ez);
    assert(d * s == d * (n.x * (v.x - a.x)) + d * (n.y * (v.y - a.y)) + d * (n.z * (v.z - a.z)))
        by (nonlinear_arith)
        requires
            s == n.x * (v.x - a.x) + n.y * (v.y - a.y) + n.z * (v.z - a.z);
    assert(d * s == -(n.x * ex + n.y * ey + n.z * ez));
    assert(-(d * sum) < d * s < d * sum) by (nonlinear_arith)
        requires
            d * s == -(n.x * ex + n.y * ey + n.z * ez),
            0 <= ex < d && 0 <= ey < d && 0 <= ez < d,
            sum == vstd::math::abs(n.x as int) + vstd::math::abs(n.y as int)
                + vstd::math::abs(n.z as int),
            sum > 0,
            d > 0;
    assert(-sum < s < sum) by (nonlinear_arith)
        requires
            -(d * sum) < d * s < d * sum,
            d > 0;
}

/// A bounded segment/plane intersection: the infinite-plane hit, then the
/// hit point rejected unless strictly inside the rectangular bounds in X/Y.
pub open spec fn sbounded_hit(plane: Plane, seg: LineSegment, bounds: PlaneBoundaries) -> bool {
    shp_hits(plane, seg) && {
        let p = shp_point(plane, seg);
        p.x > bounds.xmin && p.x < bounds.xmax && p.y > bounds.ymin && p.y < bounds.ymax
    }
}

/// Segment/plane intersection clipped to a rectangular region: the plane hit
/// point is kept only when strictly inside the bounds in X and Y.
pub fn segment_hit_bounded_plane(
    plane: &Plane,
    segment: &LineSegment,
    boundaries: &PlaneBoundaries,
) -> (r: Option<Vec3>)
    requires
        shp_args_ok(*plane, *segment),
    ensures
        r.is_some() <==> sbounded_hit(*plane, *segment, *boundaries),
        r.is_some() ==> r.unwrap() == shp_point(*plane, *segment),
        r.is_some() ==> in_bounds(r.unwrap(), MAX_COORD as int),
{
    let collision_point: Option<Vec3> = segment_hit_plane(plane, segment);
    match collision_point {
        Some(point) => {
            let on_aabb: bool = point.x > boundaries.xmin && point.x < boundaries.xmax
                && point.y > boundaries.ymin && point.y < boundaries.ymax;
            if on_aabb {
                Some(point)
            } else {
                None
            }
        }
        None => None,
    }
}

/// The top face's plane: one half-extent above the center, pointing up.
pub open spec fn stop_plane(a: AABB) -> Plane {
    Plane {
        point: Vec3 { x: a.position.x, y: a.position.y, z: (a.position.z + a.height) as i64 },
        normal: Vec3 { x: 0, y: 0, z: 1 },
    }
}

/// The bottom face's plane: one half-extent below the center, pointing down.
pub open spec fn sbottom_plane(a: AABB) -> Plane {
    Plane {
        point: Vec3 { x: a.position.x, y: a.position.y, z: (a.position.z - a.height) as i64 },
        normal: Vec3 { x: 0, y: 0, z: -1i64 },
    }
}

/// The box's span in X and Y, clipping its top and bottom planes.
pub open spec fn sxy_bounds(a: AABB) -> PlaneBoundaries {
    PlaneBoundaries {
        xmin: (a.position.x - a.width) as i64,
        xmax: (a.position.x + a.width) as i64,
        ymin: (a.position.y - a.depth) as i64,
        ymax: (a.position.y + a.depth) as i64,
    }
}

/// The top face of a box as a bounded plane: the plane sits one half-extent
/// above the center and points up; the bounds are the box's X/Y span.
pub fn aabb_get_top_plane(aabb: &AABB) -> (r: (Plane, PlaneBoundaries))
    requires
        in_bounds(aabb.position, MAX_COORD as int),
        0 <= aabb.width <= MAX_COORD,
        0 <= aabb.depth <= MAX_COORD,
        0 <= aabb.height <= MAX_COORD,
        in_bounds(
            (Vec3 { x: aabb.position.x, y: aabb.position.y, z: (aabb.position.z + aabb.height) as i64 }),
            MAX_COORD as int,
        ),
    ensures
        r.0 == stop_plane(*aabb),
        r.1 == sxy_bounds(*aabb),
{
    let pos = Vec3 { x: aabb.position.x, y: aabb.position.y, z: aabb.position.z + aabb.height };
    let plane = Plane::new(pos, Vec3 { x: 0, y: 0, z: 1 });
    let aabb_boundaries = PlaneBoundaries {
        xmin: aabb.position.x - aabb.width,
        xmax: aabb.position.x + aabb.width,
        ymin: aabb.position.y - aabb.depth,
        ymax: aabb.position.y + aabb.depth,
    };
    (plane, aabb_boundaries)
}

/// The bottom face of a box as a bounded plane: one half-extent below the
/// center, pointing down.
pub fn aabb_get_bottom_plane(aabb: &AABB) -> (r: (Plane, PlaneBoundaries))
    requires
        in_bounds(aabb.position, MAX_COORD as int),
        0 <= aabb.width <= MAX_COORD,
        0 <= aabb.depth <= MAX_COORD,
        0 <= aabb.height <= MAX_COORD,
        in_bounds(
            (Vec3 { x: aabb.position.x, y: aabb.position.y, z: (aabb.position.z - aabb.height) as i64 }),
            MAX_COORD as int,
        ),
    ensures
        r.0 == sbottom_plane(*aabb),
        r.1 == sxy_bounds(*aabb),
{
    let pos = Vec3 { x: aabb.position.x, y: aabb.position.y, z: aabb.position.z - aabb.height };
    let plane = Plane::new(pos, Vec3 { x: 0, y: 0, z: -1 });
    let aabb_boundaries = PlaneBoundaries {
        xmin: aabb.position.x - aabb.width,
        xmax: aabb.position.x + aabb.width,
        ymin: aabb.position.y - aabb.depth,
        ymax: aabb.position.y + aabb.depth,
    };
    (plane, aabb_boundaries)
}

/// Denominator of the ray/plane parameter: `direction . normal`.  Zero means
/// the ray is parallel to the plane.
pub open spec fn ray_den(plane: Plane, dir: Vec3) -> int {
    crate::vec3::sdot(dir, plane.normal)
}

/// Numerator of the ray/plane parameter: `normal . (plane.point - origin)`.
pub open spec fn ray_num(plane: Plane, origin: Vec3) -> int {
    sdot_sub(plane.normal, plane.point, origin)
}

/// Ray denominator normalized positive.
pub open spec fn ray_pden(plane: Plane, origin: Vec3, dir: Vec3) -> int {
    if ray_den(plane, dir) >= 0 { ray_den(plane, dir) } else { -ray_den(plane, dir) }
}

/// Ray numerator normalized together with `ray_pden`; the parameter is
/// `ray_pnum / ray_pden` and is positive exactly when the hit lies ahead of
/// the origin.
pub open spec fn ray_pnum(plane: Plane, origin: Vec3, dir: Vec3) -> int {
    if ray_den(plane, dir) >= 0 { ray_num(plane, origin) } else { -ray_num(plane, origin) }
}

/// Exact numerator of the ray point's X over `ray_pden`.
pub open spec fn ray_xnum(plane: Plane, origin: Vec3, dir: Vec3) -> int {
    origin.x * ray_pden(plane, origin, dir) + ray_pnum(plane, origin, dir) * dir.x
}

/// Exact numerator of the ray point's Y over `ray_pden`.
pub open spec fn ray_ynum(plane: Plane, origin: Vec3, dir: Vec3) -> int {
    origin.y * ray_pden(plane, origin, dir) + ray_pnum(plane, origin, dir) * dir.y
}

/// Exact numerator of the ray point's Z over `ray_pden`.
pub open spec fn ray_znum(plane: Plane, origin: Vec3, dir: Vec3) -> int {
    origin.z * ray_pden(plane, origin, dir) + ray_pnum(plane, origin, dir) * dir.z
}

/// A ray hit can land arbitrarily far out; it is kept only when the rounded
/// point still lies on the world's coordinate grid.
pub open spec fn ray_point_in_world(plane: Plane, origin: Vec3, dir: Vec3) -> bool {
    let d = ray_pden(plane, origin, dir);
    &&& -MAX_COORD <= fdiv(ray_xnum(plane, origin, dir), d) <= MAX_COORD
    &&& -MAX_COORD <= fdiv(ray_ynum(plane, origin, dir), d) <= MAX_COORD
    &&& -MAX_COORD <= fdiv(ray_znum(plane, origin, dir), d) <= MAX_COORD
}

/// The rounded ray/plane intersection point.
pub open spec fn ray_point(plane: Plane, origin: Vec3, dir: Vec3) -> Vec3 {
    let d = ray_pden(plane, origin, dir);
    Vec3 {
        x: fdiv(ray_xnum(plane, origin, dir), d) as i64,
        y: fdiv(ray_ynum(plane, origin, dir), d) as i64,
        z: fdiv(ray_znum(plane, origin, dir), d) as i64,
    }
}

/// One rounded coordinate of a ray point, with its in-world verdict.
pub(crate) fn ray_coord(p: i64, d: i64, num: i128, den: i128) -> (r: (i64, bool))
    requires
        0 < den <= 0x6_0000_0000_0000,
        -0x6_0000_0000_0000 <= num <= 0x6_0000_0000_0000,
        -MAX_COORD <= p <= MAX_COORD,
        -2 * MAX_COORD <= d <= 2 * MAX_COORD,
    ensures
        r.1 == (-MAX_COORD <= fdiv(p * den + num * d, den as int) <= MAX_COORD),
        r.1 ==> r.0 == fdiv(p * den + num * d, den as int),
{
    proof {
        assert(-0x1_0000_0000_0000_0000_0000 <= p * den <= 0x1_0000_0000_0000_0000_0000
            && -0x1_0000_0000_0000_0000_0000 <= num * d <= 0x1_0000_0000_0000_0000_0000)
            by (nonlinear_arith)
            requires
                0 < den <= 0x6_0000_0000_0000,
                -0x6_0000_0000_0000 <= num <= 0x6_0000_0000_0000,
                -MAX_COORD <= p <= MAX_COORD,
                -2 * MAX_COORD <= d <= 2 * MAX_COORD,
                MAX_COORD == 262144i64;
    }
    let n: i128 = (p as i128) * den + num * (d as i128);
    let q: i128 = floor_div(n, den);
    if -MAX_COORD as i128 <= q && q <= MAX_COORD as i128 {
        (q as i64, true)
    } else {
        (0, false)
    }
}

/// Where an unbounded ray strikes a plane.  Some exactly when the ray is not
/// parallel to the plane and the rounded intersection point lies on the
/// world grid; the parameter may be negative (a hit behind the origin is
/// still reported; rejecting those is the terrain scan's concern).
pub fn ray_hit_plane(origin: &Vec3, direction: &Vec3, plane: &Plane) -> (r: Option<Vec3>)
    requires
        in_bounds(*origin, MAX_COORD as int),
        in_bounds(*direction, 2 * MAX_COORD as int),
        in_bounds(plane.point, MAX_COORD as int),
        in_bounds(plane.normal, MAX_COORD as int),
    ensures
        r.is_some() <==> (ray_den(*plane, *direction) != 0 && ray_point_in_world(
            *plane,
            *origin,
            *direction,
        )),
        r matches Some(p) ==> p == ray_point(*plane, *origin, *direction),
{
    let den: i128 = crate::vec3::dot(direction, &plane.normal);
    let num: i128 = crate::vec3::dot_sub(&plane.normal, &plane.point, origin);
    proof {
        lemma_sdot_bound(*direction, plane.normal, 2 * MAX_COORD as int);
        crate::vec3::lemma_dot_sub_bound(plane.normal, plane.point, *origin, MAX_COORD as int);
        assert(-0x6_0000_0000_0000 <= den <= 0x6_0000_0000_0000
            && -0x6_0000_0000_0000 <= num <= 0x6_0000_0000_0000) by (nonlinear_arith)
            requires
                -(3 * (2 * 262144) * (2 * 262144)) <= den <= 3 * (2 * 262144) * (2 * 262144),
                -(6 * 262144 * 262144) <= num <= 6 * 262144 * 262144;
    }
    if den == 0 {
        return None;
    }
    let (pnum, pden): (i128, i128) = if den > 0 { (num, den) } else { (-num, -den) };
    let (x, okx): (i64, bool) = ray_coord(origin.x, direction.x, pnum, pden);
    let (y, oky): (i64, bool) = ray_coord(origin.y, direction.y, pnum, pden);
    let (z, okz): (i64, bool) = ray_coord(origin.z, direction.z, pnum, pden);
    if okx && oky && okz {
        Some(Vec3 { x, y, z })
    } else {
        None
    }
}

/// Bound on a plain dot product from its operands' coordinate bounds.
pub proof fn lemma_sdot_bound(a: Vec3, b: Vec3, bound: int) by (nonlinear_arith)
    requires
        bound >= 0,
        in_bounds(a, bound),
        in_bounds(b, bound),
    ensures
        -(3 * bound * bound) <= crate::vec3::sdot(a, b) <= 3 * bound * bound,
{
}

/// Index of the hit whose intersection point is tallest, walking the planes
/// in order and replacing the candidate only on a strictly greater Z, so the
/// first of several equally tall hits wins.
pub open spec fn stallest_index(planes: Seq<Plane>, seg: LineSegment) -> Option<int>
    decreases planes.len(),
{
    if planes.len() == 0 {
        None
    } else {
        let i = planes.len() - 1;
        let prev = stallest_index(planes.take(i), seg);
        if shp_hits(planes[i], seg) {
            match prev {
                None => Some(i),
                Some(j) => {
                    if shp_point(planes[i], seg).z > shp_point(planes[j], seg).z {
                        Some(i)
                    } else {
                        Some(j)
                    }
                }
            }
        } else {
            prev
        }
    }
}

/// The tallest hit is a hit, and no other hit is taller.
pub proof fn lemma_tallest_is_max(planes: Seq<Plane>, seg: LineSegment)
    ensures
        stallest_index(planes, seg) matches Some(i) ==> {
            &&& 0 <= i < planes.len()
            &&& shp_hits(planes[i], seg)
            &&& forall|j: int| 0 <= j < planes.len() && shp_hits(#[trigger] planes[j], seg)
                ==> shp_point(planes[j], seg).z <= shp_point(planes[i], seg).z
        },
        stallest_index(planes, seg).is_none() ==> forall|j: int|
            0 <= j < planes.len() ==> !shp_hits(#[trigger] planes[j], seg),
    decreases planes.len(),
{
    if planes.len() > 0 {
        let i = planes.len() - 1;
        lemma_tallest_is_max(planes.take(i), seg);
        assert(forall|j: int| 0 <= j < i ==> planes.take(i)[j] == #[trigger] planes[j]);
    }
}

/// Of all planes the segment strikes, return the one whose intersection
/// point is tallest (ties resolved to the earliest plane); the returned
/// plane carries the intersection point as its reference point and keeps the
/// struck plane's normal.
pub fn segment_plane_tallest_collision(segment: &LineSegment, planes: &Vec<Plane>) -> (r: Option<
    Plane,
>)
    requires
        seg_args_all_ok(*segment, planes@),
    ensures
        r.is_some() <==> stallest_index(planes@, *segment).is_some(),
        r matches Some(p) ==> (stallest_index(planes@, *segment) matches Some(i)
            && p.point == shp_point(planes@[i], *segment) && p.normal == planes@[i].normal),
{
    let mut collision: Option<Plane> = None;
    let ghost mut best: Option<int> = None;
    let mut idx: usize = 0;
    while idx < planes.len()
        invariant
            seg_args_all_ok(*segment, planes@),
            0 <= idx <= planes.len(),
            best == stallest_index(planes@.take(idx as int), *segment),
            collision.is_some() <==> best.is_some(),
            collision matches Some(p) ==> (best matches Some(i) && 0 <= i < idx
                && p.point == shp_point(planes@[i], *segment) && p.normal == planes@[i].normal),
        decreases planes.len() - idx,
    {
        let plane = planes[idx];
        proof {
            assert(planes@.take(idx as int + 1).take(idx as int) == planes@.take(idx as int));
            assert(planes@.take(idx as int + 1)[idx as int] == planes@[idx as int]);
        }
        if let Some(point) = segment_hit_plane(&plane, segment) {
            let replace: bool = match &collision {
                None => true,
                Some(best_plane) => point.z > best_plane.point.z,
            };
            if replace {
                collision = Some(Plane::new(point, plane.normal));
                proof {
                    best = Some(idx as int);
                }
            }
        }
        idx = idx + 1;
    }
    proof {
        assert(planes@.take(planes@.len() as int) == planes@);
    }
    collision
}

/// Every plane in the sequence is acceptable to the segment/plane routines.
pub open spec fn seg_args_all_ok(seg: LineSegment, planes: Seq<Plane>) -> bool {
    &&& in_bounds(seg.p0, MAX_COORD as int)
    &&& in_bounds(seg.p1, MAX_COORD as int)
    &&& forall|i: int| 0 <= i < planes.len() ==> shp_args_ok(#[trigger] planes[i], seg)
}

} // verus!
