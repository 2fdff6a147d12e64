//! The free camera: a sphere pushed out of boxes and terrain triangles, with
//! a tunneling fallback through box faces and a floor clamp.  No movement
//! state: the camera only ever has its position corrected.

use vstd::prelude::*;
use crate::vec3::{Vec3, in_bounds, sdot_sub, sdist_sq, snorm_sq, MAX_COORD};
use crate::shapes::{LineSegment, Plane, Triangle, AABB, aabb_wf, tri_plane_spec};
use crate::terrain::{Terrain, twf, striangle, get_terrain_triangle};
use crate::closest::{pp_point, copt, srobust_in_tri};
use crate::intersect::{
    shp_hits, shp_point, sbounded_hit, stop_plane, sbottom_plane, sxy_bounds,
};
use crate::num::{div_away_spec, sqrt_floor};
use crate::player::{sclamp, clamp_coord};

verus! {

/// One coordinate clamped into an interval.
pub open spec fn sclampi(x: int, lo: int, hi: int) -> int {
    if x < lo {
        lo
    } else if x > hi {
        hi
    } else {
        x
    }
}

/// The closest point of the box to `p`: each axis clamped into the box's
/// span.
pub open spec fn sclosest_on_aabb(p: Vec3, a: AABB) -> Vec3 {
    Vec3 {
        x: sclampi(p.x as int, a.position.x - a.width, a.position.x + a.width) as i64,
        y: sclampi(p.y as int, a.position.y - a.depth, a.position.y + a.depth) as i64,
        z: sclampi(p.z as int, a.position.z - a.height, a.position.z + a.height) as i64,
    }
}

/// Clamp each axis of `p` into the box's span: the box's closest point.
pub fn closest_point_on_aabb(p: &Vec3, a: &AABB) -> (r: Vec3)
    requires
        in_bounds(*p, MAX_COORD as int),
        aabb_wf(*a),
    ensures
        r == sclosest_on_aabb(*p, *a),
        in_bounds(r, 2 * MAX_COORD as int),
{
    let x: i64 = if p.x < a.position.x - a.width {
        a.position.x - a.width
    } else if p.x > a.position.x + a.width {
        a.position.x + a.width
    } else {
        p.x
    };
    let y: i64 = if p.y < a.position.y - a.depth {
        a.position.y - a.depth
    } else if p.y > a.position.y + a.depth {
        a.position.y + a.depth
    } else {
        p.y
    };
    let z: i64 = if p.z < a.position.z - a.height {
        a.position.z - a.height
    } else if p.z > a.position.z + a.height {
        a.position.z + a.height
    } else {
        p.z
    };
    Vec3 { x, y, z }
}

/// The segment's first strike among the box's six bounded faces, walked in
/// a fixed order (top, bottom, the two X faces, the two Y faces); the
/// result carries the hit point and the face's outward normal.
pub open spec fn stunnel_hit(a: AABB, seg: LineSegment) -> Option<Plane> {
    let xpos = Plane {
        point: Vec3 { x: (a.position.x + a.width) as i64, y: a.position.y, z: a.position.z },
        normal: Vec3 { x: 1, y: 0, z: 0 },
    };
    let xneg = Plane {
        point: Vec3 { x: (a.position.x - a.width) as i64, y: a.position.y, z: a.position.z },
        normal: Vec3 { x: -1i64, y: 0, z: 0 },
    };
    let ypos = Plane {
        point: Vec3 { x: a.position.x, y: (a.position.y + a.depth) as i64, z: a.position.z },
        normal: Vec3 { x: 0, y: 1, z: 0 },
    };
    let yneg = Plane {
        point: Vec3 { x: a.position.x, y: (a.position.y - a.depth) as i64, z: a.position.z },
        normal: Vec3 { x: 0, y: -1i64, z: 0 },
    };
    if sbounded_hit(stop_plane(a), seg, sxy_bounds(a)) {
        Some(Plane { point: shp_point(stop_plane(a), seg), normal: stop_plane(a).normal })
    } else if sbounded_hit(sbottom_plane(a), seg, sxy_bounds(a)) {
        Some(Plane { point: shp_point(sbottom_plane(a), seg), normal: sbottom_plane(a).normal })
    } else if shp_hits(xpos, seg) && in_face_yz(shp_point(xpos, seg), a) {
        Some(Plane { point: shp_point(xpos, seg), normal: xpos.normal })
    } else if shp_hits(xneg, seg) && in_face_yz(shp_point(xneg, seg), a) {
        Some(Plane { point: shp_point(xneg, seg), normal: xneg.normal })
    } else if shp_hits(ypos, seg) && in_face_xz(shp_point(ypos, seg), a) {
        Some(Plane { point: shp_point(ypos, seg), normal: ypos.normal })
    } else if shp_hits(yneg, seg) && in_face_xz(shp_point(yneg, seg), a) {
        Some(Plane { point: shp_point(yneg, seg), normal: yneg.normal })
    } else {
        None
    }
}

/// The hit point lies strictly inside an X face's span in Y and Z.
pub open spec fn in_face_yz(p: Vec3, a: AABB) -> bool {
    &&& p.y > a.position.y - a.depth
    &&& p.y < a.position.y + a.depth
    &&& p.z > a.position.z - a.height
    &&& p.z < a.position.z + a.height
}

/// The hit point lies strictly inside a Y face's span in X and Z.
pub open spec fn in_face_xz(p: Vec3, a: AABB) -> bool {
    &&& p.x > a.position.x - a.width
    &&& p.x < a.position.x + a.width
    &&& p.z > a.position.z - a.height
    &&& p.z < a.position.z + a.height
}

/// One camera-versus-box step.  With the camera within the hit radius of
/// the box but not inside it, push the camera out along the line from the
/// box's closest point, rounding the push away from zero; with the camera
/// exactly on or inside the box (fast motion tunneled through), fall back
/// to the previous-to-current segment against the six faces and stand the
/// camera one radius off the first face struck; otherwise leave it alone.
pub open spec fn scamera_aabb(cam: Vec3, last: Vec3, a: AABB, r: int) -> Vec3 {
    let c = sclosest_on_aabb(cam, a);
    let d2 = sdist_sq(cam, c);
    if 0 < d2 < r * r {
        let s = sqrt_floor(d2);
        Vec3 {
            x: sclamp(cam.x + div_away_spec((cam.x - c.x) * (r - s), s)) as i64,
            y: sclamp(cam.y + div_away_spec((cam.y - c.y) * (r - s), s)) as i64,
            z: sclamp(cam.z + div_away_spec((cam.z - c.z) * (r - s), s)) as i64,
        }
    } else if d2 == 0 {
        match stunnel_hit(a, LineSegment { p0: last, p1: cam }) {
            Some(pl) => Vec3 {
                x: sclamp(pl.point.x + pl.normal.x * r) as i64,
                y: sclamp(pl.point.y + pl.normal.y * r) as i64,
                z: sclamp(pl.point.z + pl.normal.z * r) as i64,
            },
            None => cam,
        }
    } else {
        cam
    }
}

/// Resolve the camera sphere against one box, exactly per `scamera_aabb`.
pub fn camera_vs_aabb(camera: &Vec3, last_camera: &Vec3, aabb: &AABB, hit_radius: i64) -> (r: Vec3)
    requires
        in_bounds(*camera, MAX_COORD as int),
        in_bounds(*last_camera, MAX_COORD as int),
        aabb_wf(*aabb),
        0 < hit_radius <= MAX_COORD,
    ensures
        r == scamera_aabb(*camera, *last_camera, *aabb, hit_radius as int),
        in_bounds(r, MAX_COORD as int),
{
    let ghost b = MAX_COORD as int;
    let c: Vec3 = closest_point_on_aabb(camera, aabb);
    let d2: i128 = crate::vec3::dist_sq(camera, &c);
    proof {
        assert(0 < hit_radius * hit_radius <= b * b) by (nonlinear_arith)
            requires
                0 < hit_radius <= b;
    }
    if 0 < d2 && d2 < (hit_radius as i128) * (hit_radius as i128) {
        let s: i128 = crate::num::isqrt(d2 as u128) as i128;
        proof {
            crate::num::lemma_sqrt_floor_unique(d2 as int, s as int);
            assert(0 < (s + 1) * (s + 1)) by (nonlinear_arith)
                requires
                    s >= 0;
            assert(s >= 1) by (nonlinear_arith)
                requires
                    s >= 0,
                    d2 > 0,
                    d2 < (s + 1) * (s + 1);
            assert(s < hit_radius) by (nonlinear_arith)
                requires
                    s >= 0,
                    s * s <= d2,
                    d2 < hit_radius * hit_radius,
                    hit_radius > 0;
            assert(-(3 * b * b) <= (camera.x - c.x) * (hit_radius - s) <= 3 * b * b && -(3 * b
                * b) <= (camera.y - c.y) * (hit_radius - s) <= 3 * b * b && -(3 * b * b) <= (
            camera.z - c.z) * (hit_radius - s) <= 3 * b * b) by (nonlinear_arith)
                requires
                    in_bounds(*camera, b),
                    in_bounds(c, 2 * b),
                    0 < hit_radius - s <= b,
                    b > 0;
        }
        let x: i64 = clamp_coord(
            (camera.x as i128) + crate::num::div_away(
                ((camera.x as i128) - (c.x as i128)) * ((hit_radius as i128) - s),
                s,
            ),
        );
        let y: i64 = clamp_coord(
            (camera.y as i128) + crate::num::div_away(
                ((camera.y as i128) - (c.y as i128)) * ((hit_radius as i128) - s),
                s,
            ),
        );
        let z: i64 = clamp_coord(
            (camera.z as i128) + crate::num::div_away(
                ((camera.z as i128) - (c.z as i128)) * ((hit_radius as i128) - s),
                s,
            ),
        );
        Vec3 { x, y, z }
    } else if d2 == 0 {
        let seg = LineSegment { p0: *last_camera, p1: *camera };
        let hit: Option<Plane> = tunnel_hit(aabb, &seg);
        match hit {
            Some(pl) => {
                proof {
                    assert(-b <= pl.normal.x * hit_radius <= b && -b <= pl.normal.y * hit_radius
                        <= b && -b <= pl.normal.z * hit_radius <= b) by (nonlinear_arith)
                        requires
                            in_bounds(pl.normal, 1),
                            0 < hit_radius <= b;
                }
                let x: i64 = clamp_coord(
                    (pl.point.x as i128) + (pl.normal.x as i128) * (hit_radius as i128),
                );
                let y: i64 = clamp_coord(
                    (pl.point.y as i128) + (pl.normal.y as i128) * (hit_radius as i128),
                );
                let z: i64 = clamp_coord(
                    (pl.point.z as i128) + (pl.normal.z as i128) * (hit_radius as i128),
                );
                Vec3 { x, y, z }
            }
            None => *camera,
        }
    } else {
        *camera
    }
}

/// The segment against the box's six bounded faces, first strike wins,
/// exactly per `stunnel_hit`.
fn tunnel_hit(a: &AABB, seg: &LineSegment) -> (r: Option<Plane>)
    requires
        aabb_wf(*a),
        crate::shapes::seg_in_bounds(*seg, MAX_COORD as int),
    ensures
        r == stunnel_hit(*a, *seg),
        r matches Some(pl) ==> in_bounds(pl.point, MAX_COORD as int) && in_bounds(pl.normal, 1),
{
    let (top_plane, top_bounds) = crate::intersect::aabb_get_top_plane(a);
    if let Some(pt) = crate::intersect::segment_hit_bounded_plane(&top_plane, seg, &top_bounds) {
        return Some(Plane { point: pt, normal: top_plane.normal });
    }
    let (bot_plane, bot_bounds) = crate::intersect::aabb_get_bottom_plane(a);
    if let Some(pt) = crate::intersect::segment_hit_bounded_plane(&bot_plane, seg, &bot_bounds) {
        return Some(Plane { point: pt, normal: bot_plane.normal });
    }
    let xpos = Plane {
        point: Vec3 { x: a.position.x + a.width, y: a.position.y, z: a.position.z },
        normal: Vec3 { x: 1, y: 0, z: 0 },
    };
    if let Some(pt) = crate::intersect::segment_hit_plane(&xpos, seg) {
        if pt.y > a.position.y - a.depth && pt.y < a.position.y + a.depth && pt.z > a.position.z
            - a.height && pt.z < a.position.z + a.height {
            return Some(Plane { point: pt, normal: xpos.normal });
        }
    }
    let xneg = Plane {
        point: Vec3 { x: a.position.x - a.width, y: a.position.y, z: a.position.z },
        normal: Vec3 { x: -1i64, y: 0, z: 0 },
    };
    if let Some(pt) = crate::intersect::segment_hit_plane(&xneg, seg) {
        if pt.y > a.position.y - a.depth && pt.y < a.position.y + a.depth && pt.z > a.position.z
            - a.height && pt.z < a.position.z + a.height {
            return Some(Plane { point: pt, normal: xneg.normal });
        }
    }
    let ypos = Plane {
        point: Vec3 { x: a.position.x, y: a.position.y + a.depth, z: a.position.z },
        normal: Vec3 { x: 0, y: 1, z: 0 },
    };
    if let Some(pt) = crate::intersect::segment_hit_plane(&ypos, seg) {
        if pt.x > a.position.x - a.width && pt.x < a.position.x + a.width && pt.z > a.position.z
            - a.height && pt.z < a.position.z + a.height {
            return Some(Plane { point: pt, normal: ypos.normal });
        }
    }
    let yneg = Plane {
        point: Vec3 { x: a.position.x, y: a.position.y - a.depth, z: a.position.z },
        normal: Vec3 { x: 0, y: -1i64, z: 0 },
    };
    if let Some(pt) = crate::intersect::segment_hit_plane(&yneg, seg) {
        if pt.x > a.position.x - a.width && pt.x < a.position.x + a.width && pt.z > a.position.z
            - a.height && pt.z < a.position.z + a.height {
            return Some(Plane { point: pt, normal: yneg.normal });
        }
    }
    None
}

/// The camera is never left below its hit radius: the floor clamp.
pub fn clamp_camera_floor(camera: &Vec3, hit_radius: i64) -> (r: Vec3)
    requires
        in_bounds(*camera, MAX_COORD as int),
        0 < hit_radius <= MAX_COORD,
    ensures
        r.x == camera.x && r.y == camera.y,
        r.z == (if camera.z < hit_radius { hit_radius as int } else { camera.z as int }),
        r.z >= hit_radius,
{
    if camera.z < hit_radius {
        Vec3 { x: camera.x, y: camera.y, z: hit_radius }
    } else {
        *camera
    }
}

proof fn lemma_push_coord_covers(v: int, r: int, s: int)
    requires
        s >= 1,
        r > s,
        crate::num::div_arg_ok(v * (r - s), s),
    ensures
        (s * s) * ((v + div_away_spec(v * (r - s), s)) * (v + div_away_spec(v * (r - s), s)))
            >= (r * r) * (v * v),
{
    crate::num::lemma_div_away_covers(v * (r - s), s);
    let p = div_away_spec(v * (r - s), s);
    let g = v + p;
    if v >= 0 {
        assert(v * (r - s) >= 0 && v * r >= 0) by (nonlinear_arith)
            requires
                v >= 0,
                r > s,
                s >= 1;
        assert(s * g >= v * r) by (nonlinear_arith)
            requires
                g == v + p,
                p * s >= v * (r - s),
                s >= 1,
                v >= 0,
                p >= 0;
        assert((s * g) * (s * g) >= (v * r) * (v * r)) by (nonlinear_arith)
            requires
                s * g >= v * r,
                v * r >= 0;
    } else {
        assert(v * (r - s) < 0 && v * r <= 0) by (nonlinear_arith)
            requires
                v < 0,
                r > s,
                s >= 1;
        assert(s * g <= v * r) by (nonlinear_arith)
            requires
                g == v + p,
                p * s <= v * (r - s),
                s >= 1,
                v < 0,
                p < 0;
        assert((s * g) * (s * g) >= (v * r) * (v * r)) by (nonlinear_arith)
            requires
                s * g <= v * r,
                v * r <= 0;
    }
    assert((s * g) * (s * g) == (s * s) * (g * g) && (v * r) * (v * r) == (r * r) * (v * v))
        by (nonlinear_arith);
}

/// The push-out never leaves an overlap: when the camera is within the hit
/// radius of the box but not inside it, and the pushed point is not cut off
/// by the world clamp, the resolved camera stands at least the hit radius
/// away from the box's closest point.
pub proof fn lemma_camera_push_clears(cam: Vec3, last: Vec3, a: AABB, r: int)
    requires
        in_bounds(cam, MAX_COORD as int),
        aabb_wf(a),
        0 < r <= MAX_COORD,
        0 < sdist_sq(cam, sclosest_on_aabb(cam, a)),
        sdist_sq(cam, sclosest_on_aabb(cam, a)) < r * r,
        ({
            let c = sclosest_on_aabb(cam, a);
            let s = sqrt_floor(sdist_sq(cam, c));
            &&& -MAX_COORD <= cam.x + div_away_spec((cam.x - c.x) * (r - s), s) <= MAX_COORD
            &&& -MAX_COORD <= cam.y + div_away_spec((cam.y - c.y) * (r - s), s) <= MAX_COORD
            &&& -MAX_COORD <= cam.z + div_away_spec((cam.z - c.z) * (r - s), s) <= MAX_COORD
        }),
    ensures
        sdist_sq(scamera_aabb(cam, last, a, r), sclosest_on_aabb(cam, a)) >= r * r,
{
    let c = sclosest_on_aabb(cam, a);
    let d2 = sdist_sq(cam, c);
    let s = sqrt_floor(d2);
    crate::num::lemma_sqrt_floor_bounds(d2);
    assert(s >= 1) by (nonlinear_arith)
        requires
            s >= 0,
            d2 > 0,
            d2 < (s + 1) * (s + 1);
    assert(s < r) by (nonlinear_arith)
        requires
            s >= 0,
            s * s <= d2,
            d2 < r * r,
            r > 0;
    let vx = cam.x - c.x;
    let vy = cam.y - c.y;
    let vz = cam.z - c.z;
    let b = MAX_COORD as int;
    assert(crate::num::div_arg_ok(vx * (r - s), s) && crate::num::div_arg_ok(vy * (r - s), s)
        && crate::num::div_arg_ok(vz * (r - s), s)) by (nonlinear_arith)
        requires
            -(3 * b) <= vx <= 3 * b,
            -(3 * b) <= vy <= 3 * b,
            -(3 * b) <= vz <= 3 * b,
            0 < r - s <= b,
            1 <= s <= b,
            b == 262144;
    lemma_push_coord_covers(vx, r, s);
    lemma_push_coord_covers(vy, r, s);
    lemma_push_coord_covers(vz, r, s);
    let gx = vx + div_away_spec(vx * (r - s), s);
    let gy = vy + div_away_spec(vy * (r - s), s);
    let gz = vz + div_away_spec(vz * (r - s), s);
    let res = scamera_aabb(cam, last, a, r);
    assert(res.x - c.x == gx && res.y - c.y == gy && res.z - c.z == gz);
    let e2 = sdist_sq(res, c);
    // sum the per-coordinate covers: s^2 * |new - c|^2 >= r^2 * |cam - c|^2
    assert((s * s) * e2 == (s * s) * (gx * gx) + (s * s) * (gy * gy) + (s * s) * (gz * gz)
        && (r * r) * d2 == (r * r) * (vx * vx) + (r * r) * (vy * vy) + (r * r) * (vz * vz))
        by (nonlinear_arith)
        requires
            e2 == gx * gx + gy * gy + gz * gz,
            d2 == vx * vx + vy * vy + vz * vz;
    assert((s * s) * e2 >= (r * r) * d2);
    assert(e2 >= r * r) by (nonlinear_arith)
        requires
            (s * s) * e2 >= (r * r) * d2,
            s * s <= d2,
            s >= 1,
            d2 > 0,
            r > 0;
}

/// One camera-versus-triangle step: face contact pushes out along the
/// normal by the remaining penetration; otherwise an edge or vertex within
/// the radius pushes the camera away from the triangle's closest point.
pub open spec fn scamera_tri(cam: Vec3, tri: Triangle, r: int) -> Vec3 {
    let pl = tri_plane_spec(tri);
    let n = tri.normal;
    let nn = snorm_sq(n);
    let dn = sdot_sub(n, cam, tri.a);
    let pp = pp_point(cam, pl);
    if srobust_in_tri(pp, tri) && dn * dn < r * r * nn {
        let amt = r * sqrt_floor(nn) - dn;
        Vec3 {
            x: sclamp(cam.x + div_away_spec(n.x * amt, nn)) as i64,
            y: sclamp(cam.y + div_away_spec(n.y * amt, nn)) as i64,
            z: sclamp(cam.z + div_away_spec(n.z * amt, nn)) as i64,
        }
    } else {
        let bd = copt(cam, tri).0;
        let bp = copt(cam, tri).1;
        if bd < r * r && bd > 0 {
            let v = Vec3 { x: (cam.x - bp.x) as i64, y: (cam.y - bp.y) as i64, z: (cam.z
                - bp.z) as i64 };
            let sv = sqrt_floor(snorm_sq(v));
            Vec3 {
                x: sclamp(cam.x + div_away_spec(v.x * (r - sv), sv)) as i64,
                y: sclamp(cam.y + div_away_spec(v.y * (r - sv), sv)) as i64,
                z: sclamp(cam.z + div_away_spec(v.z * (r - sv), sv)) as i64,
            }
        } else {
            cam
        }
    }
}

/// Resolve the camera sphere against one terrain triangle, exactly per
/// `scamera_tri`.
pub fn camera_vs_triangle(camera: &Vec3, tri: &Triangle, hit_radius: i64) -> (r: Vec3)
    requires
        in_bounds(*camera, MAX_COORD as int),
        crate::player::tri_ok(*tri),
        0 < hit_radius <= MAX_COORD,
    ensures
        r == scamera_tri(*camera, *tri, hit_radius as int),
        in_bounds(r, MAX_COORD as int),
{
    let ghost b = MAX_COORD as int;
    let plane = Plane { point: tri.a, normal: tri.normal };
    let (dn, point_on_plane): (i128, Vec3) = crate::closest::projected_point_on_plane(
        camera,
        &plane,
    );
    let nn: i128 = crate::vec3::dot(&tri.normal, &tri.normal);
    proof {
        crate::intersect::lemma_sdot_bound(tri.normal, tri.normal, b);
        crate::vec3::lemma_dot_sub_bound(tri.normal, *camera, tri.a, b);
        assert(0 <= dn * dn <= 36 * b * b * b * b && 0 < hit_radius * hit_radius * nn <= 3 * b * b
            * b * b && 0 < hit_radius * hit_radius <= b * b) by (nonlinear_arith)
            requires
                -(6 * b * b) <= dn <= 6 * b * b,
                0 < nn <= 3 * b * b,
                0 < hit_radius <= b,
                b > 0;
    }
    let s: i128 = crate::num::isqrt(nn as u128) as i128;
    proof {
        crate::num::lemma_sqrt_floor_unique(nn as int, s as int);
        assert(0 <= s <= 2 * b && 0 <= hit_radius * s <= 2 * b * b) by (nonlinear_arith)
            requires
                s >= 0,
                s * s <= nn,
                nn <= 3 * b * b,
                0 < hit_radius <= b,
                b > 0;
    }
    if crate::closest::robust_point_in_triangle(&point_on_plane, tri) && dn * dn < (hit_radius
        as i128) * (hit_radius as i128) * nn {
        let amt: i128 = (hit_radius as i128) * s - dn;
        proof {
            assert(-(8 * b * b) <= amt <= 8 * b * b && -(8 * b * b * b) <= tri.normal.x * amt <= 8
                * b * b * b && -(8 * b * b * b) <= tri.normal.y * amt <= 8 * b * b * b && -(8 * b
                * b * b) <= tri.normal.z * amt <= 8 * b * b * b) by (nonlinear_arith)
                requires
                    amt == hit_radius * s - dn,
                    0 < hit_radius <= b,
                    0 <= s <= 2 * b,
                    -(6 * b * b) <= dn <= 6 * b * b,
                    in_bounds(tri.normal, b),
                    b == 262144;
        }
        let x: i64 = clamp_coord(
            (camera.x as i128) + crate::num::div_away((tri.normal.x as i128) * amt, nn),
        );
        let y: i64 = clamp_coord(
            (camera.y as i128) + crate::num::div_away((tri.normal.y as i128) * amt, nn),
        );
        let z: i64 = clamp_coord(
            (camera.z as i128) + crate::num::div_away((tri.normal.z as i128) * amt, nn),
        );
        Vec3 { x, y, z }
    } else {
        let (bd, bp): (i128, Vec3) = crate::closest::closest_point_on_triangle(camera, tri);
        if bd < (hit_radius as i128) * (hit_radius as i128) && bd > 0 {
            let v: Vec3 = Vec3 { x: camera.x - bp.x, y: camera.y - bp.y, z: camera.z - bp.z };
            let vv: i128 = crate::vec3::dot(&v, &v);
            proof {
                crate::intersect::lemma_sdot_bound(v, v, 33 * b);
                assert(vv == sdist_sq(*camera, bp) && vv == snorm_sq(v));
            }
            let sv: i128 = crate::num::isqrt(vv as u128) as i128;
            proof {
                crate::num::lemma_sqrt_floor_unique(vv as int, sv as int);
                assert(0 < (sv + 1) * (sv + 1)) by (nonlinear_arith)
                    requires
                        sv >= 0;
                assert(sv >= 1) by (nonlinear_arith)
                    requires
                        sv >= 0,
                        vv > 0,
                        vv < (sv + 1) * (sv + 1);
                assert(sv < hit_radius) by (nonlinear_arith)
                    requires
                        sv >= 0,
                        sv * sv <= vv,
                        vv < hit_radius * hit_radius,
                        hit_radius > 0;
                assert(-(33 * b * b) <= v.x * (hit_radius - sv) <= 33 * b * b && -(33 * b * b)
                    <= v.y * (hit_radius - sv) <= 33 * b * b && -(33 * b * b) <= v.z * (hit_radius
                    - sv) <= 33 * b * b) by (nonlinear_arith)
                    requires
                        in_bounds(v, 33 * b),
                        0 < hit_radius - sv <= b,
                        b == 262144;
            }
            let x: i64 = clamp_coord(
                (camera.x as i128) + crate::num::div_away(
                    (v.x as i128) * ((hit_radius as i128) - sv),
                    sv,
                ),
            );
            let y: i64 = clamp_coord(
                (camera.y as i128) + crate::num::div_away(
                    (v.y as i128) * ((hit_radius as i128) - sv),
                    sv,
                ),
            );
            let z: i64 = clamp_coord(
                (camera.z as i128) + crate::num::div_away(
                    (v.z as i128) * ((hit_radius as i128) - sv),
                    sv,
                ),
            );
            Vec3 { x, y, z }
        } else {
            *camera
        }
    }
}

/// The camera resolved against the first `n` triangles of the mesh, in
/// order, one pass.
pub open spec fn scamera_fold(cam: Vec3, ter: Terrain, r: int, n: int) -> Vec3
    decreases n,
{
    if n <= 0 {
        cam
    } else {
        scamera_tri(scamera_fold(cam, ter, r, n - 1), striangle(ter, 3 * (n - 1)), r)
    }
}

/// Resolve the camera sphere against every terrain triangle, in order,
/// exactly `scamera_fold` over the whole mesh.
#[verifier::loop_isolation(false)]
pub fn camera_vs_terrain(camera: &Vec3, terrain: &Terrain, hit_radius: i64) -> (r: Vec3)
    requires
        in_bounds(*camera, MAX_COORD as int),
        twf(*terrain),
        0 < hit_radius <= MAX_COORD,
    ensures
        r == scamera_fold(*camera, *terrain, hit_radius as int, terrain.indices@.len() as int / 3),
        in_bounds(r, MAX_COORD as int),
{
    let ilen: usize = terrain.indices.len();
    let ntri: usize = ilen / 3;
    let mut cur: Vec3 = *camera;
    let mut j: usize = 0;
    while j < ntri
        invariant
            0 <= j <= ntri,
            in_bounds(cur, MAX_COORD as int),
            cur == scamera_fold(*camera, *terrain, hit_radius as int, j as int),
        decreases ntri - j,
    {
        let tri: Triangle = get_terrain_triangle(terrain, 3 * j);
        cur = camera_vs_triangle(&cur, &tri, hit_radius);
        j = j + 1;
    }
    cur
}

} // verus!
