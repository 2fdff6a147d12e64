//! Intersection and closest-point primitives on concrete values.

use collision_core::vec3::{Vec2, Vec3};
use collision_core::shapes::{LineSegment, Plane, PlaneBoundaries, AABB, Triangle};
use collision_core::intersect::{
    segment_hit_plane, segment_hit_bounded_plane, point_plane_distance, point_in_triangle, sign,
    aabb_get_top_plane, aabb_get_bottom_plane, segment_plane_tallest_collision,
};
use collision_core::closest::{
    closest_point_on_line_segment, projected_point_on_plane, robust_point_in_triangle,
    closest_point_on_triangle,
};

fn v(x: i64, y: i64, z: i64) -> Vec3 {
    Vec3 { x, y, z }
}

fn floor_plane() -> Plane {
    Plane { point: v(0, 0, 0), normal: v(0, 0, 1) }
}

#[test]
fn segment_hits_plane_at_crossing() {
    let seg = LineSegment { p0: v(0, 0, 100), p1: v(0, 0, -100) };
    let hit = segment_hit_plane(&floor_plane(), &seg).unwrap();
    assert_eq!(hit, v(0, 0, 0));
    // the returned point lies on the plane
    assert_eq!(point_plane_distance(&hit, &floor_plane()), 0);
}

#[test]
fn segment_starting_on_plane_is_not_a_fresh_hit() {
    // t = 0 is excluded: a point already resting on the plane
    let seg = LineSegment { p0: v(0, 0, 0), p1: v(0, 0, -100) };
    assert!(segment_hit_plane(&floor_plane(), &seg).is_none());
}

#[test]
fn segment_ending_on_plane_hits() {
    // t = 1 is included
    let seg = LineSegment { p0: v(0, 0, 100), p1: v(0, 0, 0) };
    assert_eq!(segment_hit_plane(&floor_plane(), &seg), Some(v(0, 0, 0)));
}

#[test]
fn parallel_segment_misses() {
    let seg = LineSegment { p0: v(-50, 0, 10), p1: v(50, 0, 10) };
    assert!(segment_hit_plane(&floor_plane(), &seg).is_none());
}

#[test]
fn zero_length_segment_misses() {
    let seg = LineSegment { p0: v(0, 0, 10), p1: v(0, 0, 10) };
    assert!(segment_hit_plane(&floor_plane(), &seg).is_none());
}

#[test]
fn interpolated_hit_point_is_exact() {
    // from z=30 to z=-10: crosses z=0 three quarters of the way
    let seg = LineSegment { p0: v(0, 40, 30), p1: v(40, 0, -10) };
    let hit = segment_hit_plane(&floor_plane(), &seg).unwrap();
    assert_eq!(hit, v(30, 10, 0));
}

#[test]
fn bounded_plane_rejects_outside_strictly() {
    let bounds = PlaneBoundaries { xmin: -10, xmax: 10, ymin: -10, ymax: 10 };
    let inside = LineSegment { p0: v(5, 5, 10), p1: v(5, 5, -10) };
    let outside = LineSegment { p0: v(15, 0, 10), p1: v(15, 0, -10) };
    let on_edge = LineSegment { p0: v(10, 0, 10), p1: v(10, 0, -10) };
    assert_eq!(segment_hit_bounded_plane(&floor_plane(), &inside, &bounds), Some(v(5, 5, 0)));
    assert!(segment_hit_bounded_plane(&floor_plane(), &outside, &bounds).is_none());
    // the comparison is strict: a hit exactly on the boundary is rejected
    assert!(segment_hit_bounded_plane(&floor_plane(), &on_edge, &bounds).is_none());
}

#[test]
fn point_plane_distance_is_signed_and_scaled() {
    let plane = Plane { point: v(0, 0, 100), normal: v(0, 0, 2) };
    assert_eq!(point_plane_distance(&v(0, 0, 150), &plane), 100);
    assert_eq!(point_plane_distance(&v(0, 0, 50), &plane), -100);
}

#[test]
fn sign_matches_formula() {
    let t = Vec2 { x: 3, y: 4 };
    let p0 = Vec2 { x: 1, y: 0 };
    let p1 = Vec2 { x: 0, y: 2 };
    // (3-0)*(0-2) - (1-0)*(4-2) = -6 - 2
    assert_eq!(sign(&t, &p0, &p1), -8);
}

#[test]
fn centroid_is_inside_triangle() {
    let a = Vec2 { x: 0, y: 0 };
    let b = Vec2 { x: 300, y: 0 };
    let c = Vec2 { x: 0, y: 300 };
    let centroid = Vec2 { x: 100, y: 100 };
    assert!(point_in_triangle(&centroid, &a, &b, &c));
    let outside = Vec2 { x: 200, y: 200 };
    assert!(!point_in_triangle(&outside, &a, &b, &c));
}

#[test]
fn point_in_triangle_is_winding_invariant() {
    let a = Vec2 { x: 0, y: 0 };
    let b = Vec2 { x: 300, y: 0 };
    let c = Vec2 { x: 0, y: 300 };
    for p in [Vec2 { x: 100, y: 100 }, Vec2 { x: 250, y: 250 }, Vec2 { x: 1, y: 1 }] {
        let r1 = point_in_triangle(&p, &a, &b, &c);
        let r2 = point_in_triangle(&p, &b, &c, &a);
        let r3 = point_in_triangle(&p, &c, &a, &b);
        assert_eq!(r1, r2);
        assert_eq!(r2, r3);
    }
}

#[test]
fn boundary_point_counts_as_inside() {
    let a = Vec2 { x: 0, y: 0 };
    let b = Vec2 { x: 10, y: 0 };
    let c = Vec2 { x: 0, y: 10 };
    assert!(point_in_triangle(&Vec2 { x: 5, y: 0 }, &a, &b, &c));
}

#[test]
fn tallest_collision_prefers_highest_plane() {
    // two floor candidates at z = 200 and z = 500, both crossed by the probe:
    // the resolved standing point must be the higher one
    let planes = vec![
        Plane { point: v(0, 0, 200), normal: v(0, 0, 1) },
        Plane { point: v(0, 0, 500), normal: v(0, 0, 1) },
    ];
    let probe = LineSegment { p0: v(0, 0, 600), p1: v(0, 0, -100) };
    let hit = segment_plane_tallest_collision(&probe, &planes).unwrap();
    assert_eq!(hit.point.z, 500);
    let planes_reversed = vec![planes[1], planes[0]];
    let hit2 = segment_plane_tallest_collision(&probe, &planes_reversed).unwrap();
    assert_eq!(hit2.point.z, 500);
}

#[test]
fn tallest_collision_none_when_nothing_hit() {
    let planes = vec![Plane { point: v(0, 0, 200), normal: v(0, 0, 1) }];
    let probe = LineSegment { p0: v(0, 0, 100), p1: v(0, 0, 0) };
    assert!(segment_plane_tallest_collision(&probe, &planes).is_none());
}

#[test]
fn aabb_planes_use_half_extents() {
    let aabb = AABB { position: v(10, 20, 30), width: 5, depth: 6, height: 7 };
    let (top, tb) = aabb_get_top_plane(&aabb);
    assert_eq!(top.point, v(10, 20, 37));
    assert_eq!(top.normal, v(0, 0, 1));
    assert_eq!((tb.xmin, tb.xmax, tb.ymin, tb.ymax), (5, 15, 14, 26));
    let (bottom, bb) = aabb_get_bottom_plane(&aabb);
    assert_eq!(bottom.point, v(10, 20, 23));
    assert_eq!(bottom.normal, v(0, 0, -1));
    assert_eq!((bb.xmin, bb.xmax, bb.ymin, bb.ymax), (5, 15, 14, 26));
}

#[test]
fn segment_length_is_horizontal_and_rounded_down() {
    let seg = LineSegment { p0: v(0, 0, 0), p1: v(300, 400, 7) };
    assert_eq!(seg.length(), 500);
    let diag = LineSegment { p0: v(0, 0, 0), p1: v(1, 1, 0) };
    assert_eq!(diag.length(), 1);
    assert_eq!(LineSegment::zero().length(), 0);
}

#[test]
fn closest_point_on_segment_clamps_and_projects() {
    let p0 = v(0, 0, 0);
    let p1 = v(100, 0, 0);
    assert_eq!(closest_point_on_line_segment(&v(-50, 7, 0), &p0, &p1), p0);
    assert_eq!(closest_point_on_line_segment(&v(150, 7, 0), &p0, &p1), p1);
    assert_eq!(closest_point_on_line_segment(&v(30, 7, 9), &p0, &p1), v(30, 0, 0));
    // degenerate zero-length segment falls back to its first point
    assert_eq!(closest_point_on_line_segment(&v(5, 5, 5), &p0, &p0), p0);
}

fn floor_triangle() -> Triangle {
    Triangle { a: v(-500, -500, 0), b: v(500, -500, 0), c: v(0, 500, 0), normal: v(0, 0, 1) }
}

#[test]
fn projection_onto_plane_is_exact() {
    let (dist, point) = projected_point_on_plane(&v(10, 20, 70), &floor_plane());
    assert_eq!(dist, 70);
    assert_eq!(point, v(10, 20, 0));
}

#[test]
fn robust_containment_projects_by_dominant_axis() {
    let tri = floor_triangle();
    assert!(robust_point_in_triangle(&v(0, 0, 50), &tri));
    assert!(!robust_point_in_triangle(&v(600, 0, 50), &tri));
}

#[test]
fn closest_point_face_case_gives_perpendicular_distance() {
    let tri = floor_triangle();
    let (d2, p) = closest_point_on_triangle(&v(0, 0, 70), &tri);
    assert_eq!(p, v(0, 0, 0));
    assert_eq!(d2, 70 * 70);
}

#[test]
fn closest_point_clamps_to_edge_and_respects_vertex_bound() {
    let tri = floor_triangle();
    let q = v(0, -700, 0);
    let (d2, p) = closest_point_on_triangle(&q, &tri);
    assert_eq!(p, v(0, -500, 0));
    assert_eq!(d2, 200 * 200);
    // never farther than any single vertex
    for vertex in [tri.a, tri.b, tri.c] {
        let dx = (q.x - vertex.x) as i128;
        let dy = (q.y - vertex.y) as i128;
        let dz = (q.z - vertex.z) as i128;
        assert!(d2 <= dx * dx + dy * dy + dz * dz);
    }
}

#[test]
fn closest_point_clamps_to_vertex() {
    let tri = floor_triangle();
    let q = v(900, -900, 0);
    let (d2, p) = closest_point_on_triangle(&q, &tri);
    assert_eq!(p, v(500, -500, 0));
    assert_eq!(d2, 400 * 400 + 400 * 400);
}
