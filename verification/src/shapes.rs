//! The primitive collision shapes: segments, planes, boxes, spheres,
//! capsules and triangles, with their trivial constructors.

use vstd::prelude::*;
use crate::vec3::Vec3;
use crate::vec3::in_bounds;
use crate::vec3::MAX_COORD;
use crate::num::isqrt;

verus! {

/// A directed segment: the motion of a point over one tick, or the player's
/// vertical extent.
#[derive(Clone, Copy, PartialEq, Eq, Structural, Debug)]
pub struct LineSegment {
    pub p0: Vec3,
    pub p1: Vec3,
}

/// An infinite plane given by a point on it and a normal vector.  The normal
/// need not be unit length: the collision routines state their results over
/// the normal's exact integer length where it matters.
#[derive(Clone, Copy, PartialEq, Eq, Structural, Debug)]
pub struct Plane {
    pub point: Vec3,
    pub normal: Vec3,
}

/// A rectangular clip region bounding an otherwise infinite plane to a box
/// face, in the plane's local XY frame.
#[derive(Clone, Copy, PartialEq, Eq, Structural, Debug)]
pub struct PlaneBoundaries {
    pub xmin: i64,
    pub xmax: i64,
    pub ymin: i64,
    pub ymax: i64,
}

/// An axis-aligned box: `position` is the center and `width`, `depth`,
/// `height` are half-extents, so the box spans `position.x +/- width`,
/// `position.y +/- depth` and `position.z +/- height`.
#[derive(Clone, Copy, PartialEq, Eq, Structural, Debug)]
pub struct AABB {
    pub position: Vec3,
    pub width: i64,
    pub depth: i64,
    pub height: i64,
}

/// A sphere used both for the camera volume and the capsule's cap test.
#[derive(Clone, Copy, PartialEq, Eq, Structural, Debug)]
pub struct Sphere {
    pub focus: Vec3,
    pub radius: i64,
}

/// The vertical swept sphere standing for the player.
#[derive(Clone, Copy, PartialEq, Eq, Structural, Debug)]
pub struct Capsule {
    pub segment: LineSegment,
    pub radius: i64,
}

/// A triangle of the terrain mesh with its precomputed face normal; built on
/// demand from the mesh, never stored.
#[derive(Clone, Copy, PartialEq, Eq, Structural, Debug)]
pub struct Triangle {
    pub a: Vec3,
    pub b: Vec3,
    pub c: Vec3,
    pub normal: Vec3,
}

/// A box acceptable to the collision routines: center on the grid,
/// non-negative half-extents, and its faces still on the grid.
pub open spec fn aabb_wf(a: AABB) -> bool {
    &&& in_bounds(a.position, MAX_COORD as int)
    &&& 0 <= a.width <= MAX_COORD
    &&& 0 <= a.depth <= MAX_COORD
    &&& 0 <= a.height <= MAX_COORD
    &&& -MAX_COORD <= a.position.x - a.width <= MAX_COORD
    &&& -MAX_COORD <= a.position.x + a.width <= MAX_COORD
    &&& -MAX_COORD <= a.position.y - a.depth <= MAX_COORD
    &&& -MAX_COORD <= a.position.y + a.depth <= MAX_COORD
    &&& -MAX_COORD <= a.position.z + a.height <= MAX_COORD
    &&& -MAX_COORD <= a.position.z - a.height <= MAX_COORD
}

/// The plane a triangle spans: through its first vertex, with its face
/// normal.
pub open spec fn tri_plane_spec(t: Triangle) -> Plane {
    Plane { point: t.a, normal: t.normal }
}

/// The dominant-axis 2D projection used for containment tests: drop Z when
/// the face points upward (`normal.z > 0`), else drop Y.
pub open spec fn project2(n: Vec3, p: Vec3) -> crate::vec3::Vec2 {
    if n.z > 0 {
        crate::vec3::Vec2 { x: p.x, y: p.y }
    } else {
        crate::vec3::Vec2 { x: p.x, y: p.z }
    }
}

/// Both endpoints of `s` lie within `[-b, b]` on every axis.
pub open spec fn seg_in_bounds(s: LineSegment, b: int) -> bool {
    in_bounds(s.p0, b) && in_bounds(s.p1, b)
}

/// Squared length of the segment's horizontal (XY) projection.
pub open spec fn seg_len_xy_sq(s: LineSegment) -> int {
    (s.p1.x - s.p0.x) * (s.p1.x - s.p0.x) + (s.p1.y - s.p0.y) * (s.p1.y - s.p0.y)
}

impl LineSegment {
    /// The zero segment, both endpoints at the origin.
    pub fn zero() -> (r: Self)
        ensures
            r.p0 == (Vec3 { x: 0, y: 0, z: 0 }),
            r.p1 == (Vec3 { x: 0, y: 0, z: 0 }),
    {
        LineSegment { p0: Vec3 { x: 0, y: 0, z: 0 }, p1: Vec3 { x: 0, y: 0, z: 0 } }
    }

    /// Length of the segment's horizontal projection, rounded down to the
    /// integer grid: the greatest `r` with `r * r <= seg_len_xy_sq(self)`.
    pub fn length(&self) -> (r: i64)
        requires
            seg_in_bounds(*self, MAX_COORD as int),
        ensures
            0 <= r,
            r * r <= seg_len_xy_sq(*self),
            seg_len_xy_sq(*self) < (r + 1) * (r + 1),
    {
        let dx: i128 = (self.p1.x as i128) - (self.p0.x as i128);
        let dy: i128 = (self.p1.y as i128) - (self.p0.y as i128);
        proof {
            let b = 2 * MAX_COORD as int;
            crate::vec3::lemma_square_nonneg(dx as int);
            crate::vec3::lemma_square_nonneg(dy as int);
            assert(dx * dx <= b * b && dy * dy <= b * b) by (nonlinear_arith)
                requires -b <= dx <= b && -b <= dy <= b && b == 2 * MAX_COORD as int;
        }
        let sq: u128 = (dx * dx + dy * dy) as u128;
        let r: u128 = isqrt(sq);
        proof {
            assert(r * r <= sq < (r + 1) * (r + 1));
            assert(r <= 0x2_0000_0000u128) by (nonlinear_arith)
                requires
                    r * r <= sq,
                    sq <= 2 * (2 * MAX_COORD as int) * (2 * MAX_COORD as int),
                    MAX_COORD == 262144i64;
        }
        r as i64
    }
}

impl Plane {
    /// A plane through `point` with normal `normal`.
    pub fn new(point: Vec3, normal: Vec3) -> (r: Self)
        ensures
            r.point == point,
            r.normal == normal,
    {
        Plane { point, normal }
    }
}

} // verus!
