//! The player: a vertical capsule resolved against terrain triangles each
//! tick, with the walking / falling / grounded state machine, gravity,
//! jumping, and the landing search over terrain and box tops.

use vstd::prelude::*;
use crate::vec3::{Vec3, in_bounds, sdot_sub, snorm_sq, sdist_sq, world_ok, MAX_COORD};
use crate::shapes::{LineSegment, Plane, Capsule, Triangle, AABB, tri_plane_spec, seg_in_bounds};
use crate::terrain::{Terrain, twf, striangle, get_terrain_triangle};
use crate::closest::{cps_point, pp_point, copt, srobust_in_tri};
use crate::intersect::{ray_den, ray_point, ray_point_in_world, shp_hits, shp_point, sbounded_hit};
use crate::num::{fdiv, div_away_spec, sqrt_floor};

verus! {

/// Fixed-point steps per world unit (a centimetre grid for metric callers).
pub const ONE: i64 = 100;

/// Downward acceleration, steps per second per second.
pub const ACCELERATION_GRAVITY: i64 = 20 * 100;

/// While rising, vertical velocity is never allowed above this cap,
/// steps per second.
pub const GRAVITY_VELOCITY_CAP: i64 = 10 * 100;

/// Vertical launch speed of a jump, steps per second.
pub const JUMP_SPEED: i64 = 5 * 100;

/// Jumps available before the player must touch ground again.
pub const MAX_JUMPS: u32 = 2;

/// Milliseconds per second: tick durations are taken in milliseconds.
pub const TIME_ONE: i64 = 1000;

/// Movement classification: `Falling` means no ground contact and gravity
/// applies; `Walking` and `Grounded` both mean the player has ground
/// contact.
#[derive(Clone, Copy, PartialEq, Eq, Structural, Debug)]
pub enum MoveState {
    Walking,
    Falling,
    Grounded,
}

/// The player aggregate: tracking-space position and velocity, the capsule
/// segment of this tick and the last one, the capsule radius, the jumps
/// still available, and the movement state.  The resolution code is the sole
/// writer of the state field.
#[derive(Clone, Copy, PartialEq, Eq, Structural, Debug)]
pub struct Player {
    pub tracking_position: Vec3,
    pub tracking_velocity: Vec3,
    pub tracked_segment: LineSegment,
    pub last_tracked_segment: LineSegment,
    pub radius: i64,
    pub jumps_remaining: u32,
    pub movement_state: MoveState,
}

/// Well-formedness of a player value: everything on the world grid, a
/// positive radius, and room above the capsule segment to extend it by one
/// radius.
pub open spec fn player_wf(p: Player) -> bool {
    &&& in_bounds(p.tracking_position, MAX_COORD as int)
    &&& in_bounds(p.tracking_velocity, MAX_COORD as int)
    &&& seg_in_bounds(p.tracked_segment, MAX_COORD as int)
    &&& seg_in_bounds(p.last_tracked_segment, MAX_COORD as int)
    &&& 0 < p.radius <= MAX_COORD
    &&& p.tracked_segment.p1.z + p.radius <= MAX_COORD
    &&& p.jumps_remaining <= MAX_JUMPS
}

impl Player {
    /// The collision capsule of this tick: the tracked segment with its far
    /// end raised by one radius, carrying the player's radius.
    pub fn capsule(&self) -> (r: Capsule)
        requires
            player_wf(*self),
        ensures
            r.segment.p0 == self.tracked_segment.p0,
            r.segment.p1 == scapsule_top(*self),
            r.radius == self.radius,
    {
        Capsule {
            segment: LineSegment {
                p0: self.tracked_segment.p0,
                p1: Vec3 {
                    x: self.tracked_segment.p1.x,
                    y: self.tracked_segment.p1.y,
                    z: self.tracked_segment.p1.z + self.radius,
                },
            },
            radius: self.radius,
        }
    }
}

/// A world coordinate confined to the grid.
pub open spec fn sclamp(x: int) -> int {
    if x < -MAX_COORD {
        -MAX_COORD as int
    } else if x > MAX_COORD {
        MAX_COORD as int
    } else {
        x
    }
}

/// Clamp a computed coordinate onto the world grid.
pub(crate) fn clamp_coord(x: i128) -> (r: i64)
    ensures
        r == sclamp(x as int),
{
    if x < -MAX_COORD as i128 {
        -MAX_COORD
    } else if x > MAX_COORD as i128 {
        MAX_COORD
    } else {
        x as i64
    }
}

/// A direction counts as floor when its angle with straight up is at most
/// sixty degrees: `w . up >= |w| / 2`, squared to stay in integers.
pub open spec fn floor_like(w: Vec3) -> bool {
    w.z >= 0 && 4 * w.z * w.z >= snorm_sq(w)
}

/// The capsule of this tick: the tracked segment with its far end raised by
/// one radius.
pub open spec fn scapsule_top(p: Player) -> Vec3 {
    Vec3 {
        x: p.tracked_segment.p1.x,
        y: p.tracked_segment.p1.y,
        z: (p.tracked_segment.p1.z + p.radius) as i64,
    }
}

/// The reference point on the triangle for the capsule test: where the
/// capsule's axis ray strikes the triangle's plane if that point is inside
/// the triangle, else the triangle's closest point to that strike, and the
/// first vertex when the axis is parallel to the plane or the strike leaves
/// the world grid.
pub open spec fn sref_point(p: Player, tri: Triangle) -> Vec3 {
    let pl = tri_plane_spec(tri);
    let p0 = p.tracked_segment.p0;
    let top = scapsule_top(p);
    let dir = Vec3 { x: (top.x - p0.x) as i64, y: (top.y - p0.y) as i64, z: (top.z - p0.z) as i64 };
    if ray_den(pl, dir) != 0 && ray_point_in_world(pl, p0, dir) {
        let ip = ray_point(pl, p0, dir);
        if srobust_in_tri(ip, tri) {
            ip
        } else {
            copt(ip, tri).1
        }
    } else {
        tri.a
    }
}

/// The focus of the capsule's sphere test: the reference point re-projected
/// onto the capsule axis.
pub open spec fn scapsule_ref(p: Player, tri: Triangle) -> Vec3 {
    cps_point(sref_point(p, tri), p.tracked_segment.p0, scapsule_top(p))
}

/// One capsule-versus-triangle resolution step.
///
/// Face contact (the capsule reference projects inside the triangle and its
/// distance to the plane is under the radius): a floor-like normal snaps the
/// player vertically so the capsule just touches the plane, zeroes the
/// velocity, refills the jumps and grounds the player; a steep normal only
/// pushes the position out along the normal.  Edge contact (the projection
/// falls outside): push away from the triangle's closest point by the
/// remaining penetration; a floor-like push direction also zeroes vertical
/// velocity and refills the jumps.  Displaced coordinates are confined to
/// the world grid.
pub open spec fn scapsule_step(p: Player, tri: Triangle) -> Player {
    let pl = tri_plane_spec(tri);
    let n = tri.normal;
    let nn = snorm_sq(n);
    let cref = scapsule_ref(p, tri);
    let dn = sdot_sub(n, cref, tri.a);
    let pp = pp_point(cref, pl);
    let pos = p.tracking_position;
    if srobust_in_tri(pp, tri) && dn * dn < p.radius * p.radius * nn {
        if floor_like(n) {
            let t = fdiv(sdot_sub(n, tri.a, cref) + p.radius * sqrt_floor(nn), n.z as int);
            Player {
                tracking_position: Vec3 { x: pos.x, y: pos.y, z: sclamp(pos.z + t) as i64 },
                tracking_velocity: Vec3 { x: 0, y: 0, z: 0 },
                jumps_remaining: MAX_JUMPS,
                movement_state: MoveState::Grounded,
                ..p
            }
        } else {
            let amt = p.radius * sqrt_floor(nn) - dn;
            Player {
                tracking_position: Vec3 {
                    x: sclamp(pos.x + div_away_spec(n.x * amt, nn)) as i64,
                    y: sclamp(pos.y + div_away_spec(n.y * amt, nn)) as i64,
                    z: sclamp(pos.z + div_away_spec(n.z * amt, nn)) as i64,
                },
                ..p
            }
        }
    } else {
        let bd = copt(cref, tri).0;
        let bp = copt(cref, tri).1;
        if bd < p.radius * p.radius {
            let v = Vec3 {
                x: (cref.x - bp.x) as i64,
                y: (cref.y - bp.y) as i64,
                z: (cref.z - bp.z) as i64,
            };
            if v == (Vec3 { x: 0, y: 0, z: 0 }) {
                // the reference point sits exactly on the triangle: no
                // direction to push along, explicitly left in place
                p
            } else {
                let vv = snorm_sq(v);
                let sv = sqrt_floor(vv);
                let p2 = Vec3 {
                    x: sclamp(pos.x + div_away_spec(v.x * (p.radius - sv), sv)) as i64,
                    y: sclamp(pos.y + div_away_spec(v.y * (p.radius - sv), sv)) as i64,
                    z: sclamp(pos.z + div_away_spec(v.z * (p.radius - sv), sv)) as i64,
                };
                if floor_like(v) {
                    Player {
                        tracking_position: p2,
                        tracking_velocity: Vec3 {
                            x: p.tracking_velocity.x,
                            y: p.tracking_velocity.y,
                            z: 0,
                        },
                        jumps_remaining: MAX_JUMPS,
                        ..p
                    }
                } else {
                    Player { tracking_position: p2, ..p }
                }
            }
        } else {
            p
        }
    }
}

/// Triangle inputs acceptable to the capsule step.
pub open spec fn tri_ok(tri: Triangle) -> bool {
    &&& world_ok(tri.a)
    &&& world_ok(tri.b)
    &&& world_ok(tri.c)
    &&& world_ok(tri.normal)
    &&& snorm_sq(tri.normal) > 0
}

/// Resolve the player capsule against one triangle, exactly per
/// `scapsule_step`.
pub fn resolve_capsule_triangle(p: &Player, tri: &Triangle) -> (r: Player)
    requires
        player_wf(*p),
        tri_ok(*tri),
    ensures
        r == scapsule_step(*p, *tri),
        player_wf(r),
{
    let ghost b = MAX_COORD as int;
    let plane = Plane { point: tri.a, normal: tri.normal };
    let p0: Vec3 = p.tracked_segment.p0;
    let top: Vec3 = Vec3 {
        x: p.tracked_segment.p1.x,
        y: p.tracked_segment.p1.y,
        z: p.tracked_segment.p1.z + p.radius,
    };
    let dir: Vec3 = Vec3 { x: top.x - p0.x, y: top.y - p0.y, z: top.z - p0.z };
    let ref_point: Vec3 = match crate::intersect::ray_hit_plane(&p0, &dir, &plane) {
        Some(intersection) => {
            if crate::closest::robust_point_in_triangle(&intersection, tri) {
                intersection
            } else {
                crate::closest::closest_point_on_triangle(&intersection, tri).1
            }
        }
        None => tri.a,
    };
    let capsule_ref: Vec3 = crate::closest::closest_point_on_line_segment(&ref_point, &p0, &top);
    let (dn, point_on_plane): (i128, Vec3) = crate::closest::projected_point_on_plane(
        &capsule_ref,
        &plane,
    );
    let nn: i128 = crate::vec3::dot(&tri.normal, &tri.normal);
    proof {
        crate::intersect::lemma_sdot_bound(tri.normal, tri.normal, b);
        crate::vec3::lemma_dot_sub_bound(tri.normal, capsule_ref, tri.a, b);
        assert(0 <= dn * dn <= 36 * b * b * b * b && 0 < p.radius * p.radius * nn <= 3 * b * b * b
            * b && 0 < p.radius * p.radius <= b * b) by (nonlinear_arith)
            requires
                -(6 * b * b) <= dn <= 6 * b * b,
                0 < nn <= 3 * b * b,
                0 < p.radius <= b,
                b > 0;
    }
    let s: i128 = crate::num::isqrt(nn as u128) as i128;
    proof {
        crate::num::lemma_sqrt_floor_unique(nn as int, s as int);
        assert(0 <= s <= 2 * b && s * s <= 3 * b * b) by (nonlinear_arith)
            requires
                s >= 0,
                s * s <= nn,
                nn <= 3 * b * b,
                b > 0;
    }
    if crate::closest::robust_point_in_triangle(&point_on_plane, tri) && dn * dn < (p.radius
        as i128) * (p.radius as i128) * nn {
        proof {
            assert(0 <= 4 * tri.normal.z * tri.normal.z <= 4 * b * b) by (nonlinear_arith)
                requires
                    -b <= tri.normal.z <= b,
                    b > 0;
        }
        if tri.normal.z >= 0 && 4 * (tri.normal.z as i128) * (tri.normal.z as i128) >= nn {
            // floor-like face contact: snap vertically onto the plane
            proof {
                crate::vec3::lemma_dot_sub_bound(tri.normal, tri.a, capsule_ref, b);
                assert(0 <= p.radius * s <= 2 * b * b) by (nonlinear_arith)
                    requires
                        0 < p.radius <= b,
                        0 <= s <= 2 * b,
                        b > 0;
                assert(tri.normal.z > 0) by (nonlinear_arith)
                    requires
                        tri.normal.z >= 0,
                        4 * tri.normal.z * tri.normal.z >= nn,
                        nn > 0;
            }
            let tn: i128 = crate::vec3::dot_sub(&tri.normal, &tri.a, &capsule_ref) + (p.radius
                as i128) * s;
            proof {
                assert((-(8 * b * b)) * tri.normal.z <= tn && tn <= (8 * b * b) * tri.normal.z)
                    by (nonlinear_arith)
                    requires
                        -(8 * b * b) <= tn <= 8 * b * b,
                        tri.normal.z >= 1,
                        b > 0;
            }
            let t: i128 = crate::num::floor_div(tn, tri.normal.z as i128);
            proof {
                crate::num::lemma_fdiv_bounds(
                    -(8 * b * b),
                    8 * b * b,
                    tn as int,
                    tri.normal.z as int,
                );
            }
            let z: i64 = clamp_coord((p.tracking_position.z as i128) + t);
            Player {
                tracking_position: Vec3 { x: p.tracking_position.x, y: p.tracking_position.y, z },
                tracking_velocity: Vec3 { x: 0, y: 0, z: 0 },
                jumps_remaining: MAX_JUMPS,
                movement_state: MoveState::Grounded,
                ..*p
            }
        } else {
            // steep face contact: pure depenetration along the normal
            proof {
                assert(0 <= p.radius * s <= 2 * b * b) by (nonlinear_arith)
                    requires
                        0 < p.radius <= b,
                        0 <= s <= 2 * b,
                        b > 0;
            }
            let amt: i128 = (p.radius as i128) * s - dn;
            proof {
                assert(-(8 * b * b) <= amt <= 8 * b * b && -(8 * b * b * b) <= tri.normal.x * amt
                    <= 8 * b * b * b && -(8 * b * b * b) <= tri.normal.y * amt <= 8 * b * b * b
                    && -(8 * b * b * b) <= tri.normal.z * amt <= 8 * b * b * b)
                    by (nonlinear_arith)
                    requires
                        amt == p.radius * s - dn,
                        0 < p.radius <= b,
                        0 <= s <= 2 * b,
                        -(6 * b * b) <= dn <= 6 * b * b,
                        in_bounds(tri.normal, b),
                        b == 262144;
            }
            let px: i64 = clamp_coord(
                (p.tracking_position.x as i128) + crate::num::div_away(
                    (tri.normal.x as i128) * amt,
                    nn,
                ),
            );
            let py: i64 = clamp_coord(
                (p.tracking_position.y as i128) + crate::num::div_away(
                    (tri.normal.y as i128) * amt,
                    nn,
                ),
            );
            let pz: i64 = clamp_coord(
                (p.tracking_position.z as i128) + crate::num::div_away(
                    (tri.normal.z as i128) * amt,
                    nn,
                ),
            );
            Player { tracking_position: Vec3 { x: px, y: py, z: pz }, ..*p }
        }
    } else {
        // edge or vertex contact
        let (best_dist_sq, best_point): (i128, Vec3) = crate::closest::closest_point_on_triangle(
            &capsule_ref,
            tri,
        );
        if best_dist_sq < (p.radius as i128) * (p.radius as i128) {
            let v: Vec3 = Vec3 {
                x: capsule_ref.x - best_point.x,
                y: capsule_ref.y - best_point.y,
                z: capsule_ref.z - best_point.z,
            };
            if v.x == 0 && v.y == 0 && v.z == 0 {
                *p
            } else {
                let vv: i128 = crate::vec3::dot(&v, &v);
                proof {
                    crate::intersect::lemma_sdot_bound(v, v, 33 * b);
                    assert(vv == sdist_sq(capsule_ref, best_point));
                    assert(vv > 0) by {
                        crate::vec3::lemma_square_nonneg(v.x as int);
                        crate::vec3::lemma_square_nonneg(v.y as int);
                        crate::vec3::lemma_square_nonneg(v.z as int);
                    }
                }
                let sv: i128 = crate::num::isqrt(vv as u128) as i128;
                proof {
                    crate::num::lemma_sqrt_floor_unique(vv as int, sv as int);
                    assert(0 < (sv + 1) * (sv + 1)) by (nonlinear_arith)
                        requires
                            sv >= 0;
                    assert(sv < p.radius) by (nonlinear_arith)
                        requires
                            sv >= 0,
                            sv * sv <= vv,
                            vv < p.radius * p.radius,
                            p.radius > 0;
                    assert(sv >= 1) by (nonlinear_arith)
                        requires
                            sv >= 0,
                            vv > 0,
                            vv < (sv + 1) * (sv + 1);
                    assert(-(33 * b * b) <= v.x * (p.radius - sv) <= 33 * b * b && -(33 * b * b)
                        <= v.y * (p.radius - sv) <= 33 * b * b && -(33 * b * b) <= v.z * (p.radius
                        - sv) <= 33 * b * b) by (nonlinear_arith)
                        requires
                            in_bounds(v, 33 * b),
                            0 < p.radius - sv <= b,
                            b == 262144;
                }
                let px: i64 = clamp_coord(
                    (p.tracking_position.x as i128) + crate::num::div_away(
                        (v.x as i128) * ((p.radius as i128) - sv),
                        sv,
                    ),
                );
                let py: i64 = clamp_coord(
                    (p.tracking_position.y as i128) + crate::num::div_away(
                        (v.y as i128) * ((p.radius as i128) - sv),
                        sv,
                    ),
                );
                let pz: i64 = clamp_coord(
                    (p.tracking_position.z as i128) + crate::num::div_away(
                        (v.z as i128) * ((p.radius as i128) - sv),
                        sv,
                    ),
                );
                let p2 = Vec3 { x: px, y: py, z: pz };
                proof {
                    assert(0 <= 4 * v.z * v.z <= 4 * (33 * b) * (33 * b)) by (nonlinear_arith)
                        requires
                            -(33 * b) <= v.z <= 33 * b,
                            b > 0;
                }
                if v.z >= 0 && 4 * (v.z as i128) * (v.z as i128) >= vv {
                    Player {
                        tracking_position: p2,
                        tracking_velocity: Vec3 {
                            x: p.tracking_velocity.x,
                            y: p.tracking_velocity.y,
                            z: 0,
                        },
                        jumps_remaining: MAX_JUMPS,
                        ..*p
                    }
                } else {
                    Player { tracking_position: p2, ..*p }
                }
            }
        } else {
            *p
        }
    }
}

/// The player resolved against the first `n` triangles of the mesh in
/// order.  Corrections accumulate: each triangle adjusts the already
/// corrected player, in a single pass, while the capsule segment stays the
/// one the tick started with.
pub open spec fn scapsule_fold(p: Player, ter: Terrain, n: int) -> Player
    decreases n,
{
    if n <= 0 {
        p
    } else {
        scapsule_step(scapsule_fold(p, ter, n - 1), striangle(ter, 3 * (n - 1)))
    }
}

/// Resolve the player capsule against every triangle of the terrain, in
/// order, one pass: exactly `scapsule_fold` over the whole mesh.
#[verifier::loop_isolation(false)]
pub fn resolve_capsule_terrain(p: &Player, terrain: &Terrain) -> (r: Player)
    requires
        player_wf(*p),
        twf(*terrain),
    ensures
        r == scapsule_fold(*p, *terrain, terrain.indices@.len() as int / 3),
        player_wf(r),
{
    let ilen: usize = terrain.indices.len();
    let ntri: usize = ilen / 3;
    let mut cur: Player = *p;
    let mut j: usize = 0;
    while j < ntri
        invariant
            0 <= j <= ntri,
            player_wf(cur),
            cur == scapsule_fold(*p, *terrain, j as int),
        decreases ntri - j,
    {
        let tri: Triangle = get_terrain_triangle(terrain, 3 * j);
        cur = resolve_capsule_triangle(&cur, &tri);
        j = j + 1;
    }
    cur
}

/// Velocity after gravity has acted for `dt` milliseconds: while not
/// grounded, the vertical component drops by `g * dt` and is capped from
/// above, so a rising player never exceeds the cap; a grounded player is
/// untouched.  The result is confined to the grid (a terminal fall speed).
pub open spec fn sgravity(v: Vec3, state: MoveState, dt: int) -> Vec3 {
    if state != MoveState::Grounded {
        let z2 = v.z - fdiv(ACCELERATION_GRAVITY as int * dt, TIME_ONE as int);
        let z3 = if z2 > GRAVITY_VELOCITY_CAP { GRAVITY_VELOCITY_CAP as int } else {
            z2
        };
        Vec3 { x: v.x, y: v.y, z: sclamp(z3) as i64 }
    } else {
        v
    }
}

/// Apply gravity to the player's velocity for a tick of `dt` milliseconds,
/// exactly per `sgravity`.
pub fn apply_gravity(player: &mut Player, dt: i64)
    requires
        player_wf(*old(player)),
        0 <= dt <= 10 * TIME_ONE,
    ensures
        *final(player) == (Player {
            tracking_velocity: sgravity(
                old(player).tracking_velocity,
                old(player).movement_state,
                dt as int,
            ),
            ..*old(player)
        }),
        player_wf(*final(player)),
{
    if player.movement_state != MoveState::Grounded {
        let drop: i128 = crate::num::floor_div(
            (ACCELERATION_GRAVITY as i128) * (dt as i128),
            TIME_ONE as i128,
        );
        let z2: i128 = (player.tracking_velocity.z as i128) - drop;
        let z3: i128 = if z2 > GRAVITY_VELOCITY_CAP as i128 {
            GRAVITY_VELOCITY_CAP as i128
        } else {
            z2
        };
        let z: i64 = clamp_coord(z3);
        player.tracking_velocity = Vec3 {
            x: player.tracking_velocity.x,
            y: player.tracking_velocity.y,
            z,
        };
    }
}

/// Position advanced by the velocity over `dt` milliseconds, each
/// coordinate confined to the grid.
pub open spec fn sintegrate(p: Vec3, v: Vec3, dt: int) -> Vec3 {
    Vec3 {
        x: sclamp(p.x + fdiv(v.x * dt, TIME_ONE as int)) as i64,
        y: sclamp(p.y + fdiv(v.y * dt, TIME_ONE as int)) as i64,
        z: sclamp(p.z + fdiv(v.z * dt, TIME_ONE as int)) as i64,
    }
}

/// Move the tracking position along the velocity for `dt` milliseconds,
/// exactly per `sintegrate`.
pub fn update_tracking_position(player: &mut Player, dt: i64)
    requires
        player_wf(*old(player)),
        0 <= dt <= 10 * TIME_ONE,
    ensures
        *final(player) == (Player {
            tracking_position: sintegrate(
                old(player).tracking_position,
                old(player).tracking_velocity,
                dt as int,
            ),
            ..*old(player)
        }),
        player_wf(*final(player)),
{
    let ghost b = MAX_COORD as int;
    proof {
        assert(-(b * 10000) <= player.tracking_velocity.x * dt <= b * 10000 && -(b * 10000)
            <= player.tracking_velocity.y * dt <= b * 10000 && -(b * 10000)
            <= player.tracking_velocity.z * dt <= b * 10000) by (nonlinear_arith)
            requires
                in_bounds(player.tracking_velocity, b),
                0 <= dt <= 10000,
                b > 0;
    }
    let x: i64 = clamp_coord(
        (player.tracking_position.x as i128) + crate::num::floor_div(
            (player.tracking_velocity.x as i128) * (dt as i128),
            TIME_ONE as i128,
        ),
    );
    let y: i64 = clamp_coord(
        (player.tracking_position.y as i128) + crate::num::floor_div(
            (player.tracking_velocity.y as i128) * (dt as i128),
            TIME_ONE as i128,
        ),
    );
    let z: i64 = clamp_coord(
        (player.tracking_position.z as i128) + crate::num::floor_div(
            (player.tracking_velocity.z as i128) * (dt as i128),
            TIME_ONE as i128,
        ),
    );
    player.tracking_position = Vec3 { x, y, z };
}

/// A jump: spends one jump if any is left, launches the player upward at
/// the fixed jump speed and forces the falling state even when grounded;
/// with no jumps left, nothing happens.
pub fn try_jump(player: &mut Player)
    requires
        player_wf(*old(player)),
    ensures
        old(player).jumps_remaining > 0 ==> *final(player) == (Player {
            jumps_remaining: (old(player).jumps_remaining - 1) as u32,
            tracking_velocity: Vec3 {
                x: old(player).tracking_velocity.x,
                y: old(player).tracking_velocity.y,
                z: JUMP_SPEED,
            },
            movement_state: MoveState::Falling,
            ..*old(player)
        }),
        old(player).jumps_remaining == 0 ==> *final(player) == *old(player),
        player_wf(*final(player)),
{
    if player.jumps_remaining > 0 {
        player.jumps_remaining = player.jumps_remaining - 1;
        player.tracking_velocity = Vec3 {
            x: player.tracking_velocity.x,
            y: player.tracking_velocity.y,
            z: JUMP_SPEED,
        };
        player.movement_state = MoveState::Falling;
    }
}

/// Put the player back at the spawn point: three units above the origin,
/// at rest, falling, with all jumps.
pub fn reset_player_position(player: &mut Player)
    requires
        player_wf(*old(player)),
    ensures
        *final(player) == (Player {
            tracking_position: Vec3 { x: 0, y: 0, z: (3 * ONE) as i64 },
            tracking_velocity: Vec3 { x: 0, y: 0, z: 0 },
            tracked_segment: LineSegment {
                p0: Vec3 { x: 0, y: 0, z: 0 },
                p1: Vec3 { x: 0, y: 0, z: 0 },
            },
            last_tracked_segment: LineSegment {
                p0: Vec3 { x: 0, y: 0, z: 0 },
                p1: Vec3 { x: 0, y: 0, z: 0 },
            },
            jumps_remaining: MAX_JUMPS,
            movement_state: MoveState::Falling,
            ..*old(player)
        }),
        player_wf(*final(player)),
{
    player.tracking_position = Vec3 { x: 0, y: 0, z: 3 * ONE };
    player.tracking_velocity = Vec3 { x: 0, y: 0, z: 0 };
    player.tracked_segment = LineSegment::zero();
    player.last_tracked_segment = LineSegment::zero();
    player.jumps_remaining = MAX_JUMPS;
    player.movement_state = MoveState::Falling;
}

/// Force the falling state, leaving everything else alone.
pub fn set_player_falling(player: &mut Player)
    ensures
        *final(player) == (Player { movement_state: MoveState::Falling, ..*old(player) }),
{
    player.movement_state = MoveState::Falling;
}

/// How far above the previous foot position the landing probe starts.
pub const PROBE_LIFT: i64 = 10;

/// The probe strikes the triangle at base index `k`: the segment crosses
/// the triangle's plane and the crossing point lies inside the triangle.
pub open spec fn probe_tri_hit(ter: Terrain, k: int, seg: LineSegment) -> bool {
    let tri = striangle(ter, k);
    shp_hits(tri_plane_spec(tri), seg) && srobust_in_tri(shp_point(tri_plane_spec(tri), seg), tri)
}

/// Tallest probe hit (point and surface normal) among the first `n`
/// triangles; only a strictly taller hit replaces the candidate, so the
/// earliest of equally tall hits wins.
pub open spec fn sprobe_tri_best(ter: Terrain, seg: LineSegment, n: int) -> Option<(Vec3, Vec3)>
    decreases n,
{
    if n <= 0 {
        None
    } else {
        let prev = sprobe_tri_best(ter, seg, n - 1);
        let k = 3 * (n - 1);
        let tri = striangle(ter, k);
        if probe_tri_hit(ter, k, seg) {
            let pt = shp_point(tri_plane_spec(tri), seg);
            match prev {
                None => Some((pt, tri.normal)),
                Some(pr) => if pt.z > pr.0.z {
                    Some((pt, tri.normal))
                } else {
                    Some(pr)
                },
            }
        } else {
            prev
        }
    }
}

/// Tallest probe hit across the whole terrain and the first `n` box tops
/// (a box top carries the straight-up normal), same tallest tie-break.
pub open spec fn sprobe_best(
    ter: Terrain,
    aabbs: Seq<AABB>,
    seg: LineSegment,
    n: int,
) -> Option<(Vec3, Vec3)>
    decreases n,
{
    if n <= 0 {
        sprobe_tri_best(ter, seg, ter.indices@.len() as int / 3)
    } else {
        let prev = sprobe_best(ter, aabbs, seg, n - 1);
        let a = aabbs[n - 1];
        if sbounded_hit(crate::intersect::stop_plane(a), seg, crate::intersect::sxy_bounds(a)) {
            let pt = shp_point(crate::intersect::stop_plane(a), seg);
            match prev {
                None => Some((pt, Vec3 { x: 0, y: 0, z: 1 })),
                Some(pr) => if pt.z > pr.0.z {
                    Some((pt, Vec3 { x: 0, y: 0, z: 1 }))
                } else {
                    Some(pr)
                },
            }
        } else {
            prev
        }
    }
}

/// The tallest probe hit among the triangles really is tallest: every
/// struck triangle's crossing point sits at or below it.
pub proof fn lemma_probe_tri_best_is_tallest(ter: Terrain, seg: LineSegment, n: int)
    ensures
        sprobe_tri_best(ter, seg, n) matches Some(pr) ==> forall|m: int|
            0 <= m < n && probe_tri_hit(ter, #[trigger] (3 * m), seg)
                ==> shp_point(tri_plane_spec(striangle(ter, 3 * m)), seg).z <= pr.0.z,
        sprobe_tri_best(ter, seg, n).is_none() ==> forall|m: int|
            0 <= m < n ==> !probe_tri_hit(ter, #[trigger] (3 * m), seg),
    decreases n,
{
    if n > 0 {
        lemma_probe_tri_best_is_tallest(ter, seg, n - 1);
    }
}

/// The standing-surface search returns the tallest hit over terrain and box
/// tops alike: no struck triangle and no struck box top crosses the probe
/// above the returned point, and `None` means nothing was struck at all.
pub proof fn lemma_probe_best_is_tallest(ter: Terrain, aabbs: Seq<AABB>, seg: LineSegment, n: int)
    requires
        0 <= n <= aabbs.len(),
    ensures
        sprobe_best(ter, aabbs, seg, n) matches Some(pr) ==> {
            &&& forall|m: int| 0 <= m < ter.indices@.len() as int / 3 && probe_tri_hit(
                ter,
                #[trigger] (3 * m),
                seg,
            ) ==> shp_point(tri_plane_spec(striangle(ter, 3 * m)), seg).z <= pr.0.z
            &&& forall|m: int| 0 <= m < n && sbounded_hit(
                crate::intersect::stop_plane(#[trigger] aabbs[m]),
                seg,
                crate::intersect::sxy_bounds(aabbs[m]),
            ) ==> shp_point(crate::intersect::stop_plane(aabbs[m]), seg).z <= pr.0.z
        },
        sprobe_best(ter, aabbs, seg, n).is_none() ==> {
            &&& forall|m: int| 0 <= m < ter.indices@.len() as int / 3
                ==> !probe_tri_hit(ter, #[trigger] (3 * m), seg)
            &&& forall|m: int| 0 <= m < n ==> !sbounded_hit(
                crate::intersect::stop_plane(#[trigger] aabbs[m]),
                seg,
                crate::intersect::sxy_bounds(aabbs[m]),
            )
        },
    decreases n,
{
    if n == 0 {
        lemma_probe_tri_best_is_tallest(ter, seg, ter.indices@.len() as int / 3);
    } else {
        lemma_probe_best_is_tallest(ter, aabbs, seg, n - 1);
    }
}

/// The standing-surface search: intersect the probe segment with every
/// terrain triangle and every box top, and return the tallest hit's point
/// and surface normal — when several surfaces are crossed in one tick the
/// player stands on the highest, not the first struck.
#[verifier::loop_isolation(false)]
pub fn find_standing_surface(terrain: &Terrain, aabbs: &Vec<AABB>, probe: &LineSegment) -> (r:
    Option<(Vec3, Vec3)>)
    requires
        twf(*terrain),
        seg_in_bounds(*probe, MAX_COORD as int),
        forall|i: int| 0 <= i < aabbs@.len() ==> crate::shapes::aabb_wf(#[trigger] aabbs@[i]),
    ensures
        r == sprobe_best(*terrain, aabbs@, *probe, aabbs@.len() as int),
        r matches Some(pr) ==> in_bounds(pr.0, MAX_COORD as int) && in_bounds(
            pr.1,
            MAX_COORD as int,
        ),
{
    let ilen: usize = terrain.indices.len();
    let ntri: usize = ilen / 3;
    let mut best: Option<(Vec3, Vec3)> = None;
    let mut j: usize = 0;
    while j < ntri
        invariant
            0 <= j <= ntri,
            best == sprobe_tri_best(*terrain, *probe, j as int),
            best matches Some(pr) ==> in_bounds(pr.0, MAX_COORD as int) && in_bounds(pr.1, MAX_COORD as int),
        decreases ntri - j,
    {
        let tri: Triangle = get_terrain_triangle(terrain, 3 * j);
        let plane = Plane { point: tri.a, normal: tri.normal };
        if let Some(pt) = crate::intersect::segment_hit_plane(&plane, probe) {
            if crate::closest::robust_point_in_triangle(&pt, &tri) {
                let replace: bool = match &best {
                    None => true,
                    Some(pr) => pt.z > pr.0.z,
                };
                if replace {
                    best = Some((pt, tri.normal));
                }
            }
        }
        j = j + 1;
    }
    let mut i: usize = 0;
    while i < aabbs.len()
        invariant
            0 <= i <= aabbs@.len(),
            best == sprobe_best(*terrain, aabbs@, *probe, i as int),
            best matches Some(pr) ==> in_bounds(pr.0, MAX_COORD as int) && in_bounds(pr.1, MAX_COORD as int),
        decreases aabbs@.len() - i,
    {
        let a: AABB = aabbs[i];
        let (plane, bounds): (Plane, crate::shapes::PlaneBoundaries) =
            crate::intersect::aabb_get_top_plane(&a);
        if let Some(pt) = crate::intersect::segment_hit_bounded_plane(&plane, probe, &bounds) {
            let replace: bool = match &best {
                None => true,
                Some(pr) => pt.z > pr.0.z,
            };
            if replace {
                best = Some((pt, Vec3 { x: 0, y: 0, z: 1 }));
            }
        }
        i = i + 1;
    }
    best
}

/// The landing probe: a short vertical segment from slightly above the
/// previous foot position down to the current foot position.
pub open spec fn sprobe_segment(p: Player) -> LineSegment {
    LineSegment {
        p0: Vec3 {
            x: p.last_tracked_segment.p1.x,
            y: p.last_tracked_segment.p1.y,
            z: sclamp(p.last_tracked_segment.p1.z + PROBE_LIFT) as i64,
        },
        p1: p.tracked_segment.p1,
    }
}

/// The landing step: only a falling player lands; the probe is searched
/// across terrain and box tops, and a floor-like tallest hit snaps the
/// player's height so the foot meets the surface, zeroes vertical velocity,
/// refills the jumps and grounds the player.  Anything else leaves the
/// player falling.
pub open spec fn sland(p: Player, ter: Terrain, aabbs: Seq<AABB>) -> Player {
    if p.movement_state != MoveState::Falling {
        p
    } else {
        match sprobe_best(ter, aabbs, sprobe_segment(p), aabbs.len() as int) {
            None => p,
            Some(pr) => if floor_like(pr.1) {
                Player {
                    tracking_position: Vec3 {
                        x: p.tracking_position.x,
                        y: p.tracking_position.y,
                        z: sclamp(
                            p.tracking_position.z + (pr.0.z - p.tracked_segment.p1.z),
                        ) as i64,
                    },
                    tracking_velocity: Vec3 {
                        x: p.tracking_velocity.x,
                        y: p.tracking_velocity.y,
                        z: 0,
                    },
                    jumps_remaining: MAX_JUMPS,
                    movement_state: MoveState::Grounded,
                    ..p
                }
            } else {
                p
            },
        }
    }
}

/// Land a falling player on the tallest supporting surface under the
/// probe, exactly per `sland`.
pub fn try_land(p: &Player, terrain: &Terrain, aabbs: &Vec<AABB>) -> (r: Player)
    requires
        player_wf(*p),
        twf(*terrain),
        forall|i: int| 0 <= i < aabbs@.len() ==> crate::shapes::aabb_wf(#[trigger] aabbs@[i]),
    ensures
        r == sland(*p, *terrain, aabbs@),
        player_wf(r),
{
    if p.movement_state != MoveState::Falling {
        return *p;
    }
    let pz: i64 = clamp_coord((p.last_tracked_segment.p1.z as i128) + (PROBE_LIFT as i128));
    let probe = LineSegment {
        p0: Vec3 { x: p.last_tracked_segment.p1.x, y: p.last_tracked_segment.p1.y, z: pz },
        p1: p.tracked_segment.p1,
    };
    match find_standing_surface(terrain, aabbs, &probe) {
        None => *p,
        Some((pt, normal)) => {
            proof {
                assert(0 <= 4 * normal.z * normal.z <= 4 * MAX_COORD as int * MAX_COORD as int)
                    by (nonlinear_arith)
                    requires
                        -MAX_COORD as int <= normal.z <= MAX_COORD as int,
                        MAX_COORD == 262144i64;
            }
            if normal.z >= 0 && 4 * (normal.z as i128) * (normal.z as i128) >= crate::vec3::dot(
                &normal,
                &normal,
            ) {
                let z: i64 = clamp_coord(
                    (p.tracking_position.z as i128) + (pt.z as i128) - (p.tracked_segment.p1.z
                        as i128),
                );
                Player {
                    tracking_position: Vec3 {
                        x: p.tracking_position.x,
                        y: p.tracking_position.y,
                        z,
                    },
                    tracking_velocity: Vec3 {
                        x: p.tracking_velocity.x,
                        y: p.tracking_velocity.y,
                        z: 0,
                    },
                    jumps_remaining: MAX_JUMPS,
                    movement_state: MoveState::Grounded,
                    ..*p
                }
            } else {
                *p
            }
        }
    }
}

/// One whole simulation tick: gravity acts on the velocity, a jump trigger
/// spends a jump and launches upward, the velocity moves the position, the
/// tick's capsule segment replaces last tick's, every terrain triangle
/// corrects the player once, in order, and a falling player finally lands
/// on the tallest surface under the probe.
pub open spec fn stick(
    p: Player,
    seg: LineSegment,
    dt: int,
    jump: bool,
    ter: Terrain,
    aabbs: Seq<AABB>,
) -> Player {
    let p1 = Player {
        tracking_velocity: sgravity(p.tracking_velocity, p.movement_state, dt),
        ..p
    };
    let p2 = if jump && p1.jumps_remaining > 0 {
        Player {
            jumps_remaining: (p1.jumps_remaining - 1) as u32,
            tracking_velocity: Vec3 {
                x: p1.tracking_velocity.x,
                y: p1.tracking_velocity.y,
                z: JUMP_SPEED,
            },
            movement_state: MoveState::Falling,
            ..p1
        }
    } else {
        p1
    };
    let p3 = Player {
        tracking_position: sintegrate(p2.tracking_position, p2.tracking_velocity, dt),
        ..p2
    };
    let p4 = Player { last_tracked_segment: p3.tracked_segment, tracked_segment: seg, ..p3 };
    let p5 = scapsule_fold(p4, ter, ter.indices@.len() as int / 3);
    sland(p5, ter, aabbs)
}

/// Run one simulation tick: the caller supplies the capsule segment the
/// tracker reports for this tick, the elapsed milliseconds and the jump
/// trigger; the player comes back with corrected position, velocity,
/// movement state and jump count, exactly per `stick`.
pub fn player_tick(
    player: &mut Player,
    segment: LineSegment,
    dt: i64,
    jump: bool,
    terrain: &Terrain,
    aabbs: &Vec<AABB>,
)
    requires
        player_wf(*old(player)),
        twf(*terrain),
        forall|i: int| 0 <= i < aabbs@.len() ==> crate::shapes::aabb_wf(#[trigger] aabbs@[i]),
        0 <= dt <= 10 * TIME_ONE,
        seg_in_bounds(segment, MAX_COORD as int),
        segment.p1.z + old(player).radius <= MAX_COORD,
    ensures
        *final(player) == stick(*old(player), segment, dt as int, jump, *terrain, aabbs@),
        player_wf(*final(player)),
{
    apply_gravity(player, dt);
    if jump {
        try_jump(player);
    }
    update_tracking_position(player, dt);
    player.last_tracked_segment = player.tracked_segment;
    player.tracked_segment = segment;
    let resolved: Player = resolve_capsule_terrain(player, terrain);
    let landed: Player = try_land(&resolved, terrain, aabbs);
    *player = landed;
}

/// Steep face contact is a pure depenetration: with a wall-like normal (not
/// floor-like; in particular a vertical face, `normal.z == 0`) the step
/// leaves the velocity, the jump count and the movement state untouched,
/// and with `normal.z == 0` it moves the capsule only horizontally.
pub proof fn lemma_wall_contact_preserves_motion(p: Player, tri: Triangle)
    requires
        player_wf(p),
        tri_ok(tri),
        srobust_in_tri(pp_point(scapsule_ref(p, tri), tri_plane_spec(tri)), tri),
        sdot_sub(tri.normal, scapsule_ref(p, tri), tri.a) * sdot_sub(
            tri.normal,
            scapsule_ref(p, tri),
            tri.a,
        ) < p.radius * p.radius * snorm_sq(tri.normal),
        !floor_like(tri.normal),
    ensures
        scapsule_step(p, tri).tracking_velocity == p.tracking_velocity,
        scapsule_step(p, tri).jumps_remaining == p.jumps_remaining,
        scapsule_step(p, tri).movement_state == p.movement_state,
        tri.normal.z == 0 ==> scapsule_step(p, tri).tracking_position.z
            == p.tracking_position.z,
{
    let nn = snorm_sq(tri.normal);
    if tri.normal.z == 0 {
        assert(div_away_spec(0 * (p.radius * sqrt_floor(nn) - sdot_sub(
            tri.normal,
            scapsule_ref(p, tri),
            tri.a,
        )), nn) == 0) by {
            vstd::arithmetic::div_mod::lemma_basic_div(nn - 1, nn);
        }
    }
}

/// Floor-like face contact grounds the player: the velocity is zeroed in
/// full, the jump count refills, and the state becomes grounded.
pub proof fn lemma_floor_contact_grounds(p: Player, tri: Triangle)
    requires
        player_wf(p),
        tri_ok(tri),
        srobust_in_tri(pp_point(scapsule_ref(p, tri), tri_plane_spec(tri)), tri),
        sdot_sub(tri.normal, scapsule_ref(p, tri), tri.a) * sdot_sub(
            tri.normal,
            scapsule_ref(p, tri),
            tri.a,
        ) < p.radius * p.radius * snorm_sq(tri.normal),
        floor_like(tri.normal),
    ensures
        scapsule_step(p, tri).tracking_velocity == (Vec3 { x: 0, y: 0, z: 0 }),
        scapsule_step(p, tri).jumps_remaining == MAX_JUMPS,
        scapsule_step(p, tri).movement_state == MoveState::Grounded,
        scapsule_step(p, tri).tracking_position.x == p.tracking_position.x,
        scapsule_step(p, tri).tracking_position.y == p.tracking_position.y,
{
}

} // verus!
