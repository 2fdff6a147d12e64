//! Capsule and camera resolution scenarios: walls, floors, landing, the
//! movement state machine, and the camera push-out.

use collision_core::vec3::Vec3;
use collision_core::shapes::{LineSegment, AABB, Triangle};
use collision_core::terrain::Terrain;
use collision_core::player::{
    Player, MoveState, MAX_JUMPS, JUMP_SPEED, GRAVITY_VELOCITY_CAP, resolve_capsule_triangle,
    resolve_capsule_terrain, apply_gravity, update_tracking_position, try_jump,
    reset_player_position, set_player_falling, try_land, find_standing_surface, player_tick,
};
use collision_core::camera::{
    camera_vs_aabb, camera_vs_triangle, camera_vs_terrain, closest_point_on_aabb,
    clamp_camera_floor,
};

fn v(x: i64, y: i64, z: i64) -> Vec3 {
    Vec3 { x, y, z }
}

fn player_at(pos: Vec3, vel: Vec3, head: Vec3, foot: Vec3, state: MoveState) -> Player {
    Player {
        tracking_position: pos,
        tracking_velocity: vel,
        tracked_segment: LineSegment { p0: head, p1: foot },
        last_tracked_segment: LineSegment { p0: head, p1: foot },
        radius: 15,
        jumps_remaining: 1,
        movement_state: state,
    }
}

/// A single horizontal triangle at z = 0 spanning a ten-by-ten footprint.
fn floor_terrain() -> Terrain {
    Terrain::new(
        vec![v(-500, -500, 0), v(500, -500, 0), v(0, 500, 0)],
        vec![0, 1, 2],
        vec![v(0, 0, 1)],
    )
    .unwrap()
}

/// A vertical wall in the YZ plane at x = 0, facing +X.
fn wall_triangle() -> Triangle {
    Triangle { a: v(0, -100, 0), b: v(0, 100, 0), c: v(0, 0, 200), normal: v(1, 0, 0) }
}

#[test]
fn wall_contact_pushes_horizontally_only() {
    // capsule axis at x = 10, radius 15: penetrating the wall by 5
    let p = player_at(
        v(0, 0, 0),
        v(-300, 0, -40),
        v(10, 0, 100),
        v(10, 0, 0),
        MoveState::Falling,
    );
    let r = resolve_capsule_triangle(&p, &wall_triangle());
    // pushed out along the wall normal by the remaining penetration
    assert_eq!(r.tracking_position, v(5, 0, 0));
    // vertical velocity, jump count and state untouched
    assert_eq!(r.tracking_velocity, p.tracking_velocity);
    assert_eq!(r.jumps_remaining, p.jumps_remaining);
    assert_eq!(r.movement_state, p.movement_state);
}

#[test]
fn floor_contact_grounds_and_zeroes_velocity() {
    // foot dips below the floor plane: capsule bottom at z = -10 + ... the
    // sphere focus ends 5 over the plane, within the radius of 15
    let p = player_at(
        v(0, 0, 0),
        v(40, 0, -300),
        v(0, 0, 180),
        v(0, 0, -10),
        MoveState::Falling,
    );
    let tri = Triangle {
        a: v(-500, -500, 0),
        b: v(500, -500, 0),
        c: v(0, 500, 0),
        normal: v(0, 0, 1),
    };
    let r = resolve_capsule_triangle(&p, &tri);
    // snapped up so the capsule just touches: focus at 5, radius 15: +10
    assert_eq!(r.tracking_position, v(0, 0, 10));
    assert_eq!(r.tracking_velocity, v(0, 0, 0));
    assert_eq!(r.jumps_remaining, MAX_JUMPS);
    assert_eq!(r.movement_state, MoveState::Grounded);
}

#[test]
fn capsule_clear_of_everything_is_untouched() {
    let p = player_at(
        v(0, 0, 0),
        v(0, 0, -100),
        v(0, 0, 500),
        v(0, 0, 300),
        MoveState::Falling,
    );
    let r = resolve_capsule_terrain(&p, &floor_terrain());
    assert_eq!(r, p);
}

#[test]
fn falling_capsule_lands_on_floor_after_one_tick() {
    // radius 0.15, falling straight down at five units per second onto the
    // floor at z = 0; one second of fall crosses the plane
    let mut p = player_at(
        v(0, 0, 100),
        v(0, 0, -500),
        v(0, 0, 280),
        v(0, 0, 100),
        MoveState::Falling,
    );
    let terrain = floor_terrain();
    let aabbs: Vec<AABB> = Vec::new();
    apply_gravity(&mut p, 1000);
    assert_eq!(p.tracking_velocity, v(0, 0, -2500));
    update_tracking_position(&mut p, 1000);
    assert_eq!(p.tracking_position, v(0, 0, -2400));
    // the tick's capsule segment follows the tracking position
    p.tracked_segment = LineSegment { p0: v(0, 0, -2220), p1: v(0, 0, -2400) };
    let resolved = resolve_capsule_terrain(&p, &terrain);
    let landed = try_land(&resolved, &terrain, &aabbs);
    // the foot is clamped to the surface: tracking z returns to exactly 0
    assert_eq!(landed.tracking_position.z, 0);
    assert_eq!(landed.movement_state, MoveState::Grounded);
    assert_eq!(landed.jumps_remaining, MAX_JUMPS);
    assert_eq!(landed.tracking_velocity.z, 0);
}

#[test]
fn whole_tick_lands_the_falling_capsule() {
    // the same drop driven through the single tick entry point
    let mut p = player_at(
        v(0, 0, 100),
        v(0, 0, -500),
        v(0, 0, 280),
        v(0, 0, 100),
        MoveState::Falling,
    );
    let terrain = floor_terrain();
    let segment = LineSegment { p0: v(0, 0, -2220), p1: v(0, 0, -2400) };
    player_tick(&mut p, segment, 1000, false, &terrain, &Vec::new());
    assert_eq!(p.tracking_position.z, 0);
    assert_eq!(p.movement_state, MoveState::Grounded);
    assert_eq!(p.jumps_remaining, MAX_JUMPS);
    assert_eq!(p.tracking_velocity.z, 0);
}

#[test]
fn whole_tick_jump_launches_upward() {
    let mut p = player_at(
        v(0, 0, 300),
        v(0, 0, 0),
        v(0, 0, 480),
        v(0, 0, 300),
        MoveState::Grounded,
    );
    let terrain = floor_terrain();
    let segment = p.tracked_segment;
    player_tick(&mut p, segment, 0, true, &terrain, &Vec::new());
    assert_eq!(p.tracking_velocity.z, JUMP_SPEED);
    assert_eq!(p.movement_state, MoveState::Falling);
    assert_eq!(p.jumps_remaining, 0);
}

#[test]
fn landing_search_takes_the_tallest_surface() {
    // two overlapping box tops at z = 200 and z = 500, both crossed by the
    // probe: the player stands on the higher one
    let terrain = Terrain::new(Vec::new(), Vec::new(), Vec::new()).unwrap();
    let aabbs = vec![
        AABB { position: v(0, 0, 100), width: 300, depth: 300, height: 100 },
        AABB { position: v(0, 0, 400), width: 300, depth: 300, height: 100 },
    ];
    let probe = LineSegment { p0: v(0, 0, 600), p1: v(0, 0, -100) };
    let (point, normal) = find_standing_surface(&terrain, &aabbs, &probe).unwrap();
    assert_eq!(point.z, 500);
    assert_eq!(normal, v(0, 0, 1));
    let reversed = vec![aabbs[1], aabbs[0]];
    let (point2, _) = find_standing_surface(&terrain, &reversed, &probe).unwrap();
    assert_eq!(point2.z, 500);
}

#[test]
fn landing_search_sees_terrain_too() {
    let terrain = floor_terrain();
    let aabbs: Vec<AABB> = Vec::new();
    let probe = LineSegment { p0: v(0, 0, 100), p1: v(0, 0, -100) };
    let (point, normal) = find_standing_surface(&terrain, &aabbs, &probe).unwrap();
    assert_eq!(point, v(0, 0, 0));
    assert_eq!(normal, v(0, 0, 1));
}

#[test]
fn grounded_player_does_not_land_again() {
    let p = player_at(
        v(0, 0, 0),
        v(0, 0, 0),
        v(0, 0, 180),
        v(0, 0, 0),
        MoveState::Grounded,
    );
    let r = try_land(&p, &floor_terrain(), &Vec::new());
    assert_eq!(r, p);
}

#[test]
fn gravity_applies_only_when_not_grounded() {
    let mut p = player_at(v(0, 0, 0), v(7, 8, 0), v(0, 0, 180), v(0, 0, 0), MoveState::Falling);
    apply_gravity(&mut p, 500);
    assert_eq!(p.tracking_velocity, v(7, 8, -1000));
    let mut g = player_at(v(0, 0, 0), v(7, 8, 0), v(0, 0, 180), v(0, 0, 0), MoveState::Grounded);
    apply_gravity(&mut g, 500);
    assert_eq!(g.tracking_velocity, v(7, 8, 0));
}

#[test]
fn gravity_caps_upward_velocity() {
    let mut p = player_at(
        v(0, 0, 0),
        v(0, 0, 5000),
        v(0, 0, 180),
        v(0, 0, 0),
        MoveState::Falling,
    );
    apply_gravity(&mut p, 1000);
    assert_eq!(p.tracking_velocity.z, GRAVITY_VELOCITY_CAP);
}

#[test]
fn jump_spends_a_jump_and_forces_falling() {
    let mut p = player_at(
        v(0, 0, 0),
        v(10, 20, 0),
        v(0, 0, 180),
        v(0, 0, 0),
        MoveState::Grounded,
    );
    p.jumps_remaining = 2;
    try_jump(&mut p);
    assert_eq!(p.jumps_remaining, 1);
    assert_eq!(p.tracking_velocity, v(10, 20, JUMP_SPEED));
    assert_eq!(p.movement_state, MoveState::Falling);
}

#[test]
fn jump_with_none_left_is_a_no_op() {
    let mut p = player_at(
        v(0, 0, 0),
        v(10, 20, -30),
        v(0, 0, 180),
        v(0, 0, 0),
        MoveState::Falling,
    );
    p.jumps_remaining = 0;
    let before = p;
    try_jump(&mut p);
    assert_eq!(p, before);
}

#[test]
fn capsule_extends_the_segment_by_one_radius() {
    let p = player_at(
        v(0, 0, 0),
        v(0, 0, 0),
        v(3, 4, 180),
        v(3, 4, 5),
        MoveState::Grounded,
    );
    let c = p.capsule();
    assert_eq!(c.segment.p0, v(3, 4, 180));
    assert_eq!(c.segment.p1, v(3, 4, 20));
    assert_eq!(c.radius, 15);
}

#[test]
fn reset_returns_to_spawn() {
    let mut p = player_at(
        v(99, 98, 97),
        v(1, 2, 3),
        v(5, 5, 180),
        v(5, 5, 0),
        MoveState::Grounded,
    );
    reset_player_position(&mut p);
    assert_eq!(p.tracking_position, v(0, 0, 300));
    assert_eq!(p.tracking_velocity, v(0, 0, 0));
    assert_eq!(p.tracked_segment, LineSegment::zero());
    assert_eq!(p.jumps_remaining, MAX_JUMPS);
    assert_eq!(p.movement_state, MoveState::Falling);
    set_player_falling(&mut p);
    assert_eq!(p.movement_state, MoveState::Falling);
}

#[test]
fn camera_is_pushed_back_out_of_a_box() {
    // camera sphere of radius 0.2 approaching a unit box along +X: once
    // within 0.2 of the surface it is pushed back to exactly 0.2 away
    let aabb = AABB { position: v(0, 0, 0), width: 100, depth: 100, height: 100 };
    let cam = v(110, 0, 0);
    let r = camera_vs_aabb(&cam, &v(200, 0, 0), &aabb, 20);
    assert_eq!(r, v(120, 0, 0));
    // and never left overlapping: exactly the hit radius from the box
    let c = closest_point_on_aabb(&r, &aabb);
    assert_eq!(c, v(100, 0, 0));
    let d = r.x - c.x;
    assert!(d >= 20);
}

#[test]
fn camera_outside_reach_is_untouched() {
    let aabb = AABB { position: v(0, 0, 0), width: 100, depth: 100, height: 100 };
    let cam = v(130, 0, 0);
    assert_eq!(camera_vs_aabb(&cam, &v(200, 0, 0), &aabb, 20), cam);
}

#[test]
fn tunneled_camera_is_recovered_through_the_face_it_crossed() {
    // the camera ended exactly at the box center: fall back to the segment
    // from its previous position and stand it one radius off that face
    let aabb = AABB { position: v(0, 0, 0), width: 100, depth: 100, height: 100 };
    let r = camera_vs_aabb(&v(0, 0, 0), &v(200, 0, 0), &aabb, 20);
    assert_eq!(r, v(120, 0, 0));
}

#[test]
fn camera_floor_clamp_holds_the_radius() {
    assert_eq!(clamp_camera_floor(&v(3, 4, 5), 20), v(3, 4, 20));
    assert_eq!(clamp_camera_floor(&v(3, 4, 50), 20), v(3, 4, 50));
}

#[test]
fn camera_pushed_off_a_terrain_face() {
    let tri = Triangle {
        a: v(-500, -500, 0),
        b: v(500, -500, 0),
        c: v(0, 500, 0),
        normal: v(0, 0, 1),
    };
    let r = camera_vs_triangle(&v(0, 0, 10), &tri, 20);
    assert_eq!(r, v(0, 0, 20));
    let terrain = floor_terrain();
    let r2 = camera_vs_terrain(&v(0, 0, 10), &terrain, 20);
    assert_eq!(r2, v(0, 0, 20));
}

#[test]
fn camera_pushed_away_from_a_terrain_edge() {
    let tri = Triangle {
        a: v(-500, -500, 0),
        b: v(500, -500, 0),
        c: v(0, 500, 0),
        normal: v(0, 0, 1),
    };
    // beyond the b-c edge region near the vertex, within the radius
    let r = camera_vs_triangle(&v(510, -500, 0), &tri, 20);
    // pushed along +X away from the vertex at (500, -500, 0)
    assert_eq!(r, v(520, -500, 0));
}
