use voxel_core::block::Block;
use voxel_core::chunk::Chunk;
use voxel_core::components::{Collider, OnGround, Position, Velocity};
use voxel_core::geom::{Aabb, Vec3};
use voxel_core::mymath::{BlockPosInChunk, ChunkPos};
use voxel_core::systems::{CandidatePair, CollisionHandler};
use voxel_core::world::World;

fn vec3(x: i64, y: i64, z: i64) -> Vec3 {
    Vec3 { x, y, z }
}

fn aabb(min: Vec3, max: Vec3) -> Aabb {
    Aabb { min, max }
}

fn pair(b: Aabb) -> CandidatePair {
    CandidatePair { aabb: b, extended: b }
}

/// A floor slab whose top face is at one block height.
fn floor_box() -> Aabb {
    aabb(vec3(0, 0, 0), vec3(10_000, 1000, 10_000))
}

fn entity_collider() -> Collider {
    Collider(vec3(150, 450, 150))
}

#[test]
fn zero_velocity_is_returned_unchanged_in_one_pass() {
    // A zero-length ray reaches no box boundary: no candidate is hit,
    // whatever static boxes stand around the entity.
    let boxes = vec![
        floor_box(),
        aabb(vec3(-5000, 0, -5000), vec3(-4000, 9000, 5000)),
    ];
    let pos = Position(vec3(5000, 1460, 5000));
    let mut vel = Velocity(vec3(0, 0, 0));
    let mut on_ground = OnGround(false);
    CollisionHandler::resolve(&boxes, &entity_collider(), &pos, &mut vel, &mut on_ground, 1);
    assert_eq!(vel.0, vec3(0, 0, 0));
}

#[test]
fn zero_velocity_pass_reports_no_hit() {
    let pairs = vec![pair(floor_box())];
    let pos = Position(vec3(5000, 2000, 5000));
    let mut vel = Velocity(vec3(0, 0, 0));
    let ebox = aabb(vec3(4850, 1550, 4850), vec3(5150, 2450, 5150));
    let hit = CollisionHandler::get_adjusted_vel(&pairs, &pos, &mut vel, 1, &ebox);
    assert!(!hit);
    assert_eq!(vel.0, vec3(0, 0, 0));
}

#[test]
fn diagonal_wall_slide_keeps_the_tangential_component() {
    // An entity moving diagonally toward a wall along the x axis: the
    // velocity component along the wall's normal is removed, the
    // tangential component kept exactly.
    let wall = aabb(vec3(1000, 0, -5000), vec3(2000, 1000, 5000));
    let boxes = vec![wall];
    let pos = Position(vec3(500, 500, 500));
    let mut vel = Velocity(vec3(1000, 0, 1000));
    let mut on_ground = OnGround(true);
    CollisionHandler::resolve(&boxes, &entity_collider(), &pos, &mut vel, &mut on_ground, 1);
    assert_eq!(vel.0, vec3(0, 0, 1000));
    assert!(!on_ground.0);
}

#[test]
fn corner_tie_gives_a_diagonal_hit_that_stops_the_entity() {
    // The ray meets the extended box exactly at its corner: the entry is
    // shared by two faces, the normal is opposite to the velocity, and the
    // slide response removes the whole velocity.
    let corner_box = aabb(vec3(500, 500, -100), vec3(1500, 1500, 100));
    let pairs = vec![pair(corner_box)];
    let pos = Position(vec3(0, 0, 0));
    let mut vel = Velocity(vec3(1000, 1000, 0));
    let ebox = aabb(vec3(0, 0, 0), vec3(0, 0, 0));
    let hit = CollisionHandler::get_adjusted_vel(&pairs, &pos, &mut vel, 1, &ebox);
    assert!(hit);
    assert_eq!(vel.0, vec3(0, 0, 0));
}

#[test]
fn first_candidate_wins_a_time_of_impact_tie() {
    let wall_x = aabb(vec3(500, -10_000, -10_000), vec3(1500, 10_000, 10_000));
    let wall_y = aabb(vec3(-10_000, 500, -10_000), vec3(10_000, 1500, 10_000));
    let pos = Position(vec3(0, 0, 0));
    let ebox = aabb(vec3(0, 0, 0), vec3(0, 0, 0));

    // Both walls are met at the same time of impact; the earlier candidate
    // decides the normal, so only the x component is removed here.
    let pairs = vec![pair(wall_x), pair(wall_y)];
    let mut vel = Velocity(vec3(1000, 1000, 0));
    assert!(CollisionHandler::get_adjusted_vel(&pairs, &pos, &mut vel, 1, &ebox));
    assert_eq!(vel.0, vec3(0, 1000, 0));

    // In the opposite order the y component is removed first.
    let pairs_rev = vec![pair(wall_y), pair(wall_x)];
    let mut vel_rev = Velocity(vec3(1000, 1000, 0));
    assert!(CollisionHandler::get_adjusted_vel(&pairs_rev, &pos, &mut vel_rev, 1, &ebox));
    assert_eq!(vel_rev.0, vec3(1000, 0, 0));
}

#[test]
fn sliding_into_a_second_wall_stops_both_components() {
    // Sliding along the first wall leads straight into a second,
    // non-parallel wall: the fixed-point iteration removes both
    // components, one pass each.
    let wall_x = aabb(vec3(1000, 0, -5000), vec3(2000, 1000, 5000));
    let wall_z = aabb(vec3(-5000, 0, 1000), vec3(5000, 1000, 2000));
    let boxes = vec![wall_x, wall_z];
    let pos = Position(vec3(500, 500, 500));
    let mut vel = Velocity(vec3(1000, 0, 1000));
    let mut on_ground = OnGround(false);
    CollisionHandler::resolve(&boxes, &entity_collider(), &pos, &mut vel, &mut on_ground, 1);
    assert_eq!(vel.0, vec3(0, 0, 0));
}

#[test]
fn ground_contact_near_the_floor() {
    // One raw step above exact touch: the downward probe, whose reach is
    // its displacement over one tick, still meets the floor.
    let boxes = vec![floor_box()];
    let pos = Position(vec3(5000, 1451, 5000));
    let mut vel = Velocity(vec3(0, 0, 0));
    let mut on_ground = OnGround(false);
    CollisionHandler::resolve(&boxes, &entity_collider(), &pos, &mut vel, &mut on_ground, 1);
    assert!(on_ground.0);
}

#[test]
fn ground_contact_when_exactly_touching_counts_as_overlap() {
    // The entity's bottom face exactly touches the floor's top face: its
    // position lies on the boundary of the extended floor box, which
    // counts as already overlapping, so the probe skips the floor and no
    // ground contact is reported.
    let boxes = vec![floor_box()];
    let pos = Position(vec3(5000, 1450, 5000));
    let mut vel = Velocity(vec3(0, 0, 0));
    let mut on_ground = OnGround(true);
    CollisionHandler::resolve(&boxes, &entity_collider(), &pos, &mut vel, &mut on_ground, 1);
    assert!(!on_ground.0);
}

#[test]
fn ground_contact_is_bounded_by_the_probe_reach() {
    // Ten raw steps above the floor: the tiny downward probe moves one raw
    // step per tick and its swept box does not reach the floor, so no
    // ground contact is reported even though geometry is near below.
    let boxes = vec![floor_box()];
    let pos = Position(vec3(5000, 1460, 5000));
    let mut vel = Velocity(vec3(0, 0, 0));
    let mut on_ground = OnGround(true);
    CollisionHandler::resolve(&boxes, &entity_collider(), &pos, &mut vel, &mut on_ground, 1);
    assert!(!on_ground.0);
}

#[test]
fn falling_entity_stops_at_the_floor() {
    // Falling from fifty raw steps above touch: the pass removes the
    // downward velocity. The ground probe then runs from the projected
    // position, which with the velocity gone is the unchanged position,
    // still too far above the floor for the probe's one-step reach.
    let boxes = vec![floor_box()];
    let pos = Position(vec3(5000, 1500, 5000));
    let mut vel = Velocity(vec3(0, -100, 0));
    let mut on_ground = OnGround(true);
    CollisionHandler::resolve(&boxes, &entity_collider(), &pos, &mut vel, &mut on_ground, 1);
    assert_eq!(vel.0, vec3(0, 0, 0));
    assert!(!on_ground.0);
}

#[test]
fn falling_entity_one_step_above_touch_reports_ground_contact() {
    let boxes = vec![floor_box()];
    let pos = Position(vec3(5000, 1451, 5000));
    let mut vel = Velocity(vec3(0, -100, 0));
    let mut on_ground = OnGround(false);
    CollisionHandler::resolve(&boxes, &entity_collider(), &pos, &mut vel, &mut on_ground, 1);
    assert_eq!(vel.0, vec3(0, 0, 0));
    assert!(on_ground.0);
}

#[test]
fn no_hit_leaves_the_velocity_unchanged() {
    let boxes = vec![floor_box()];
    let pos = Position(vec3(5000, 5000, 5000));
    let mut vel = Velocity(vec3(70, 80, 90));
    let mut on_ground = OnGround(true);
    CollisionHandler::resolve(&boxes, &entity_collider(), &pos, &mut vel, &mut on_ground, 1);
    assert_eq!(vel.0, vec3(70, 80, 90));
    assert!(!on_ground.0);
}

#[test]
fn run_gathers_the_origin_chunk_from_the_world() {
    // A 16 by 16 floor of blocks in the origin chunk; the entity hovers
    // just above it.
    let mut world = World::new();
    let mut chunk = Chunk::new(ChunkPos::new(0, 0, 0));
    for x in 0..16u32 {
        for z in 0..16u32 {
            chunk.set_block(&Block::GrassBlock, &BlockPosInChunk::new(x, 0, z).unwrap());
        }
    }
    world.add_chunk(chunk).unwrap();

    let pos = Position(vec3(8000, 1451, 8000));
    let mut vel = Velocity(vec3(0, -5, 0));
    let mut on_ground = OnGround(false);
    CollisionHandler::run(&world, &entity_collider(), &pos, &mut vel, &mut on_ground, 1);
    assert_eq!(vel.0, vec3(0, 0, 0));
    assert!(on_ground.0);
}
