//! Cross-checks of the exact fixed-point geometry against a
//! floating-point collision library on the same shapes: the boxes, point
//! containment, and the bounded solid ray cast with entry normals agree
//! wherever the float arithmetic is exact enough to compare.

use parry3d::bounding_volume::{Aabb as FloatAabb, BoundingVolume};
use parry3d::math::Vector as FloatVector;
use parry3d::query::{Ray, RayCast};

use voxel_core::components::{Position, Velocity};
use voxel_core::geom::{Aabb, Vec3, SCALE};
use voxel_core::ray::{cast_ray, HitNormal};
use voxel_core::systems::{CandidatePair, CollisionHandler};

fn vec3(x: i64, y: i64, z: i64) -> Vec3 {
    Vec3 { x, y, z }
}

fn to_float(v: &Vec3) -> FloatVector {
    FloatVector::new(
        v.x as f32 / SCALE as f32,
        v.y as f32 / SCALE as f32,
        v.z as f32 / SCALE as f32,
    )
}

fn to_float_box(b: &Aabb) -> FloatAabb {
    FloatAabb::new(to_float(&b.min), to_float(&b.max))
}

/// Casts with both implementations and compares the outcome: hit or miss,
/// the time of impact within a float tolerance, and the normal direction.
fn compare_cast(origin: Vec3, dir: Vec3, b: Aabb) {
    let ours = cast_ray(&origin, &dir, &b, 50);
    let theirs = to_float_box(&b).cast_local_ray_and_get_normal(
        &Ray::new(to_float(&origin), to_float(&dir)),
        50.0,
        true,
    );
    match (ours, theirs) {
        (None, None) => {}
        (Some(hit), Some(float_hit)) => {
            let toi = hit.toi_num as f64 / hit.toi_den as f64;
            assert!(
                (toi - float_hit.time_of_impact as f64).abs() < 1e-4,
                "time of impact differs: {} vs {}",
                toi,
                float_hit.time_of_impact
            );
            match hit.normal {
                HitNormal::Axis { axis, negative } => {
                    let expected = if negative { -1.0 } else { 1.0 };
                    let n = [float_hit.normal.x, float_hit.normal.y, float_hit.normal.z];
                    assert!((n[axis] - expected).abs() < 1e-5);
                    for k in 0..3 {
                        if k != axis {
                            assert!(n[k].abs() < 1e-5);
                        }
                    }
                }
                HitNormal::Diagonal => {
                    // The float library reports the normalized opposite of
                    // the ray direction for a shared-corner entry.
                    let d = to_float(&dir).normalize();
                    assert!((float_hit.normal.x + d.x).abs() < 1e-5);
                    assert!((float_hit.normal.y + d.y).abs() < 1e-5);
                    assert!((float_hit.normal.z + d.z).abs() < 1e-5);
                }
            }
        }
        (ours, theirs) => {
            panic!("hit outcomes differ: {:?} vs {:?}", ours, theirs)
        }
    }
}

#[test]
fn ray_cast_agrees_on_a_straight_hit() {
    let b = Aabb { min: vec3(1000, 0, -5000), max: vec3(2000, 1000, 5000) };
    compare_cast(vec3(500, 500, 500), vec3(1000, 0, 1000), b);
}

#[test]
fn ray_cast_agrees_on_hits_from_every_side() {
    let b = Aabb { min: vec3(-500, -500, -500), max: vec3(500, 500, 500) };
    compare_cast(vec3(2000, 0, 0), vec3(-1000, 0, 0), b);
    compare_cast(vec3(-2000, 0, 0), vec3(1000, 0, 0), b);
    compare_cast(vec3(0, 2000, 0), vec3(0, -1000, 0), b);
    compare_cast(vec3(0, -2000, 0), vec3(0, 1000, 0), b);
    compare_cast(vec3(0, 0, 2000), vec3(0, 0, -1000), b);
    compare_cast(vec3(0, 0, -2000), vec3(0, 0, 1000), b);
}

#[test]
fn ray_cast_agrees_on_oblique_hits_and_misses() {
    let b = Aabb { min: vec3(1000, 1000, 1000), max: vec3(2000, 2000, 2000) };
    // An oblique hit through the near face.
    compare_cast(vec3(0, 1250, 1250), vec3(2000, 500, 250), b);
    // Moving away from the box.
    compare_cast(vec3(0, 0, 0), vec3(-1000, -1000, 0), b);
    // Parallel to the box on an outside lane.
    compare_cast(vec3(0, 0, 0), vec3(0, 0, 1000), b);
    // Too far for the bounded cast.
    compare_cast(vec3(0, 1500, 1500), vec3(10, 0, 0), b);
}

#[test]
fn ray_cast_agrees_on_a_shared_corner_entry() {
    let b = Aabb { min: vec3(500, 500, -100), max: vec3(1500, 1500, 100) };
    compare_cast(vec3(0, 0, 0), vec3(1000, 1000, 0), b);
}

/// One resolver pass in floating point over the same candidate pairs:
/// skip candidates whose extended box already holds the position, skip
/// those the swept entity box misses, cast the bounded solid ray against
/// the rest, take the earliest hit, and remove the velocity component
/// along its normal.
fn float_pass(
    pairs: &[(FloatAabb, FloatAabb)],
    pos: FloatVector,
    vel: FloatVector,
    dt: f32,
    entity_aabb: &FloatAabb,
) -> (FloatVector, bool) {
    let swept = entity_aabb.merged(&FloatAabb::from_half_extents(
        pos + vel * dt,
        entity_aabb.half_extents(),
    ));
    let mut nearest_toi = f32::INFINITY;
    let mut nearest_normal: Option<FloatVector> = None;
    for (aabb, extended) in pairs {
        if extended.contains_local_point(pos) {
            continue;
        }
        if !swept.intersects(aabb) {
            continue;
        }
        if let Some(result) =
            extended.cast_local_ray_and_get_normal(&Ray::new(pos, vel), 50.0, true)
        {
            if result.time_of_impact < nearest_toi {
                nearest_toi = result.time_of_impact;
                nearest_normal = Some(result.normal);
            }
        }
    }
    match nearest_normal {
        Some(normal) => (vel - normal * vel.dot(normal), true),
        None => (vel, false),
    }
}

/// Runs one verified integer pass and the float pass above on the same
/// configuration and compares hit outcome and adjusted velocity.
fn compare_pass(boxes: &[Aabb], pos: Vec3, vel: Vec3, half_extents: Vec3) {
    let pairs: Vec<CandidatePair> = boxes
        .iter()
        .map(|b| CandidatePair { aabb: *b, extended: b.extended_by(&half_extents) })
        .collect();
    let ebox = Aabb {
        min: vec3(pos.x - half_extents.x, pos.y - half_extents.y, pos.z - half_extents.z),
        max: vec3(pos.x + half_extents.x, pos.y + half_extents.y, pos.z + half_extents.z),
    };
    let position = Position(pos);
    let mut velocity = Velocity(vel);
    let hit = CollisionHandler::get_adjusted_vel(&pairs, &position, &mut velocity, 1, &ebox);

    let float_pairs: Vec<(FloatAabb, FloatAabb)> = pairs
        .iter()
        .map(|p| (to_float_box(&p.aabb), to_float_box(&p.extended)))
        .collect();
    let (float_vel, float_hit) =
        float_pass(&float_pairs, to_float(&pos), to_float(&vel), 1.0, &to_float_box(&ebox));

    assert_eq!(hit, float_hit);
    let ours = to_float(&velocity.0);
    assert!((ours - float_vel).length() < 1e-4, "{:?} vs {:?}", ours, float_vel);
}

#[test]
fn resolver_pass_agrees_with_a_float_pass() {
    let half = vec3(150, 450, 150);
    let wall = Aabb { min: vec3(1000, 0, -5000), max: vec3(2000, 1000, 5000) };
    let floor = Aabb { min: vec3(0, 0, 0), max: vec3(10_000, 1000, 10_000) };

    // A diagonal wall hit that slides.
    compare_pass(&[wall], vec3(500, 500, 500), vec3(1000, 0, 1000), half);
    // A fall onto the floor.
    compare_pass(&[floor], vec3(5000, 2000, 5000), vec3(0, -750, 0), half);
    // Standing on the floor with zero velocity.
    compare_pass(&[floor], vec3(5000, 1451, 5000), vec3(0, 0, 0), half);
    // Exactly touching counts as overlap and is skipped by both.
    compare_pass(&[floor], vec3(5000, 1450, 5000), vec3(0, -250, 0), half);
    // Both obstacles at once.
    compare_pass(&[wall, floor], vec3(500, 1750, 500), vec3(500, -250, 500), half);
    // No obstacle in the way.
    compare_pass(&[wall, floor], vec3(5000, 5000, 5000), vec3(250, 250, 250), half);
}

#[test]
fn containment_agrees_on_the_boundary() {
    let b = Aabb { min: vec3(0, 0, 0), max: vec3(1000, 1000, 1000) };
    let float_box = to_float_box(&b);
    let on_face = vec3(500, 1000, 500);
    let inside = vec3(500, 999, 500);
    let outside = vec3(500, 1001, 500);
    assert!(b.contains_point(&on_face));
    assert!(float_box.contains_local_point(to_float(&on_face)));
    assert!(b.contains_point(&inside));
    assert!(float_box.contains_local_point(to_float(&inside)));
    assert!(!b.contains_point(&outside));
    assert!(!float_box.contains_local_point(to_float(&outside)));
}

#[test]
fn box_algebra_agrees_with_the_float_library() {
    let a = Aabb { min: vec3(-250, 0, 500), max: vec3(750, 1000, 1500) };
    let b = Aabb { min: vec3(500, 250, -500), max: vec3(2500, 750, 750) };
    let fa = to_float_box(&a);
    let fb = to_float_box(&b);

    assert_eq!(a.intersects(&b), fa.intersects(&fb));
    let far = Aabb { min: vec3(5000, 5000, 5000), max: vec3(6000, 6000, 6000) };
    assert_eq!(a.intersects(&far), fa.intersects(&to_float_box(&far)));

    let merged = a.merged(&b);
    let fmerged = fa.merged(&fb);
    assert_eq!(to_float_box(&merged).mins, fmerged.mins);
    assert_eq!(to_float_box(&merged).maxs, fmerged.maxs);

    let grown = a.extended_by(&vec3(150, 450, 150));
    let fgrown = FloatAabb::from_half_extents(
        fa.center(),
        fa.half_extents() + FloatVector::new(0.15, 0.45, 0.15),
    );
    assert!((to_float_box(&grown).mins - fgrown.mins).length() < 1e-4);
    assert!((to_float_box(&grown).maxs - fgrown.maxs).length() < 1e-4);
}
