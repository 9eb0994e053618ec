//! The player entity: position, view angles, collider and ground flag.

use crate::components::{Angle2, Collider};
use crate::geom::Vec3;
use crate::mymath::Deg;
use vstd::prelude::*;

verus! {

/// A player: spawned at a fixed point above the demonstration chunk, with
/// a collider narrower and shorter than one block.
pub struct Player {
    pub pos: Vec3,
    pub angle: Angle2,
    pub collider: Collider,
    pub on_ground: bool,
}

impl Default for Player {
    /// The freshly spawned player: standing at four blocks east and south
    /// and two and a half up, facing 225 degrees of pitch with level yaw,
    /// not yet on the ground.
    fn default() -> (r: Player)
        ensures
            r.pos == (Vec3 { x: 4000i64, y: 2500i64, z: 4000i64 }),
            r.angle.pitch() == Deg(225_000i64),
            r.angle.yaw() == Deg(0i64),
            r.collider.0 == (Vec3 { x: 150i64, y: 450i64, z: 150i64 }),
            r.on_ground == false,
    {
        Player {
            pos: Vec3 { x: 4000, y: 2500, z: 4000 },
            angle: Angle2::new(Deg(225_000), Deg(0)),
            collider: Collider(Vec3 { x: 150, y: 450, z: 150 }),
            on_ground: false,
        }
    }
}

} // verus!
