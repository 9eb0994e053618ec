//! The camera: derives the eye point of the view from the player's
//! position. The view matrix itself is floating-point work for the render
//! layer, which builds it from this eye point, the player's facing
//! direction and the up direction.

use crate::components::Position;
use crate::geom::{vec_within, Vec3, ENTITY_POS_LIMIT};
use vstd::prelude::*;

verus! {

/// How far the eye stands above the player's position, raw steps.
pub const PLAYER_EYE_HEIGHT: i64 = 300;

/// Derives camera geometry from player state.
pub struct CameraComputer {}

impl CameraComputer {
    pub fn new() -> (r: CameraComputer)
        ensures
            r == (CameraComputer {  }),
    {
        CameraComputer {}
    }

    /// The eye point of the view: the player's position raised by the eye
    /// height.
    pub fn eye_position(&self, pos: &Position) -> (r: Vec3)
        requires
            vec_within(pos.0, ENTITY_POS_LIMIT as int),
        ensures
            r.x == pos.0.x,
            r.y == pos.0.y + PLAYER_EYE_HEIGHT,
            r.z == pos.0.z,
    {
        proof {
            crate::geom::lemma_axes(pos.0);
        }
        Vec3 { x: pos.0.x, y: pos.0.y + PLAYER_EYE_HEIGHT, z: pos.0.z }
    }
}

} // verus!
