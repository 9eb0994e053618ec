//! Per-entity kinematic state: position, velocity, acceleration, view
//! angles, collider shape, ground contact, and the per-tick input snapshot.

use crate::geom::Vec3;
use crate::mymath::Deg;
use vstd::prelude::*;

verus! {

/// Downward gravity magnitude, raw steps per tick unit squared.
pub const GRAVITY: i64 = 10;

/// An entity's position: the center of its collider.
#[derive(Clone, Copy, PartialEq, Eq, Structural, Debug)]
pub struct Position(pub Vec3);

impl Position {
    pub fn new(point: Vec3) -> (r: Self)
        ensures
            r.0 == point,
    {
        Self(point)
    }
}

/// An entity's velocity, raw steps per tick unit.
#[derive(Clone, Copy, PartialEq, Eq, Structural, Debug)]
pub struct Velocity(pub Vec3);

impl Default for Velocity {
    fn default() -> (r: Self)
        ensures
            r.0 == (Vec3 { x: 0i64, y: 0i64, z: 0i64 }),
    {
        Velocity(Vec3 { x: 0, y: 0, z: 0 })
    }
}

/// An entity's acceleration, raw steps per tick unit squared.
#[derive(Clone, Copy, PartialEq, Eq, Structural, Debug)]
pub struct Acceleration(pub Vec3);

impl Acceleration {
    /// The acceleration of free fall: straight down at `GRAVITY`.
    pub fn gravity() -> (r: Acceleration)
        ensures
            r.0.x == 0,
            r.0.y == -GRAVITY,
            r.0.z == 0,
    {
        Acceleration(Vec3 { x: 0, y: -GRAVITY, z: 0 })
    }
}

/// An entity's collider: an axis-aligned box described by its half-extents,
/// centered on the entity's position.
#[derive(Clone, Copy, PartialEq, Eq, Structural, Debug)]
pub struct Collider(pub Vec3);

/// Whether the resolver found geometry immediately below the entity's
/// projected position this tick.
#[derive(Clone, Copy, PartialEq, Eq, Structural, Debug)]
pub struct OnGround(pub bool);

/// The input snapshot of one tick: the mouse movement since the last tick.
#[derive(Clone, Copy, PartialEq, Eq, Structural, Debug)]
pub struct Input {
    pub mouse_delta_x: i32,
    pub mouse_delta_y: i32,
}

impl Input {
    pub fn new() -> (r: Self)
        ensures
            r.mouse_delta_x == 0,
            r.mouse_delta_y == 0,
    {
        Self { mouse_delta_x: 0, mouse_delta_y: 0 }
    }
}

/// An entity's view angles: pitch and yaw.
///
/// The derived front, right and up unit vectors are trigonometric and live
/// with the render layer, which recomputes them eagerly from these two
/// angles on every change, never caching them across a change.
#[derive(Clone, Copy, PartialEq, Eq, Structural, Debug)]
pub struct Angle2 {
    pitch: Deg,
    yaw: Deg,
}

impl Angle2 {
    pub fn new(pitch: Deg, yaw: Deg) -> (r: Self)
        ensures
            r.pitch() == pitch,
            r.yaw() == yaw,
    {
        Self { pitch, yaw }
    }

    pub fn set(&mut self, pitch: Deg, yaw: Deg)
        ensures
            final(self).pitch() == pitch,
            final(self).yaw() == yaw,
    {
        self.pitch = pitch;
        self.yaw = yaw;
    }

    #[verifier::when_used_as_spec(spec_pitch)]
    pub fn pitch(&self) -> (r: Deg)
        ensures
            r == self.spec_pitch(),
    {
        self.pitch
    }

    pub closed spec fn spec_pitch(&self) -> Deg {
        self.pitch
    }

    #[verifier::when_used_as_spec(spec_yaw)]
    pub fn yaw(&self) -> (r: Deg)
        ensures
            r == self.spec_yaw(),
    {
        self.yaw
    }

    pub closed spec fn spec_yaw(&self) -> Deg {
        self.yaw
    }
}

} // verus!
