//! Fixed-point vectors and axis-aligned bounding boxes.
//!
//! One world unit is `SCALE` raw steps, so a block is `SCALE` raw steps
//! wide. All operations are exact integer arithmetic; the bounds below
//! keep every intermediate value inside `i64`.

use vstd::prelude::*;

verus! {

/// Raw steps per world unit.
pub const SCALE: i64 = 1000;

/// Upper bound on the raw time-of-impact parameter of a collision ray,
/// in tick units.
pub const MAX_TOI: i64 = 50;

/// Largest admitted magnitude of a velocity component, raw steps per tick unit.
pub const VEL_LIMIT: i64 = 1_000_000_000_000;

/// Largest admitted tick duration, in tick units.
pub const TICK_LIMIT: u32 = 1_000_000;

/// Largest admitted magnitude of a coordinate of a static collision box.
pub const BOX_LIMIT: i64 = 1_000_000_000_000_000;

/// Largest admitted magnitude of a coordinate of a static collision box
/// as handed to the resolver, before its growth by the entity's
/// half-extents.
pub const STATIC_BOX_LIMIT: i64 = 900_000_000_000_000;

/// Largest admitted magnitude of a ray origin coordinate.
pub const POS_LIMIT: i64 = 1_100_000_000_000_000_000;

/// Largest admitted magnitude of an entity position coordinate.
pub const ENTITY_POS_LIMIT: i64 = 100_000_000_000_000;

/// A 3-vector of raw fixed-point coordinates.
#[derive(Clone, Copy, PartialEq, Eq, Structural, Debug)]
pub struct Vec3 {
    pub x: i64,
    pub y: i64,
    pub z: i64,
}

/// Component `i` of `v`, for `i` in `0..3`.
pub open spec fn axis(v: Vec3, i: int) -> int {
    if i == 0 {
        v.x as int
    } else if i == 1 {
        v.y as int
    } else {
        v.z as int
    }
}

/// All components of `v` have magnitude at most `limit`.
pub open spec fn vec_within(v: Vec3, limit: int) -> bool {
    forall|i: int| 0 <= i < 3 ==> -limit <= #[trigger] axis(v, i) <= limit
}

impl Vec3 {
    pub fn new(x: i64, y: i64, z: i64) -> (r: Vec3)
        ensures
            r == (Vec3 { x, y, z }),
    {
        Vec3 { x, y, z }
    }

    pub fn zero() -> (r: Vec3)
        ensures
            r == (Vec3 { x: 0i64, y: 0i64, z: 0i64 }),
    {
        Vec3 { x: 0, y: 0, z: 0 }
    }

    /// Component `i`, for `i` in `0..3`.
    pub fn get_axis(&self, i: usize) -> (r: i64)
        requires
            i < 3,
        ensures
            r == axis(*self, i as int),
    {
        if i == 0 {
            self.x
        } else if i == 1 {
            self.y
        } else {
            self.z
        }
    }

    pub fn add(&self, other: &Vec3) -> (r: Vec3)
        requires
            i64::MIN <= self.x + other.x <= i64::MAX,
            i64::MIN <= self.y + other.y <= i64::MAX,
            i64::MIN <= self.z + other.z <= i64::MAX,
        ensures
            r.x == self.x + other.x,
            r.y == self.y + other.y,
            r.z == self.z + other.z,
    {
        Vec3 { x: self.x + other.x, y: self.y + other.y, z: self.z + other.z }
    }

    pub fn sub(&self, other: &Vec3) -> (r: Vec3)
        requires
            i64::MIN <= self.x - other.x <= i64::MAX,
            i64::MIN <= self.y - other.y <= i64::MAX,
            i64::MIN <= self.z - other.z <= i64::MAX,
        ensures
            r.x == self.x - other.x,
            r.y == self.y - other.y,
            r.z == self.z - other.z,
    {
        Vec3 { x: self.x - other.x, y: self.y - other.y, z: self.z - other.z }
    }

    /// The displacement covered in `dt` tick units at this velocity.
    pub fn scale_ticks(&self, dt: u32) -> (r: Vec3)
        requires
            vec_within(*self, VEL_LIMIT as int),
            dt <= TICK_LIMIT,
        ensures
            r.x == self.x * dt,
            r.y == self.y * dt,
            r.z == self.z * dt,
    {
        proof {
            assert(axis(*self, 0) == self.x && axis(*self, 1) == self.y && axis(*self, 2)
                == self.z);
            lemma_mul_bound(self.x as int, dt as int, VEL_LIMIT as int, TICK_LIMIT as int);
            lemma_mul_bound(self.y as int, dt as int, VEL_LIMIT as int, TICK_LIMIT as int);
            lemma_mul_bound(self.z as int, dt as int, VEL_LIMIT as int, TICK_LIMIT as int);
        }
        Vec3 { x: self.x * (dt as i64), y: self.y * (dt as i64), z: self.z * (dt as i64) }
    }
}

/// The three components of a vector, named by axis number.
pub proof fn lemma_axes(v: Vec3)
    ensures
        axis(v, 0) == v.x,
        axis(v, 1) == v.y,
        axis(v, 2) == v.z,
{
}

/// Magnitude bound on a product from bounds on its factors.
pub proof fn lemma_mul_bound(a: int, b: int, la: int, lb: int)
    by (nonlinear_arith)
    requires
        -la <= a <= la,
        0 <= b <= lb,
        0 <= la,
    ensures
        -la * lb <= a * b <= la * lb,
{
}

/// Magnitude bound on a product from magnitude bounds on both factors.
pub proof fn lemma_mul_bound_both(a: int, b: int, la: int, lb: int)
    by (nonlinear_arith)
    requires
        -la <= a <= la,
        -lb <= b <= lb,
        0 <= la,
        0 <= lb,
    ensures
        -la * lb <= a * b <= la * lb,
{
}

/// An axis-aligned box given by its two extreme corners.
#[derive(Clone, Copy, PartialEq, Eq, Structural, Debug)]
pub struct Aabb {
    pub min: Vec3,
    pub max: Vec3,
}

impl Aabb {
    /// The box is non-degenerate: each minimum is at most its maximum.
    pub open spec fn wf(self) -> bool {
        forall|i: int| 0 <= i < 3 ==> #[trigger] axis(self.min, i) <= axis(self.max, i)
    }

    /// All coordinates of the box have magnitude at most `limit`.
    pub open spec fn within(self, limit: int) -> bool {
        vec_within(self.min, limit) && vec_within(self.max, limit)
    }

    pub fn new(min: Vec3, max: Vec3) -> (r: Aabb)
        ensures
            r == (Aabb { min, max }),
    {
        Aabb { min, max }
    }

    /// The closed box contains the point.
    pub open spec fn contains_spec(self, p: Vec3) -> bool {
        forall|i: int|
            0 <= i < 3 ==> axis(self.min, i) <= #[trigger] axis(p, i) <= axis(self.max, i)
    }

    /// Whether the closed box contains `p`, boundary included.
    pub fn contains_point(&self, p: &Vec3) -> (r: bool)
        ensures
            r == self.contains_spec(*p),
    {
        let r = self.min.x <= p.x && p.x <= self.max.x && self.min.y <= p.y && p.y <= self.max.y
            && self.min.z <= p.z && p.z <= self.max.z;
        proof {
            assert(axis(*p, 0) == p.x && axis(*p, 1) == p.y && axis(*p, 2) == p.z);
            if r {
                assert forall|i: int| 0 <= i < 3 implies axis(self.min, i) <= #[trigger] axis(
                    *p,
                    i,
                ) <= axis(self.max, i) by {
                    if i == 0 {
                    } else if i == 1 {
                    }
                }
            }
        }
        r
    }

    /// The two closed boxes overlap, a shared boundary counting as overlap.
    pub open spec fn intersects_spec(self, other: Aabb) -> bool {
        forall|i: int|
            0 <= i < 3 ==> #[trigger] axis(self.min, i) <= axis(other.max, i) && axis(
                other.min,
                i,
            ) <= axis(self.max, i)
    }

    pub fn intersects(&self, other: &Aabb) -> (r: bool)
        ensures
            r == self.intersects_spec(*other),
    {
        let r = self.min.x <= other.max.x && other.min.x <= self.max.x && self.min.y
            <= other.max.y && other.min.y <= self.max.y && self.min.z <= other.max.z
            && other.min.z <= self.max.z;
        proof {
            assert(axis(self.min, 0) == self.min.x && axis(self.min, 1) == self.min.y && axis(
                self.min,
                2,
            ) == self.min.z);
            assert(axis(self.max, 0) == self.max.x && axis(self.max, 1) == self.max.y && axis(
                self.max,
                2,
            ) == self.max.z);
            assert(axis(other.min, 0) == other.min.x && axis(other.min, 1) == other.min.y && axis(
                other.min,
                2,
            ) == other.min.z);
            assert(axis(other.max, 0) == other.max.x && axis(other.max, 1) == other.max.y && axis(
                other.max,
                2,
            ) == other.max.z);
            if r {
                assert forall|i: int| 0 <= i < 3 implies #[trigger] axis(self.min, i) <= axis(
                    other.max,
                    i,
                ) && axis(other.min, i) <= axis(self.max, i) by {
                    if i == 0 {
                    } else if i == 1 {
                    }
                }
            }
        }
        r
    }

    /// The smallest box that holds both boxes.
    pub open spec fn merged_spec(self, other: Aabb) -> Aabb {
        Aabb {
            min: Vec3 {
                x: if self.min.x <= other.min.x {
                    self.min.x
                } else {
                    other.min.x
                },
                y: if self.min.y <= other.min.y {
                    self.min.y
                } else {
                    other.min.y
                },
                z: if self.min.z <= other.min.z {
                    self.min.z
                } else {
                    other.min.z
                },
            },
            max: Vec3 {
                x: if self.max.x >= other.max.x {
                    self.max.x
                } else {
                    other.max.x
                },
                y: if self.max.y >= other.max.y {
                    self.max.y
                } else {
                    other.max.y
                },
                z: if self.max.z >= other.max.z {
                    self.max.z
                } else {
                    other.max.z
                },
            },
        }
    }

    pub fn merged(&self, other: &Aabb) -> (r: Aabb)
        ensures
            r == self.merged_spec(*other),
    {
        Aabb {
            min: Vec3 {
                x: if self.min.x <= other.min.x {
                    self.min.x
                } else {
                    other.min.x
                },
                y: if self.min.y <= other.min.y {
                    self.min.y
                } else {
                    other.min.y
                },
                z: if self.min.z <= other.min.z {
                    self.min.z
                } else {
                    other.min.z
                },
            },
            max: Vec3 {
                x: if self.max.x >= other.max.x {
                    self.max.x
                } else {
                    other.max.x
                },
                y: if self.max.y >= other.max.y {
                    self.max.y
                } else {
                    other.max.y
                },
                z: if self.max.z >= other.max.z {
                    self.max.z
                } else {
                    other.max.z
                },
            },
        }
    }

    /// The box grown by `amount` on every side: the Minkowski sum with a box
    /// of half-extents `amount` centered at the origin.
    pub fn extended_by(&self, amount: &Vec3) -> (r: Aabb)
        requires
            i64::MIN <= self.min.x - amount.x <= i64::MAX,
            i64::MIN <= self.min.y - amount.y <= i64::MAX,
            i64::MIN <= self.min.z - amount.z <= i64::MAX,
            i64::MIN <= self.max.x + amount.x <= i64::MAX,
            i64::MIN <= self.max.y + amount.y <= i64::MAX,
            i64::MIN <= self.max.z + amount.z <= i64::MAX,
        ensures
            r.min.x == self.min.x - amount.x,
            r.min.y == self.min.y - amount.y,
            r.min.z == self.min.z - amount.z,
            r.max.x == self.max.x + amount.x,
            r.max.y == self.max.y + amount.y,
            r.max.z == self.max.z + amount.z,
    {
        Aabb {
            min: Vec3 {
                x: self.min.x - amount.x,
                y: self.min.y - amount.y,
                z: self.min.z - amount.z,
            },
            max: Vec3 {
                x: self.max.x + amount.x,
                y: self.max.y + amount.y,
                z: self.max.z + amount.z,
            },
        }
    }

    /// The box has a whole number of raw steps from its center to each face,
    /// so its half-extents are exact.
    pub open spec fn even_extents(self) -> bool {
        (axis(self.max, 0) - axis(self.min, 0)) % 2 == 0 && (axis(self.max, 1) - axis(
            self.min,
            1,
        )) % 2 == 0 && (axis(self.max, 2) - axis(self.min, 2)) % 2 == 0
    }

    /// Half of each extent, exact under `even_extents`.
    pub fn half_extents(&self) -> (r: Vec3)
        requires
            self.wf(),
            self.even_extents(),
            self.within(POS_LIMIT as int),
        ensures
            2 * r.x == self.max.x - self.min.x,
            2 * r.y == self.max.y - self.min.y,
            2 * r.z == self.max.z - self.min.z,
    {
        proof {
            assert(axis(self.min, 0) <= axis(self.max, 0));
            assert(axis(self.min, 1) <= axis(self.max, 1));
            assert(axis(self.min, 2) <= axis(self.max, 2));
            assert(axis(self.min, 0) >= -(POS_LIMIT as int) && axis(self.max, 0) <= POS_LIMIT
                as int);
            assert(axis(self.min, 1) >= -(POS_LIMIT as int) && axis(self.max, 1) <= POS_LIMIT
                as int);
            assert(axis(self.min, 2) >= -(POS_LIMIT as int) && axis(self.max, 2) <= POS_LIMIT
                as int);
        }
        Vec3 {
            x: (self.max.x - self.min.x) / 2,
            y: (self.max.y - self.min.y) / 2,
            z: (self.max.z - self.min.z) / 2,
        }
    }
}

} // verus!
