//! Collision primitive and motion components: circle hitboxes with a strict
//! overlap test, velocities, and the per-tick desired-direction scratch
//! vector that targeting behaviors write and movement styles consume.

use vstd::prelude::*;

use crate::math::{dist_sq, Vec2i, DIR_MAX, POS_MAX, RADIUS_MAX, SPEED_MAX};

verus! {

/// The sole collision shape: a circle of the given radius around the
/// entity's position.
#[derive(Clone, Copy, PartialEq, Eq, Structural, Debug)]
pub struct CircleHitBox {
    pub radius: i64,
}

impl CircleHitBox {
    pub open spec fn wf(self) -> bool {
        0 <= self.radius <= RADIUS_MAX
    }
}

/// Speed in world units per second, along a (not necessarily unit-length)
/// direction vector.
#[derive(Clone, Copy, PartialEq, Eq, Structural, Debug)]
pub struct Velocity {
    pub speed: i64,
    pub direction: Vec2i,
}

impl Velocity {
    pub open spec fn wf(self) -> bool {
        0 <= self.speed <= SPEED_MAX && self.direction.is_dir()
    }
}

/// Scratch vector set by targeting behaviors each tick and read by the
/// movement-style pass; decouples where an entity wants to go from how it
/// moves.
#[derive(Clone, Copy, PartialEq, Eq, Structural, Debug)]
pub struct DesiredDirection {
    pub dir: Vec2i,
}

impl DesiredDirection {
    pub open spec fn wf(self) -> bool {
        self.dir.is_dir()
    }
}

/// Two circles collide exactly when the distance between their centers is
/// strictly below the sum of their radii; centers exactly a radius-sum apart
/// merely touch and do not collide. Over integers this is equivalent to the
/// squared comparison written here, which is computed exactly.
pub open spec fn overlap_spec(pos_a: Vec2i, radius_a: int, pos_b: Vec2i, radius_b: int) -> bool {
    dist_sq(pos_a, pos_b) < (radius_a + radius_b) * (radius_a + radius_b)
}

/// The strict circle-overlap test.
pub fn circles_overlap(pos_a: Vec2i, radius_a: i64, pos_b: Vec2i, radius_b: i64) -> (r: bool)
    requires
        pos_a.in_box(),
        pos_b.in_box(),
        0 <= radius_a <= RADIUS_MAX,
        0 <= radius_b <= RADIUS_MAX,
    ensures
        r == overlap_spec(pos_a, radius_a as int, pos_b, radius_b as int),
{
    let d2: i64 = crate::math::distance_squared(pos_a, pos_b);
    let rsum: i64 = radius_a + radius_b;
    proof {
        crate::math::lemma_square_bound(rsum as int, 2 * RADIUS_MAX as int);
    }
    d2 < rsum * rsum
}

/// Touching is not colliding: when the squared center distance equals the
/// squared radius sum (the centers are exactly a radius-sum apart), the
/// overlap test is false; any strictly smaller squared distance passes it.
pub proof fn lemma_touching_is_not_overlap(pos_a: Vec2i, radius_a: int, pos_b: Vec2i, radius_b: int)
    ensures
        dist_sq(pos_a, pos_b) == (radius_a + radius_b) * (radius_a + radius_b) ==> !overlap_spec(
            pos_a,
            radius_a,
            pos_b,
            radius_b,
        ),
        dist_sq(pos_a, pos_b) < (radius_a + radius_b) * (radius_a + radius_b) ==> overlap_spec(
            pos_a,
            radius_a,
            pos_b,
            radius_b,
        ),
{
}

} // verus!
