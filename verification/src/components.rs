//! Attachable components: markers, behavior records and visual records that
//! compose an entity. Capability is decided by which components an entity
//! carries, never by a hierarchy.

use vstd::prelude::*;

use crate::math::{POS_MAX, SPEED_MAX};
use crate::palette::Rgb;
use crate::timer::Timer;
use crate::weapon::ProjectileConfig;

verus! {

/// Who fired a projectile; every projectile has exactly one owner.
#[derive(Clone, Copy, PartialEq, Eq, Structural, Debug)]
pub enum Owner {
    PlayerOwned,
    EnemyOwned,
}

/// A projectile in flight: its owner and the damage it credits on a hit.
#[derive(Clone, Copy, PartialEq, Eq, Structural, Debug)]
pub struct Projectile {
    pub owner: Owner,
    pub damage: u32,
}

/// A glyph sprite: what an entity looks like.
#[derive(Clone, Copy, PartialEq, Eq, Debug)]
pub struct AsciiSprite {
    pub glyph: &'static str,
    pub color: Rgb,
    pub font_size: u32,
}

/// The visual health bar over an entity's head.
#[derive(Clone, Copy, PartialEq, Eq, Structural, Debug)]
pub struct HealthBar {
    pub max_width: i64,
    pub offset: i64,
}

/// Chase the target to the point of collision: each tick the desired
/// direction points at the target's current position.
#[derive(Clone, Copy, PartialEq, Eq, Structural, Debug)]
pub struct CollideTarget {
    pub target: usize,
}

/// Keep a distance band around the target: move toward it when too far,
/// away when too close, and stand still inside the tolerance band.
#[derive(Clone, Copy, PartialEq, Eq, Structural, Debug)]
pub struct MaintainRangeFromTarget {
    pub target: usize,
    pub range: i64,
}

impl MaintainRangeFromTarget {
    pub open spec fn wf(self) -> bool {
        0 <= self.range <= POS_MAX
    }
}

/// Fire a projectile at the target each time the cooldown completes.
#[derive(Clone, Copy, PartialEq, Eq, Debug)]
pub struct ShootAtTarget {
    pub target: usize,
    pub cooldown: Timer,
    pub config: ProjectileConfig,
}

impl ShootAtTarget {
    pub open spec fn wf(self) -> bool {
        self.cooldown.wf() && self.config.wf()
    }
}

/// Marks an entity as drawn toward a target while within range.
#[derive(Clone, Copy, PartialEq, Eq, Structural, Debug)]
pub struct MagnetizedTo {
    pub target: usize,
    pub range: i64,
}

impl MagnetizedTo {
    pub open spec fn wf(self) -> bool {
        0 <= self.range <= POS_MAX
    }
}

/// How magnetized movement ramps: velocity eases toward the desired
/// direction and the peak speed by a fixed per-mille factor each tick.
#[derive(Clone, Copy, PartialEq, Eq, Structural, Debug)]
pub struct MagneticAttraction {
    pub peak_speed: i64,
    pub lerp_per_mille: i64,
}

impl MagneticAttraction {
    pub open spec fn wf(self) -> bool {
        0 <= self.peak_speed <= SPEED_MAX && 0 <= self.lerp_per_mille <= 1000
    }
}

/// The movement style of an entity: the terminal translator from desired
/// direction to velocity. Exactly one style per moving entity.
#[derive(Clone, Copy, PartialEq, Eq, Structural, Debug)]
pub enum MovementStyle {
    /// Copy the desired direction straight into the velocity.
    DirectMovement,
}

/// A resource lying on the ground, waiting to be collected.
#[derive(Clone, Copy, PartialEq, Eq, Structural, Debug)]
pub struct ResourceDrop {
    pub resource_type: crate::resources::ResourceType,
}

/// A damage event: `target` takes `amount` hit points.
#[derive(Clone, Copy, PartialEq, Eq, Structural, Debug)]
pub struct DamageEvent {
    pub target: usize,
    pub amount: u32,
}

/// A death event: `entity` reached zero health this tick.
#[derive(Clone, Copy, PartialEq, Eq, Structural, Debug)]
pub struct DeathEvent {
    pub entity: usize,
}

/// A pickup event: `collector` stands close enough to collect
/// `resource_entity`.
#[derive(Clone, Copy, PartialEq, Eq, Structural, Debug)]
pub struct PickupEvent {
    pub collector: usize,
    pub resource_entity: usize,
}

} // verus!
