//! Drone presets: declarative build descriptors that the factory turns into
//! fully composed enemy entities.

use vstd::prelude::*;

use crate::math::{POS_MAX, RADIUS_MAX, SPEED_MAX};
use crate::palette::Rgb;
use crate::timer::TIMER_MAX_MS;
use crate::weapon::ProjectileConfig;

verus! {

/// The drone kinds the drop table distinguishes.
#[derive(Clone, Copy, PartialEq, Eq, Structural, Debug, Hash)]
pub enum DroneKind {
    Chaser,
    Shooter,
}

/// One attachable behavior in a drone's build list.
#[derive(Clone, PartialEq, Eq, Debug)]
pub enum BehaviorConfig {
    /// Chase the target to the point of collision.
    CollideTarget,
    /// Keep a fixed distance band around the target.
    MaintainRange { range: i64 },
    /// Fire a projectile at the target on a repeating cooldown.
    ShootAtTarget { cooldown_ms: u64, projectile: ProjectileConfig },
    /// Detonate against the target on contact.
    ExplodeOnContact { damage: u32 },
}

impl BehaviorConfig {
    pub open spec fn wf(self) -> bool {
        match self {
            BehaviorConfig::CollideTarget => true,
            BehaviorConfig::MaintainRange { range } => 0 <= range <= POS_MAX,
            BehaviorConfig::ShootAtTarget { cooldown_ms, projectile } => 1 <= cooldown_ms
                <= TIMER_MAX_MS && projectile.wf(),
            BehaviorConfig::ExplodeOnContact { .. } => true,
        }
    }
}

/// How a drone translates its desired direction into motion.
#[derive(Clone, Copy, PartialEq, Eq, Structural, Debug)]
pub enum MovementConfig {
    /// Copy the desired direction straight into the velocity.
    Direct,
    /// A planned oscillating style; the factory falls back to `Direct`.
    ZigZag { amplitude: i64, frequency: i64 },
}

/// Everything needed to compose one drone: looks, stats, behavior list and
/// movement style. Immutable once authored.
#[derive(Clone, PartialEq, Eq, Debug)]
pub struct DroneConfig {
    pub name: &'static str,
    pub font_size: u32,
    pub glyph: &'static str,
    pub color: Rgb,
    pub health: u32,
    pub health_bar_width: i64,
    pub health_bar_offset: i64,
    pub hitbox_radius: i64,
    pub speed: i64,
    pub behaviors: Vec<BehaviorConfig>,
    pub movement: MovementConfig,
    pub kind: DroneKind,
}

impl DroneConfig {
    pub open spec fn wf(self) -> bool {
        &&& 0 <= self.hitbox_radius <= RADIUS_MAX
        &&& 0 <= self.speed <= SPEED_MAX
        &&& forall|i: int| 0 <= i < self.behaviors@.len() ==> (#[trigger] self.behaviors@[i]).wf()
    }

    /// Field-for-field description of the chaser preset.
    pub open spec fn is_chaser_config(c: DroneConfig) -> bool {
        &&& c.name@ == "chaser"@
        &&& c.glyph@ == "<{=}>"@
        &&& c.color == Rgb { r: 1000u16, g: 0u16, b: 0u16 }
        &&& c.health == 10
        &&& c.hitbox_radius == 30
        &&& c.speed == 150
        &&& c.font_size == 24
        &&& c.movement == MovementConfig::Direct
        &&& c.behaviors@.len() == 2
        &&& c.behaviors@[0] == BehaviorConfig::CollideTarget
        &&& c.behaviors@[1] == BehaviorConfig::ExplodeOnContact { damage: 5u32 }
        &&& c.health_bar_width == 32
        &&& c.health_bar_offset == 24
        &&& c.kind == DroneKind::Chaser
    }

    /// Field-for-field description of the shooter preset.
    pub open spec fn is_shooter_config(c: DroneConfig) -> bool {
        &&& c.name@ == "shooter"@
        &&& c.glyph@ == "=(+)="@
        &&& c.color == Rgb { r: 1000u16, g: 500u16, b: 0u16 }
        &&& c.health == 10
        &&& c.hitbox_radius == 30
        &&& c.speed == 90
        &&& c.font_size == 24
        &&& c.movement == MovementConfig::Direct
        &&& c.behaviors@.len() == 2
        &&& c.behaviors@[0] == BehaviorConfig::MaintainRange { range: 150i64 }
        &&& (c.behaviors@[1] matches BehaviorConfig::ShootAtTarget { cooldown_ms, projectile }
            && cooldown_ms == 500 && projectile.is_enemy_bullet())
        &&& c.health_bar_width == 32
        &&& c.health_bar_offset == 24
        &&& c.kind == DroneKind::Shooter
    }

    /// The basic chaser: runs at the player and explodes on contact.
    pub fn chaser() -> (c: DroneConfig)
        ensures
            DroneConfig::is_chaser_config(c),
            c.wf(),
    {
        let behaviors: Vec<BehaviorConfig> = vec![
            BehaviorConfig::CollideTarget,
            BehaviorConfig::ExplodeOnContact { damage: 5 },
        ];
        DroneConfig {
            name: "chaser",
            glyph: "<{=}>",
            color: Rgb { r: 1000, g: 0, b: 0 },
            health: 10,
            hitbox_radius: 30,
            speed: 150,
            font_size: 24,
            movement: MovementConfig::Direct,
            behaviors,
            health_bar_width: 32,
            health_bar_offset: 24,
            kind: DroneKind::Chaser,
        }
    }

    /// The shooter: keeps its distance from the player and fires.
    pub fn shooter() -> (c: DroneConfig)
        ensures
            DroneConfig::is_shooter_config(c),
            c.wf(),
    {
        let behaviors: Vec<BehaviorConfig> = vec![
            BehaviorConfig::MaintainRange { range: 150 },
            BehaviorConfig::ShootAtTarget {
                cooldown_ms: 500,
                projectile: ProjectileConfig::enemy_bullet(),
            },
        ];
        DroneConfig {
            name: "shooter",
            glyph: "=(+)=",
            color: Rgb { r: 1000, g: 500, b: 0 },
            health: 10,
            hitbox_radius: 30,
            speed: 90,
            font_size: 24,
            movement: MovementConfig::Direct,
            behaviors,
            health_bar_width: 32,
            health_bar_offset: 24,
            kind: DroneKind::Shooter,
        }
    }
}

} // verus!
