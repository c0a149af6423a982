//! Weapons: the two weapon kinds, their projectile configurations, fire
//! cooldowns, and fire patterns, plus the angular offsets of a spread shot.

use vstd::prelude::*;

use crate::math::SPEED_MAX;
use crate::palette::Rgb;
use crate::timer::{Timer, TIMER_MAX_MS};

verus! {

/// How a weapon releases its projectiles on each completed cooldown.
#[derive(Clone, Copy, PartialEq, Eq, Structural, Debug)]
pub enum FirePattern {
    /// One projectile straight at the aim point.
    Single,
    /// `count` projectiles fanned over `angle_deg` degrees, centered on the
    /// aim direction.
    Spread { count: usize, angle_deg: i64 },
}

/// Shape, tint, speed and damage of one projectile kind.
#[derive(Clone, Copy, PartialEq, Eq, Debug)]
pub struct ProjectileConfig {
    pub projectile_shape: &'static str,
    pub color: Rgb,
    pub font_size: u32,
    pub speed: i64,
    pub damage: u32,
}

impl ProjectileConfig {
    pub open spec fn wf(self) -> bool {
        0 <= self.speed <= SPEED_MAX
    }

    /// Field-for-field description of the player's default bullet.
    pub open spec fn is_player_bullet(self) -> bool {
        &&& self.projectile_shape@ == "()"@
        &&& self.color == Rgb { r: 1000u16, g: 1000u16, b: 1000u16 }
        &&& self.font_size == 24
        &&& self.speed == 1000
        &&& self.damage == 1
    }

    /// Field-for-field description of the stock enemy bullet.
    pub open spec fn is_enemy_bullet(self) -> bool {
        &&& self.projectile_shape@ == "o"@
        &&& self.color == Rgb { r: 1000u16, g: 0u16, b: 0u16 }
        &&& self.font_size == 24
        &&& self.speed == 400
        &&& self.damage == 1
    }

    /// Field-for-field description of a shotgun pellet.
    pub open spec fn is_shotgun_bullet(self) -> bool {
        &&& self.projectile_shape@ == "o"@
        &&& self.color == Rgb { r: 1000u16, g: 600u16, b: 0u16 }
        &&& self.font_size == 24
        &&& self.speed == 700
        &&& self.damage == 1
    }

    /// The player's default bullet.
    pub fn player_bullet() -> (c: ProjectileConfig)
        ensures
            c.is_player_bullet(),
            c.wf(),
    {
        ProjectileConfig {
            projectile_shape: "()",
            color: Rgb { r: 1000, g: 1000, b: 1000 },
            font_size: 24,
            speed: 1000,
            damage: 1,
        }
    }

    /// The stock enemy bullet.
    pub fn enemy_bullet() -> (c: ProjectileConfig)
        ensures
            c.is_enemy_bullet(),
            c.wf(),
    {
        ProjectileConfig {
            projectile_shape: "o",
            color: Rgb { r: 1000, g: 0, b: 0 },
            font_size: 24,
            speed: 400,
            damage: 1,
        }
    }
}

/// A selectable weapon kind.
#[derive(Clone, Copy, PartialEq, Eq, Structural, Debug, Hash)]
pub enum WeaponType {
    Pistol,
    Shotgun,
}

impl WeaponType {
    /// The display name of the weapon.
    pub fn name(&self) -> (r: &'static str)
        ensures
            self is Pistol ==> r@ == "Pistol"@,
            self is Shotgun ==> r@ == "Shotgun"@,
    {
        match self {
            WeaponType::Pistol => "Pistol",
            WeaponType::Shotgun => "Shotgun",
        }
    }

    /// The hotbar glyph of the weapon.
    pub fn glyph(&self) -> (r: &'static str)
        ensures
            self is Pistol ==> r@ == "P"@,
            self is Shotgun ==> r@ == "S"@,
    {
        match self {
            WeaponType::Pistol => "P",
            WeaponType::Shotgun => "S",
        }
    }

    /// The hotbar tint of the weapon.
    pub fn color(&self) -> (r: Rgb)
        ensures
            r == (Rgb { r: 1000u16, g: 1000u16, b: 1000u16 }),
    {
        match self {
            WeaponType::Pistol => Rgb { r: 1000, g: 1000, b: 1000 },
            WeaponType::Shotgun => Rgb { r: 1000, g: 1000, b: 1000 },
        }
    }

    /// What the weapon's projectiles look like and do.
    pub fn projectile_config(&self) -> (c: ProjectileConfig)
        ensures
            self is Pistol ==> c.is_player_bullet(),
            self is Shotgun ==> c.is_shotgun_bullet(),
            c.wf(),
    {
        match self {
            WeaponType::Pistol => ProjectileConfig::player_bullet(),
            WeaponType::Shotgun => ProjectileConfig {
                projectile_shape: "o",
                color: Rgb { r: 1000, g: 600, b: 0 },
                font_size: 24,
                speed: 700,
                damage: 1,
            },
        }
    }

    /// Milliseconds between shots.
    pub fn fire_cooldown_ms(&self) -> (r: u64)
        ensures
            self is Pistol ==> r == 300,
            self is Shotgun ==> r == 600,
            1 <= r <= TIMER_MAX_MS,
    {
        match self {
            WeaponType::Pistol => 300,
            WeaponType::Shotgun => 600,
        }
    }

    /// How the weapon fans its shots.
    pub fn fire_pattern(&self) -> (r: FirePattern)
        ensures
            self is Pistol ==> r == FirePattern::Single,
            self is Shotgun ==> r == (FirePattern::Spread { count: 4usize, angle_deg: 30i64 }),
    {
        match self {
            WeaponType::Pistol => FirePattern::Single,
            WeaponType::Shotgun => FirePattern::Spread { count: 4, angle_deg: 30 },
        }
    }
}

/// The fire cooldown of a weapon kind, in milliseconds.
pub open spec fn cooldown_ms_of(t: WeaponType) -> u64 {
    match t {
        WeaponType::Pistol => 300u64,
        WeaponType::Shotgun => 600u64,
    }
}

/// The fire pattern of a weapon kind.
pub open spec fn fire_pattern_of(t: WeaponType) -> FirePattern {
    match t {
        WeaponType::Pistol => FirePattern::Single,
        WeaponType::Shotgun => FirePattern::Spread { count: 4usize, angle_deg: 30i64 },
    }
}

/// Whether a projectile configuration is the one a weapon kind fires.
pub open spec fn config_of(t: WeaponType, c: ProjectileConfig) -> bool {
    match t {
        WeaponType::Pistol => c.is_player_bullet(),
        WeaponType::Shotgun => c.is_shotgun_bullet(),
    }
}

/// The active fire configuration on the player, built from a weapon kind.
#[derive(Clone, Copy, PartialEq, Eq, Debug)]
pub struct Weapon {
    pub weapon_type: WeaponType,
    pub config: ProjectileConfig,
    pub fire_cooldown: Timer,
    pub fire_pattern: FirePattern,
}

impl Weapon {
    pub open spec fn wf(self) -> bool {
        self.config.wf() && self.fire_cooldown.wf() && self.fire_cooldown.repeating
    }

    /// Composes the full weapon state for a weapon kind, with a fresh
    /// repeating cooldown.
    pub fn from_type(weapon_type: WeaponType) -> (w: Weapon)
        ensures
            w.weapon_type == weapon_type,
            config_of(weapon_type, w.config),
            w.fire_cooldown == (Timer {
                elapsed_ms: 0u64,
                duration_ms: cooldown_ms_of(weapon_type),
                repeating: true,
            }),
            w.fire_pattern == fire_pattern_of(weapon_type),
            w.wf(),
    {
        Weapon {
            weapon_type,
            config: weapon_type.projectile_config(),
            fire_cooldown: Timer::new(weapon_type.fire_cooldown_ms(), true),
            fire_pattern: weapon_type.fire_pattern(),
        }
    }

    /// Advances the fire cooldown by one frame; true exactly when a shot is
    /// released on this frame.
    pub fn tick_cooldown(&mut self, dt_ms: u64) -> (fires: bool)
        requires
            old(self).wf(),
            dt_ms <= crate::math::DT_MAX,
        ensures
            final(self).wf(),
            final(self).weapon_type == old(self).weapon_type,
            final(self).config == old(self).config,
            final(self).fire_pattern == old(self).fire_pattern,
            fires == old(self).fire_cooldown.completes(dt_ms),
            final(self).fire_cooldown.elapsed_ms == old(self).fire_cooldown.elapsed_after(dt_ms),
            final(self).fire_cooldown.duration_ms == old(self).fire_cooldown.duration_ms,
    {
        self.fire_cooldown.tick(dt_ms)
    }
}

/// The `i`-th angular offset (in milli-degrees) of a fan of `count` shots
/// spread over `angle_deg` degrees: evenly stepped from half the fan left of
/// center, with a step of the fan width over `count - 1`.
pub open spec fn spread_offset_spec(count: int, angle_deg: int, i: int) -> int {
    let total = angle_deg * 1000;
    let divisor = if count > 1 {
        count - 1
    } else {
        1
    };
    -(total / 2) + (total / divisor) * i
}

/// The angular offsets, in milli-degrees and fan order, of a spread shot.
/// A host turns each offset into a rotated aim direction.
pub fn spread_offsets_millideg(count: usize, angle_deg: i64) -> (r: Vec<i64>)
    requires
        1 <= count <= 64,
        0 <= angle_deg <= 360,
    ensures
        r@.len() == count,
        forall|i: int|
            0 <= i < count ==> #[trigger] r@[i] == spread_offset_spec(
                count as int,
                angle_deg as int,
                i,
            ),
{
    let total: u64 = (angle_deg as u64) * 1000;
    let divisor: u64 = if count > 1 {
        (count - 1) as u64
    } else {
        1
    };
    let start: i64 = -((total / 2) as i64);
    let step: i64 = (total / divisor) as i64;
    proof {
        vstd::arithmetic::div_mod::lemma_div_is_ordered(0, total as int, divisor as int);
        vstd::arithmetic::div_mod::lemma_div_multiples_vanish(0, divisor as int);
        vstd::arithmetic::div_mod::lemma_div_is_ordered_by_denominator(
            total as int,
            1,
            divisor as int,
        );
        vstd::arithmetic::div_mod::lemma_div_multiples_vanish(total as int, 1);
    }
    let mut out: Vec<i64> = Vec::new();
    let mut i: usize = 0;
    while i < count
        invariant
            i <= count,
            count <= 64,
            out@.len() == i,
            0 <= step <= 360000,
            start == -((total as int) / 2),
            step == (total as int) / (divisor as int),
            total == angle_deg * 1000,
            0 <= total <= 360000,
            divisor == if count > 1 { (count - 1) as int } else { 1int },
            forall|j: int|
                0 <= j < i ==> #[trigger] out@[j] == spread_offset_spec(
                    count as int,
                    angle_deg as int,
                    j,
                ),
        decreases count - i,
    {
        proof {
            vstd::arithmetic::mul::lemma_mul_upper_bound(step as int, 360000, i as int, 64);
            vstd::arithmetic::mul::lemma_mul_inequality(0, step as int, i as int);
        }
        out.push(start + step * (i as i64));
        i = i + 1;
    }
    out
}

} // verus!
