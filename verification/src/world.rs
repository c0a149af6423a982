//! The entity store: a sparse-attribute table indexed by entity id, with
//! spawn and despawn primitives and the factory functions that compose
//! players, drones, projectiles and ground resources.
//!
//! An entity id stays valid for the life of the store; despawning marks the
//! record not-alive and is a no-op on an already-gone entity. Every
//! component holding a `target` id is a weak reference: a lookup of a
//! despawned target simply fails.

use vstd::prelude::*;

use crate::components::{
    AsciiSprite, CollideTarget, HealthBar, MagneticAttraction, MagnetizedTo,
    MaintainRangeFromTarget, MovementStyle, Owner, Projectile, ShootAtTarget,
};
use crate::drone::{BehaviorConfig, DroneConfig, DroneKind, MovementConfig};
use crate::health::Health;
use crate::inventory::Inventory;
use crate::math::{clamp_coord, clamp_coord_spec, Vec2i};
use crate::palette::Rgb;
use crate::physics::{CircleHitBox, DesiredDirection, Velocity};
use crate::resources::{ResourceType, RESOURCE_LIFETIME_MS};
use crate::rng::scatter_offset;
use crate::timer::Timer;
use crate::weapon::{FirePattern, ProjectileConfig, Weapon, WeaponType};

verus! {

/// Lifetime of a projectile, in milliseconds.
pub const PROJECTILE_LIFETIME_MS: u64 = 2000;

/// Hitbox radius of every projectile.
pub const PROJECTILE_RADIUS: i64 = 2;

/// Half-width of the square a fresh drop may scatter into.
pub const SPREAD_RADIUS: i64 = 20;

/// How far away a drop starts pulling toward its collector.
pub const MAGNETIC_RANGE: i64 = 200;

/// Peak drift speed of a magnetized drop.
pub const MAGNETIC_PEAK_SPEED: i64 = 100;

/// Easing factor (per mille) of magnetized drift.
pub const MAGNETIC_LERP_PER_MILLE: i64 = 100;

/// One entity: a record of optional components. Which are present decides
/// what the entity is and which passes touch it.
pub struct Ent {
    pub alive: bool,
    pub pos: Vec2i,
    pub visible: bool,
    pub velocity: Option<Velocity>,
    pub desired: Option<DesiredDirection>,
    pub health: Option<Health>,
    pub hitbox: Option<CircleHitBox>,
    pub is_player: bool,
    pub is_enemy: bool,
    pub dead: bool,
    pub projectile: Option<Projectile>,
    pub lifetime: Option<Timer>,
    pub collide_target: Option<CollideTarget>,
    pub maintain_range: Option<MaintainRangeFromTarget>,
    pub shoot_at_target: Option<ShootAtTarget>,
    pub explode_on_contact: bool,
    pub magnetized_to: Option<MagnetizedTo>,
    pub magnetic: Option<MagneticAttraction>,
    pub movement: Option<MovementStyle>,
    pub drone_kind: Option<DroneKind>,
    pub resource_drop: Option<ResourceType>,
    pub resource_life: Option<Timer>,
    pub sprite: Option<AsciiSprite>,
    pub health_bar: Option<HealthBar>,
    pub inventory: Option<Inventory>,
    pub weapon: Option<Weapon>,
}

impl Ent {
    /// Bounds on every component an entity may carry, and the role split:
    /// a projectile is never also the player or an enemy.
    pub open spec fn wf(self) -> bool {
        &&& self.pos.in_box()
        &&& (self.velocity matches Some(v) ==> v.wf())
        &&& (self.desired matches Some(d) ==> d.wf())
        &&& (self.health matches Some(h) ==> h.wf())
        &&& (self.hitbox matches Some(h) ==> h.wf())
        &&& (self.lifetime matches Some(t) ==> t.wf())
        &&& (self.maintain_range matches Some(m) ==> m.wf())
        &&& (self.shoot_at_target matches Some(s) ==> s.wf())
        &&& (self.magnetized_to matches Some(m) ==> m.wf())
        &&& (self.magnetic matches Some(m) ==> m.wf())
        &&& (self.resource_life matches Some(t) ==> t.wf())
        &&& (self.inventory matches Some(i) ==> i.wf())
        &&& (self.weapon matches Some(w) ==> w.wf())
        &&& (self.projectile is Some ==> !self.is_enemy && !self.is_player)
    }

    /// A record with a position and nothing else attached.
    pub open spec fn blank_spec(pos: Vec2i) -> Ent {
        Ent {
            alive: true,
            pos,
            visible: true,
            velocity: None,
            desired: None,
            health: None,
            hitbox: None,
            is_player: false,
            is_enemy: false,
            dead: false,
            projectile: None,
            lifetime: None,
            collide_target: None,
            maintain_range: None,
            shoot_at_target: None,
            explode_on_contact: false,
            magnetized_to: None,
            magnetic: None,
            movement: None,
            drone_kind: None,
            resource_drop: None,
            resource_life: None,
            sprite: None,
            health_bar: None,
            inventory: None,
            weapon: None,
        }
    }
}

/// Builds the blank record.
pub fn blank_ent(pos: Vec2i) -> (e: Ent)
    ensures
        e == Ent::blank_spec(pos),
{
    Ent {
        alive: true,
        pos,
        visible: true,
        velocity: None,
        desired: None,
        health: None,
        hitbox: None,
        is_player: false,
        is_enemy: false,
        dead: false,
        projectile: None,
        lifetime: None,
        collide_target: None,
        maintain_range: None,
        shoot_at_target: None,
        explode_on_contact: false,
        magnetized_to: None,
        magnetic: None,
        movement: None,
        drone_kind: None,
        resource_drop: None,
        resource_life: None,
        sprite: None,
        health_bar: None,
        inventory: None,
        weapon: None,
    }
}

/// The same record with the alive flag cleared; all components stay.
pub open spec fn despawned(e: Ent) -> Ent {
    Ent { alive: false, ..e }
}

/// The store.
pub struct World {
    pub ents: Vec<Ent>,
}

/// Mutable access to one record; the rest of the store is untouched.
pub(crate) fn ent_mut(v: &mut Vec<Ent>, i: usize) -> (e: &mut Ent)
    requires
        i < old(v)@.len(),
    ensures
        *e == old(v)@[i as int],
        final(v)@ == old(v)@.update(i as int, *final(e)),
{
    &mut v[i]
}

impl World {
    pub open spec fn wf(self) -> bool {
        forall|k: int| 0 <= k < self.ents@.len() ==> (#[trigger] self.ents@[k]).wf()
    }

    /// An empty store.
    pub fn new() -> (w: World)
        ensures
            w.ents@.len() == 0,
            w.wf(),
    {
        World { ents: Vec::new() }
    }

    /// Adds a record and hands back its id.
    pub fn spawn(&mut self, e: Ent) -> (id: usize)
        ensures
            final(self).ents@ == old(self).ents@.push(e),
            id == old(self).ents@.len(),
    {
        let id = self.ents.len();
        self.ents.push(e);
        id
    }

    /// Clears the alive flag of a record; tolerant of an id that is out of
    /// range or already gone (a double despawn is a no-op).
    pub fn despawn(&mut self, id: usize)
        ensures
            final(self).ents@.len() == old(self).ents@.len(),
            forall|k: int|
                0 <= k < old(self).ents@.len() && k != id ==> final(self).ents@[k] == old(self).ents@[k],
            id < old(self).ents@.len() ==> final(self).ents@[id as int] == despawned(
                old(self).ents@[id as int],
            ),
    {
        if id < self.ents.len() {
            let e = ent_mut(&mut self.ents, id);
            e.alive = false;
        }
    }

    /// First live entity flagged as the player, if any.
    pub fn find_player(&self) -> (r: Option<usize>)
        ensures
            player_index(self.ents@) < 0 ==> r is None,
            player_index(self.ents@) >= 0 ==> (r matches Some(p) && p as int == player_index(
                self.ents@,
            ) && p < self.ents@.len() && self.ents@[p as int].alive
                && self.ents@[p as int].is_player),
    {
        let mut i: usize = 0;
        while i < self.ents.len()
            invariant
                i <= self.ents@.len(),
                player_index(self.ents@) == player_index_from(self.ents@, i as int),
            decreases self.ents@.len() - i,
        {
            if self.ents[i].alive && self.ents[i].is_player {
                return Some(i);
            }
            i = i + 1;
        }
        None
    }

    /// How many live entities carry the enemy marker.
    pub fn alive_enemy_count(&self) -> (r: usize)
        ensures
            r == count_alive_enemies(self.ents@, self.ents@.len() as int),
    {
        let mut i: usize = 0;
        let mut n: usize = 0;
        while i < self.ents.len()
            invariant
                i <= self.ents@.len(),
                n == count_alive_enemies(self.ents@, i as int),
                n <= i,
            decreases self.ents@.len() - i,
        {
            if self.ents[i].alive && self.ents[i].is_enemy {
                n = n + 1;
            }
            i = i + 1;
        }
        n
    }
}

/// The enemy record a drone config describes, before its behavior list is
/// attached.
pub open spec fn drone_base_spec(config: DroneConfig, pos: Vec2i) -> Ent {
    Ent {
        is_enemy: true,
        hitbox: Some(CircleHitBox { radius: config.hitbox_radius }),
        velocity: Some(Velocity { speed: config.speed, direction: Vec2i { x: 0i64, y: 0i64 } }),
        desired: Some(DesiredDirection { dir: Vec2i { x: 0i64, y: 0i64 } }),
        health: Some(Health { current: config.health, max: config.health }),
        health_bar: Some(
            HealthBar { max_width: config.health_bar_width, offset: config.health_bar_offset },
        ),
        drone_kind: Some(config.kind),
        sprite: Some(
            AsciiSprite { glyph: config.glyph, color: config.color, font_size: config.font_size },
        ),
        movement: Some(MovementStyle::DirectMovement),
        ..Ent::blank_spec(pos)
    }
}

/// One behavior tag attached to a record.
pub open spec fn attach_behavior(e: Ent, b: BehaviorConfig, target: usize) -> Ent {
    match b {
        BehaviorConfig::CollideTarget => Ent {
            collide_target: Some(CollideTarget { target }),
            ..e
        },
        BehaviorConfig::MaintainRange { range } => Ent {
            maintain_range: Some(MaintainRangeFromTarget { target, range }),
            ..e
        },
        BehaviorConfig::ShootAtTarget { cooldown_ms, projectile } => Ent {
            shoot_at_target: Some(
                ShootAtTarget {
                    target,
                    cooldown: Timer { elapsed_ms: 0, duration_ms: cooldown_ms, repeating: true },
                    config: projectile,
                },
            ),
            ..e
        },
        BehaviorConfig::ExplodeOnContact { .. } => Ent { explode_on_contact: true, ..e },
    }
}

/// A behavior list attached in order; a later tag of the same kind replaces
/// an earlier one.
pub open spec fn attach_behaviors(e: Ent, bs: Seq<BehaviorConfig>, target: usize) -> Ent
    decreases bs.len(),
{
    if bs.len() == 0 {
        e
    } else {
        attach_behaviors(attach_behavior(e, bs[0], target), bs.drop_first(), target)
    }
}

/// Attaching one more behavior at the end applies it to the fold so far.
proof fn lemma_attach_behaviors_snoc(e: Ent, bs: Seq<BehaviorConfig>, b: BehaviorConfig, target: usize)
    ensures
        attach_behaviors(e, bs.push(b), target) == attach_behavior(
            attach_behaviors(e, bs, target),
            b,
            target,
        ),
    decreases bs.len(),
{
    if bs.len() == 0 {
        assert(bs.push(b).drop_first() =~= Seq::<BehaviorConfig>::empty());
        assert(attach_behaviors(attach_behavior(e, b, target), Seq::<BehaviorConfig>::empty(), target)
            == attach_behavior(e, b, target));
    } else {
        assert(bs.push(b).drop_first() =~= bs.drop_first().push(b));
        lemma_attach_behaviors_snoc(attach_behavior(e, bs[0], target), bs.drop_first(), b, target);
    }
}

/// A well-formed record stays well-formed under a well-formed behavior list.
#[verifier::rlimit(50)]
proof fn lemma_attach_behaviors_wf(e: Ent, bs: Seq<BehaviorConfig>, target: usize)
    requires
        e.wf(),
        forall|i: int| 0 <= i < bs.len() ==> (#[trigger] bs[i]).wf(),
    ensures
        attach_behaviors(e, bs, target).wf(),
    decreases bs.len(),
{
    if bs.len() > 0 {
        assert(bs[0].wf());
        assert(attach_behavior(e, bs[0], target).wf());
        lemma_attach_behaviors_wf(attach_behavior(e, bs[0], target), bs.drop_first(), target);
    }
}

/// Every field of the record the player spawns as.
pub open spec fn is_player_ent(e: Ent, pos: Vec2i) -> bool {
    &&& e.alive && e.pos == pos && e.visible
    &&& e.is_player && !e.is_enemy && !e.dead
    &&& e.hitbox == Some(CircleHitBox { radius: 10i64 })
    &&& e.health == Some(Health { current: 10u32, max: 10u32 })
    &&& e.health_bar == Some(HealthBar { max_width: 32i64, offset: 24i64 })
    &&& (e.sprite matches Some(s) && s.glyph@ == "@"@ && s.color == Rgb {
        r: 1000u16,
        g: 1000u16,
        b: 1000u16,
    } && s.font_size == 24)
    &&& (e.weapon matches Some(w) && w.weapon_type == WeaponType::Pistol
        && w.config.is_player_bullet() && w.fire_cooldown == Timer {
        elapsed_ms: 0u64,
        duration_ms: 300u64,
        repeating: true,
    } && w.fire_pattern == FirePattern::Single)
    &&& (e.inventory matches Some(inv) && inv.scrap_metal == 0 && inv.circuitry == 0
        && inv.drone_weapon_parts == 0 && inv.weapon_slots@ =~= seq![
        Some(WeaponType::Pistol),
        None,
        None,
    ] && inv.active_weapon_slot == 0)
    &&& e.velocity is None && e.desired is None && e.projectile is None && e.lifetime is None
    &&& e.collide_target is None && e.maintain_range is None && e.shoot_at_target is None
    &&& !e.explode_on_contact && e.magnetized_to is None && e.magnetic is None
    &&& e.movement is None && e.drone_kind is None && e.resource_drop is None
        && e.resource_life is None
}

/// A fresh projectile record, as a value.
pub open spec fn projectile_ent_spec(
    pos: Vec2i,
    direction: Vec2i,
    config: ProjectileConfig,
    owner: Owner,
) -> Ent {
    Ent {
        projectile: Some(Projectile { owner, damage: config.damage }),
        velocity: Some(Velocity { speed: config.speed, direction }),
        lifetime: Some(
            Timer { elapsed_ms: 0u64, duration_ms: PROJECTILE_LIFETIME_MS, repeating: false },
        ),
        hitbox: Some(CircleHitBox { radius: PROJECTILE_RADIUS as i64 }),
        sprite: Some(
            AsciiSprite {
                glyph: config.projectile_shape,
                color: config.color,
                font_size: config.font_size,
            },
        ),
        ..Ent::blank_spec(pos)
    }
}

/// Every field of a fresh projectile record.
pub open spec fn is_projectile_ent(
    e: Ent,
    pos: Vec2i,
    direction: Vec2i,
    config: ProjectileConfig,
    owner: Owner,
) -> bool {
    &&& e.alive && e.pos == pos && e.visible
    &&& !e.is_player && !e.is_enemy && !e.dead
    &&& e.projectile == Some(Projectile { owner, damage: config.damage })
    &&& e.velocity == Some(Velocity { speed: config.speed, direction })
    &&& e.lifetime == Some(
        Timer { elapsed_ms: 0u64, duration_ms: PROJECTILE_LIFETIME_MS, repeating: false },
    )
    &&& e.hitbox == Some(CircleHitBox { radius: PROJECTILE_RADIUS as i64 })
    &&& (e.sprite matches Some(s) && s.glyph == config.projectile_shape && s.color == config.color
        && s.font_size == config.font_size)
    &&& e.desired is None && e.health is None && e.health_bar is None
    &&& e.collide_target is None && e.maintain_range is None && e.shoot_at_target is None
    &&& !e.explode_on_contact && e.magnetized_to is None && e.magnetic is None
    &&& e.movement is None && e.drone_kind is None && e.resource_drop is None
        && e.resource_life is None
    &&& e.inventory is None && e.weapon is None
}

/// Every field (but the scattered position) of a fresh ground resource.
pub open spec fn is_resource_ent(e: Ent, resource_type: ResourceType, player: usize) -> bool {
    &&& e.alive && e.visible && e.pos.in_box()
    &&& !e.is_player && !e.is_enemy && !e.dead
    &&& e.resource_drop == Some(resource_type)
    &&& e.resource_life == Some(
        Timer { elapsed_ms: 0u64, duration_ms: RESOURCE_LIFETIME_MS, repeating: false },
    )
    &&& e.magnetized_to == Some(MagnetizedTo { target: player, range: MAGNETIC_RANGE as i64 })
    &&& e.magnetic == Some(
        MagneticAttraction {
            peak_speed: MAGNETIC_PEAK_SPEED as i64,
            lerp_per_mille: MAGNETIC_LERP_PER_MILLE as i64,
        },
    )
    &&& e.velocity == Some(Velocity { speed: 0i64, direction: Vec2i { x: 0i64, y: 0i64 } })
    &&& e.desired == Some(DesiredDirection { dir: Vec2i { x: 0i64, y: 0i64 } })
    &&& (e.sprite matches Some(s) && s.font_size == 20 && s.glyph@
        == crate::resources::glyph_view_of(resource_type) && s.color == crate::resources::color_of(
        resource_type,
    ))
    &&& e.health is None && e.health_bar is None && e.hitbox is None
    &&& e.projectile is None && e.lifetime is None
    &&& e.collide_target is None && e.maintain_range is None && e.shoot_at_target is None
    &&& !e.explode_on_contact && e.movement is None && e.drone_kind is None
    &&& e.inventory is None && e.weapon is None
}

/// Whether a scattered position lies within the spread square of a base
/// position, after clamping into the playfield.
pub open spec fn scattered_from(base: Vec2i, p: Vec2i) -> bool {
    exists|ox: int, oy: int|
        -SPREAD_RADIUS <= ox < SPREAD_RADIUS && -SPREAD_RADIUS <= oy < SPREAD_RADIUS && p.x
            == #[trigger] clamp_coord_spec(base.x + ox) && p.y == #[trigger] clamp_coord_spec(
            base.y + oy,
        )
}

impl World {
    /// The player entity, fully composed: glyph, pistol, hitbox, health,
    /// health bar and an empty inventory with the starter pistol.
    pub fn spawn_player(&mut self, pos: Vec2i) -> (id: usize)
        requires
            pos.in_box(),
        ensures
            final(self).ents@.len() == old(self).ents@.len() + 1,
            final(self).ents@.subrange(0, old(self).ents@.len() as int) == old(self).ents@,
            is_player_ent(final(self).ents@.last(), pos),
            final(self).ents@.last().wf(),
            id == old(self).ents@.len(),
    {
        let mut e = blank_ent(pos);
        e.is_player = true;
        e.hitbox = Some(CircleHitBox { radius: 10 });
        e.health = Some(Health::new(10));
        e.health_bar = Some(HealthBar { max_width: 32, offset: 24 });
        e.sprite = Some(
            AsciiSprite { glyph: "@", color: Rgb { r: 1000, g: 1000, b: 1000 }, font_size: 24 },
        );
        e.weapon = Some(Weapon::from_type(WeaponType::Pistol));
        e.inventory = Some(Inventory::default());
        let ghost pre = self.ents@;
        let id = self.spawn(e);
        proof {
            assert(self.ents@.subrange(0, pre.len() as int) =~= pre);
        }
        id
    }

    /// The drone factory: turns a config into one fully composed enemy. An
    /// unknown movement style falls back to direct movement, by policy.
    pub fn spawn_drone(&mut self, config: &DroneConfig, pos: Vec2i, target: usize) -> (id: usize)
        requires
            pos.in_box(),
            config.wf(),
        ensures
            final(self).ents@ == old(self).ents@.push(
                attach_behaviors(drone_base_spec(*config, pos), config.behaviors@, target),
            ),
            final(self).ents@.last().wf(),
            id == old(self).ents@.len(),
    {
        let mut e = blank_ent(pos);
        e.is_enemy = true;
        e.hitbox = Some(CircleHitBox { radius: config.hitbox_radius });
        e.velocity = Some(Velocity { speed: config.speed, direction: Vec2i::zero() });
        e.desired = Some(DesiredDirection { dir: Vec2i::zero() });
        e.health = Some(Health::new(config.health));
        e.health_bar = Some(
            HealthBar { max_width: config.health_bar_width, offset: config.health_bar_offset },
        );
        e.drone_kind = Some(config.kind);
        e.sprite = Some(
            AsciiSprite { glyph: config.glyph, color: config.color, font_size: config.font_size },
        );
        e.movement = match config.movement {
            MovementConfig::Direct => Some(MovementStyle::DirectMovement),
            MovementConfig::ZigZag { .. } => Some(MovementStyle::DirectMovement),
        };
        proof {
            assert(e == drone_base_spec(*config, pos));
            assert(config.behaviors@.take(0) =~= Seq::<BehaviorConfig>::empty());
        }
        let ghost base = e;
        let mut i: usize = 0;
        while i < config.behaviors.len()
            invariant
                i <= config.behaviors@.len(),
                base == drone_base_spec(*config, pos),
                e == attach_behaviors(base, config.behaviors@.take(i as int), target),
            decreases config.behaviors@.len() - i,
        {
            match &config.behaviors[i] {
                BehaviorConfig::CollideTarget => {
                    e.collide_target = Some(CollideTarget { target });
                },
                BehaviorConfig::MaintainRange { range } => {
                    e.maintain_range = Some(MaintainRangeFromTarget { target, range: *range });
                },
                BehaviorConfig::ShootAtTarget { cooldown_ms, projectile } => {
                    e.shoot_at_target = Some(
                        ShootAtTarget {
                            target,
                            cooldown: Timer {
                                elapsed_ms: 0,
                                duration_ms: *cooldown_ms,
                                repeating: true,
                            },
                            config: *projectile,
                        },
                    );
                },
                BehaviorConfig::ExplodeOnContact { .. } => {
                    e.explode_on_contact = true;
                },
            }
            proof {
                assert(config.behaviors@.take(i + 1) =~= config.behaviors@.take(i as int).push(
                    config.behaviors@[i as int],
                ));
                lemma_attach_behaviors_snoc(
                    base,
                    config.behaviors@.take(i as int),
                    config.behaviors@[i as int],
                    target,
                );
            }
            i = i + 1;
        }
        proof {
            assert(config.behaviors@.take(config.behaviors@.len() as int) =~= config.behaviors@);
            lemma_attach_behaviors_wf(base, config.behaviors@, target);
        }
        self.spawn(e)
    }

    /// Spawns one player-owned projectile flying along `direction`.
    pub fn spawn_player_projectile(
        &mut self,
        position: Vec2i,
        direction: Vec2i,
        config: &ProjectileConfig,
    ) -> (id: usize)
        requires
            position.in_box(),
            direction.is_dir(),
            config.wf(),
        ensures
            final(self).ents@ == old(self).ents@.push(
                projectile_ent_spec(position, direction, *config, Owner::PlayerOwned),
            ),
            final(self).ents@.len() == old(self).ents@.len() + 1,
            final(self).ents@.subrange(0, old(self).ents@.len() as int) == old(self).ents@,
            is_projectile_ent(
                final(self).ents@.last(),
                position,
                direction,
                *config,
                Owner::PlayerOwned,
            ),
            final(self).ents@.last().wf(),
            id == old(self).ents@.len(),
    {
        self.spawn_projectile(position, direction, config, Owner::PlayerOwned)
    }

    /// Spawns one enemy-owned projectile flying along `direction`.
    pub fn spawn_enemy_projectile(
        &mut self,
        position: Vec2i,
        direction: Vec2i,
        config: &ProjectileConfig,
    ) -> (id: usize)
        requires
            position.in_box(),
            direction.is_dir(),
            config.wf(),
        ensures
            final(self).ents@ == old(self).ents@.push(
                projectile_ent_spec(position, direction, *config, Owner::EnemyOwned),
            ),
            final(self).ents@.len() == old(self).ents@.len() + 1,
            final(self).ents@.subrange(0, old(self).ents@.len() as int) == old(self).ents@,
            is_projectile_ent(
                final(self).ents@.last(),
                position,
                direction,
                *config,
                Owner::EnemyOwned,
            ),
            final(self).ents@.last().wf(),
            id == old(self).ents@.len(),
    {
        self.spawn_projectile(position, direction, config, Owner::EnemyOwned)
    }

    fn spawn_projectile(
        &mut self,
        position: Vec2i,
        direction: Vec2i,
        config: &ProjectileConfig,
        owner: Owner,
    ) -> (id: usize)
        requires
            position.in_box(),
            direction.is_dir(),
            config.wf(),
        ensures
            final(self).ents@ == old(self).ents@.push(
                projectile_ent_spec(position, direction, *config, owner),
            ),
            final(self).ents@.len() == old(self).ents@.len() + 1,
            final(self).ents@.subrange(0, old(self).ents@.len() as int) == old(self).ents@,
            is_projectile_ent(final(self).ents@.last(), position, direction, *config, owner),
            final(self).ents@.last().wf(),
            id == old(self).ents@.len(),
    {
        let mut e = blank_ent(position);
        e.projectile = Some(Projectile { owner, damage: config.damage });
        e.velocity = Some(Velocity { speed: config.speed, direction });
        e.lifetime = Some(Timer::new(PROJECTILE_LIFETIME_MS, false));
        e.hitbox = Some(CircleHitBox { radius: PROJECTILE_RADIUS });
        e.sprite = Some(
            AsciiSprite {
                glyph: config.projectile_shape,
                color: config.color,
                font_size: config.font_size,
            },
        );
        let ghost pre = self.ents@;
        let id = self.spawn(e);
        proof {
            assert(self.ents@.subrange(0, pre.len() as int) =~= pre);
        }
        id
    }

    /// Spawns one ground resource near `base_pos`, scattered by a random
    /// offset inside the spread square so stacked drops do not overlap, and
    /// magnetized toward the given collector.
    pub fn spawn_resource(&mut self, resource_type: ResourceType, base_pos: Vec2i, player: usize) -> (id:
        usize)
        requires
            base_pos.in_box(),
        ensures
            final(self).ents@.len() == old(self).ents@.len() + 1,
            final(self).ents@.subrange(0, old(self).ents@.len() as int) == old(self).ents@,
            is_resource_ent(final(self).ents@.last(), resource_type, player),
            scattered_from(base_pos, final(self).ents@.last().pos),
            final(self).ents@.last().wf(),
            id == old(self).ents@.len(),
    {
        let ox: i64 = scatter_offset(SPREAD_RADIUS);
        let oy: i64 = scatter_offset(SPREAD_RADIUS);
        let pos = Vec2i { x: clamp_coord(base_pos.x + ox), y: clamp_coord(base_pos.y + oy) };
        let mut e = blank_ent(pos);
        e.resource_drop = Some(resource_type);
        e.resource_life = Some(Timer::new(RESOURCE_LIFETIME_MS, false));
        e.magnetized_to = Some(MagnetizedTo { target: player, range: MAGNETIC_RANGE });
        e.magnetic = Some(
            MagneticAttraction {
                peak_speed: MAGNETIC_PEAK_SPEED,
                lerp_per_mille: MAGNETIC_LERP_PER_MILLE,
            },
        );
        e.velocity = Some(Velocity { speed: 0, direction: Vec2i::zero() });
        e.desired = Some(DesiredDirection { dir: Vec2i::zero() });
        e.sprite = Some(
            AsciiSprite { glyph: resource_type.glyph(), color: resource_type.color(), font_size: 20 },
        );
        let ghost pre = self.ents@;
        let id = self.spawn(e);
        proof {
            assert(self.ents@.subrange(0, pre.len() as int) =~= pre);
            assert(scattered_from(base_pos, pos)) by {
                assert(-SPREAD_RADIUS <= ox < SPREAD_RADIUS && -SPREAD_RADIUS <= oy < SPREAD_RADIUS
                    && pos.x == clamp_coord_spec(base_pos.x + ox as int) && pos.y
                    == clamp_coord_spec(base_pos.y + oy as int));
            }
        }
        id
    }

    /// Spawns `count` scattered resources of one kind.
    pub fn spawn_resources(
        &mut self,
        resource_type: ResourceType,
        base_pos: Vec2i,
        count: u32,
        player: usize,
    )
        requires
            base_pos.in_box(),
        ensures
            final(self).ents@.len() == old(self).ents@.len() + count,
            final(self).ents@.subrange(0, old(self).ents@.len() as int) == old(self).ents@,
            forall|j: int|
                old(self).ents@.len() <= j < final(self).ents@.len() ==> is_resource_ent(
                    #[trigger] final(self).ents@[j],
                    resource_type,
                    player,
                ) && scattered_from(base_pos, final(self).ents@[j].pos)
                    && final(self).ents@[j].wf(),
    {
        let mut n: u32 = 0;
        while n < count
            invariant
                n <= count,
                base_pos.in_box(),
                self.ents@.len() == old(self).ents@.len() + n,
                self.ents@.subrange(0, old(self).ents@.len() as int) == old(self).ents@,
                forall|j: int|
                    old(self).ents@.len() <= j < self.ents@.len() ==> is_resource_ent(
                        #[trigger] self.ents@[j],
                        resource_type,
                        player,
                    ) && scattered_from(base_pos, self.ents@[j].pos) && self.ents@[j].wf(),
            decreases count - n,
        {
            let ghost before = self.ents@;
            self.spawn_resource(resource_type, base_pos, player);
            proof {
                assert(self.ents@.subrange(0, old(self).ents@.len() as int) =~= old(self).ents@);
                assert forall|j: int|
                    old(self).ents@.len() <= j < self.ents@.len() implies is_resource_ent(
                    #[trigger] self.ents@[j],
                    resource_type,
                    player,
                ) && scattered_from(base_pos, self.ents@[j].pos) && self.ents@[j].wf() by {
                    if j < before.len() {
                        assert(self.ents@[j] == self.ents@.subrange(0, before.len() as int)[j]);
                    } else {
                        assert(self.ents@[j] == self.ents@.last());
                    }
                }
            }
            n = n + 1;
        }
    }

    /// Despawns every gameplay entity: the player, enemies, projectiles and
    /// ground resources. Menus and the like are not in this store, so the
    /// cleanup criterion is exactly those four roles.
    pub fn cleanup_game_entities(&mut self)
        ensures
            final(self).ents@.len() == old(self).ents@.len(),
            forall|k: int|
                0 <= k < old(self).ents@.len() ==> final(self).ents@[k] == (
                if is_gameplay_ent(#[trigger] old(self).ents@[k]) {
                    despawned(old(self).ents@[k])
                } else {
                    old(self).ents@[k]
                }),
    {
        let mut i: usize = 0;
        while i < self.ents.len()
            invariant
                i <= self.ents@.len(),
                self.ents@.len() == old(self).ents@.len(),
                forall|k: int| i <= k < old(self).ents@.len() ==> self.ents@[k] == old(self).ents@[k],
                forall|k: int|
                    0 <= k < i ==> self.ents@[k] == (if is_gameplay_ent(
                        #[trigger] old(self).ents@[k],
                    ) {
                        despawned(old(self).ents@[k])
                    } else {
                        old(self).ents@[k]
                    }),
            decreases self.ents@.len() - i,
        {
            let is_target: bool = self.ents[i].is_player || self.ents[i].is_enemy
                || self.ents[i].projectile.is_some() || self.ents[i].resource_drop.is_some();
            if is_target {
                let e = ent_mut(&mut self.ents, i);
                e.alive = false;
            }
            i = i + 1;
        }
    }
}

/// Whether an entity belongs to the play field (as opposed to the store
/// holding nothing else here, the four roles the game resets).
pub open spec fn is_gameplay_ent(e: Ent) -> bool {
    e.is_player || e.is_enemy || e.projectile is Some || e.resource_drop is Some
}

/// Index of the first live player record at or after `j`, or `-1`.
pub open spec fn player_index_from(ents: Seq<Ent>, j: int) -> int
    decreases ents.len() - j
    when j >= 0
{
    if j >= ents.len() {
        -1
    } else if ents[j].alive && ents[j].is_player {
        j
    } else {
        player_index_from(ents, j + 1)
    }
}

/// Index of the first live player record, or `-1`.
pub open spec fn player_index(ents: Seq<Ent>) -> int {
    player_index_from(ents, 0)
}

/// Number of live enemies among the first `upto` records.
pub open spec fn count_alive_enemies(ents: Seq<Ent>, upto: int) -> int
    decreases upto,
{
    if upto <= 0 {
        0
    } else {
        count_alive_enemies(ents, upto - 1) + if ents[upto - 1].alive && ents[upto - 1].is_enemy {
            1int
        } else {
            0int
        }
    }
}

} // verus!
