//! Per-tick update passes over the store: targeting behaviors write the
//! desired direction, movement styles translate it into velocity, and the
//! integration step advances positions. Each pass states pointwise what
//! every record becomes.

use vstd::prelude::*;

use crate::components::{MovementStyle, ShootAtTarget};
use crate::math::{clamp_coord_spec, dist_sq, lerp_spec, lerp_toward, step_vec, Vec2i, DT_MAX};
use crate::physics::{DesiredDirection, Velocity};
use crate::timer::Timer;
use crate::world::{ent_mut, Ent, World};

verus! {

/// Dead zone of the keep-range behavior, in world units.
pub const MAINTAIN_RANGE_TOLERANCE: i64 = 10;

/// The vector from one point to another. Both points lie in the playfield,
/// so the difference is a valid direction vector.
pub open spec fn dir_toward(from: Vec2i, to: Vec2i) -> Vec2i {
    Vec2i { x: (to.x - from.x) as i64, y: (to.y - from.y) as i64 }
}

/// Whether `t` denotes a live record of `ents`.
pub open spec fn live_at(ents: Seq<Ent>, t: usize) -> bool {
    t < ents.len() && ents[t as int].alive
}

/// What the chase behavior leaves of record `k`: the desired direction
/// points at the target's current position; a missing or despawned target
/// contributes no change.
pub open spec fn collide_update(ents: Seq<Ent>, k: int) -> Ent {
    let e = ents[k];
    if e.alive && e.desired is Some {
        match e.collide_target {
            Some(ct) => if live_at(ents, ct.target) {
                Ent {
                    desired: Some(
                        DesiredDirection { dir: dir_toward(e.pos, ents[ct.target as int].pos) },
                    ),
                    ..e
                }
            } else {
                e
            },
            None => e,
        }
    } else {
        e
    }
}

/// What the keep-range behavior leaves of record `k`: move toward the
/// target beyond `range + tolerance`, away inside `range - tolerance`, and
/// stand still inside the band. Distances compare exactly via squares.
pub open spec fn maintain_range_update(ents: Seq<Ent>, k: int) -> Ent {
    let e = ents[k];
    if e.alive && e.desired is Some {
        match e.maintain_range {
            Some(m) => if live_at(ents, m.target) {
                let tpos = ents[m.target as int].pos;
                let d2 = dist_sq(e.pos, tpos);
                let hi = m.range + MAINTAIN_RANGE_TOLERANCE;
                let lo = m.range - MAINTAIN_RANGE_TOLERANCE;
                let dir = if d2 > hi * hi {
                    dir_toward(e.pos, tpos)
                } else if lo >= 0 && d2 < lo * lo {
                    dir_toward(tpos, e.pos)
                } else {
                    Vec2i { x: 0i64, y: 0i64 }
                };
                Ent { desired: Some(DesiredDirection { dir }), ..e }
            } else {
                e
            },
            None => e,
        }
    } else {
        e
    }
}

/// What the magnetism targeting step leaves of record `k`: within range the
/// desired direction points at the target, outside it is zero; a missing
/// target contributes no change.
pub open spec fn magnetized_update(ents: Seq<Ent>, k: int) -> Ent {
    let e = ents[k];
    if e.alive && e.desired is Some {
        match e.magnetized_to {
            Some(m) => if live_at(ents, m.target) {
                let tpos = ents[m.target as int].pos;
                let dir = if dist_sq(e.pos, tpos) <= m.range * m.range {
                    dir_toward(e.pos, tpos)
                } else {
                    Vec2i { x: 0i64, y: 0i64 }
                };
                Ent { desired: Some(DesiredDirection { dir }), ..e }
            } else {
                e
            },
            None => e,
        }
    } else {
        e
    }
}

/// What the magnetism easing step leaves of record `k`: velocity direction
/// and speed ease toward the desired direction and the peak speed (or zero
/// when the desired direction is zero) by the fixed per-mille factor.
pub open spec fn magnetic_attraction_update(ents: Seq<Ent>, k: int) -> Ent {
    let e = ents[k];
    if e.alive {
        match (e.velocity, e.magnetic, e.desired) {
            (Some(v), Some(m), Some(d)) => {
                let target_speed: i64 = if !d.dir.is_zero() {
                    m.peak_speed
                } else {
                    0i64
                };
                Ent {
                    velocity: Some(
                        Velocity {
                            speed: lerp_spec(v.speed as int, target_speed as int, m.lerp_per_mille as int) as i64,
                            direction: Vec2i {
                                x: lerp_spec(
                                    v.direction.x as int,
                                    d.dir.x as int,
                                    m.lerp_per_mille as int,
                                ) as i64,
                                y: lerp_spec(
                                    v.direction.y as int,
                                    d.dir.y as int,
                                    m.lerp_per_mille as int,
                                ) as i64,
                            },
                        },
                    ),
                    ..e
                }
            },
            _ => e,
        }
    } else {
        e
    }
}

/// What the direct movement style leaves of record `k`: the desired
/// direction copied straight into the velocity direction.
pub open spec fn move_direct_update(ents: Seq<Ent>, k: int) -> Ent {
    let e = ents[k];
    if e.alive && e.movement == Some(MovementStyle::DirectMovement) {
        match (e.velocity, e.desired) {
            (Some(v), Some(d)) => Ent {
                velocity: Some(Velocity { speed: v.speed, direction: d.dir }),
                ..e
            },
            _ => e,
        }
    } else {
        e
    }
}

/// What the integration step leaves of record `k`: the position advanced
/// along the velocity for `dt` milliseconds and clamped into the playfield.
pub open spec fn apply_velocity_update(ents: Seq<Ent>, k: int, dt: u64) -> Ent {
    let e = ents[k];
    if e.alive {
        match e.velocity {
            Some(v) => {
                let s = step_vec(v.direction, v.speed as int, dt as int);
                Ent {
                    pos: Vec2i {
                        x: clamp_coord_spec(e.pos.x + s.0) as i64,
                        y: clamp_coord_spec(e.pos.y + s.1) as i64,
                    },
                    ..e
                }
            },
            None => e,
        }
    } else {
        e
    }
}

/// A timer advanced by `dt` milliseconds.
pub open spec fn ticked_timer(t: Timer, dt: u64) -> Timer {
    Timer { elapsed_ms: t.elapsed_after(dt) as u64, ..t }
}

/// What the projectile lifetime step leaves of record `k`: the timer
/// advanced, and the record despawned once the timer has run out.
pub open spec fn tick_lifetime_update(ents: Seq<Ent>, k: int, dt: u64) -> Ent {
    let e = ents[k];
    if e.alive {
        match e.lifetime {
            Some(t) => {
                let t2 = ticked_timer(t, dt);
                if t2.elapsed_ms >= t2.duration_ms {
                    Ent { alive: false, lifetime: Some(t2), ..e }
                } else {
                    Ent { lifetime: Some(t2), ..e }
                }
            },
            None => e,
        }
    } else {
        e
    }
}

/// What the resource lifetime step leaves of record `k`: the ground timer
/// advanced; on expiry the record despawns unconditionally, and within the
/// blink window visibility follows the blink parity of the remaining life.
pub open spec fn resource_life_update(ents: Seq<Ent>, k: int, dt: u64) -> Ent {
    let e = ents[k];
    if e.alive {
        match e.resource_life {
            Some(t) => {
                let t2 = ticked_timer(t, dt);
                if t.completes(dt) {
                    Ent { alive: false, resource_life: Some(t2), ..e }
                } else {
                    let remaining = t2.duration_ms - t2.elapsed_ms;
                    if remaining <= crate::resources::BLINK_THRESHOLD_MS {
                        Ent {
                            visible: crate::resources::blink_visible_spec(remaining as u64),
                            resource_life: Some(t2),
                            ..e
                        }
                    } else {
                        Ent { resource_life: Some(t2), ..e }
                    }
                }
            },
            None => e,
        }
    } else {
        e
    }
}

impl World {
    /// The resource decay pass: every ground drop's lifetime advances; an
    /// expired drop despawns, and one in its final stretch blinks by the
    /// parity of its remaining life.
    pub fn tick_resource_lifetimes(&mut self, dt_ms: u64)
        requires
            old(self).wf(),
            dt_ms <= DT_MAX,
        ensures
            final(self).wf(),
            final(self).ents@.len() == old(self).ents@.len(),
            forall|k: int|
                0 <= k < old(self).ents@.len() ==> final(self).ents@[k] == resource_life_update(
                    old(self).ents@,
                    k,
                    dt_ms,
                ),
    {
        let ghost ents0 = self.ents@;
        let n: usize = self.ents.len();
        let mut i: usize = 0;
        while i < n
            invariant
                old(self).wf(),
                ents0 == old(self).ents@,
                dt_ms <= DT_MAX,
                n == ents0.len(),
                i <= n,
                self.ents@.len() == n,
                forall|k: int| i <= k < n ==> self.ents@[k] == ents0[k],
                forall|k: int|
                    0 <= k < i ==> self.ents@[k] == resource_life_update(ents0, k, dt_ms),
                self.wf(),
            decreases n - i,
        {
            proof {
                assert(self.ents@[i as int] == ents0[i as int]);
            }
            let e_alive: bool = self.ents[i].alive;
            let t_opt = self.ents[i].resource_life;
            if e_alive && t_opt.is_some() {
                let mut t = t_opt.unwrap();
                let finished: bool = t.tick(dt_ms);
                if finished {
                    let e = ent_mut(&mut self.ents, i);
                    e.resource_life = Some(t);
                    e.alive = false;
                } else {
                    let remaining: u64 = t.remaining_ms();
                    let blink: bool = crate::resources::blink_visible(remaining);
                    let e = ent_mut(&mut self.ents, i);
                    e.resource_life = Some(t);
                    if remaining <= crate::resources::BLINK_THRESHOLD_MS {
                        e.visible = blink;
                    }
                }
            }
            i = i + 1;
        }
    }

    /// The chase pass: every live chaser's desired direction is set toward
    /// its target's current position.
    pub fn collide_target_system(&mut self)
        requires
            old(self).wf(),
        ensures
            final(self).wf(),
            final(self).ents@.len() == old(self).ents@.len(),
            forall|k: int|
                0 <= k < old(self).ents@.len() ==> final(self).ents@[k] == collide_update(
                    old(self).ents@,
                    k,
                ),
    {
        let ghost ents0 = self.ents@;
        let n: usize = self.ents.len();
        let mut i: usize = 0;
        while i < n
            invariant
                old(self).wf(),
                ents0 == old(self).ents@,
                n == ents0.len(),
                i <= n,
                self.ents@.len() == n,
                forall|k: int| i <= k < n ==> self.ents@[k] == ents0[k],
                forall|k: int| 0 <= k < i ==> self.ents@[k] == collide_update(ents0, k),
                self.wf(),
            decreases n - i,
        {
            proof {
                assert(self.ents@[i as int] == ents0[i as int]);
            }
            let e_alive: bool = self.ents[i].alive;
            let has_desired: bool = self.ents[i].desired.is_some();
            let my_pos: Vec2i = self.ents[i].pos;
            let ct_opt = self.ents[i].collide_target;
            if e_alive && has_desired && ct_opt.is_some() {
                let t: usize = ct_opt.unwrap().target;
                if t < n {
                    let t_alive: bool = self.ents[t].alive;
                    let t_pos: Vec2i = self.ents[t].pos;
                    proof {
                        lemma_pos_alive_stable_desired(ents0, self.ents@, i as int, t as int);
                    }
                    if t_alive {
                        let e = ent_mut(&mut self.ents, i);
                        e.desired = Some(
                            DesiredDirection {
                                dir: Vec2i { x: t_pos.x - my_pos.x, y: t_pos.y - my_pos.y },
                            },
                        );
                    }
                }
            }
            i = i + 1;
        }
    }
}

/// In a pass that only rewrites desired directions, every record keeps its
/// position and alive flag, so reading a target mid-pass reads its original
/// position.
proof fn lemma_pos_alive_stable_desired(ents0: Seq<Ent>, now: Seq<Ent>, i: int, t: int)
    requires
        0 <= t < ents0.len(),
        now.len() == ents0.len(),
        forall|k: int| i <= k < ents0.len() ==> now[k] == ents0[k],
        forall|k: int| 0 <= k < i ==> now[k] == collide_update(ents0, k),
    ensures
        now[t].pos == ents0[t].pos,
        now[t].alive == ents0[t].alive,
{
}

/// The same stability fact for the keep-range pass.
proof fn lemma_pos_alive_stable_maintain(ents0: Seq<Ent>, now: Seq<Ent>, i: int, t: int)
    requires
        0 <= t < ents0.len(),
        now.len() == ents0.len(),
        forall|k: int| i <= k < ents0.len() ==> now[k] == ents0[k],
        forall|k: int| 0 <= k < i ==> now[k] == maintain_range_update(ents0, k),
    ensures
        now[t].pos == ents0[t].pos,
        now[t].alive == ents0[t].alive,
{
}

/// The same stability fact for the magnetism targeting pass.
proof fn lemma_pos_alive_stable_magnetized(ents0: Seq<Ent>, now: Seq<Ent>, i: int, t: int)
    requires
        0 <= t < ents0.len(),
        now.len() == ents0.len(),
        forall|k: int| i <= k < ents0.len() ==> now[k] == ents0[k],
        forall|k: int| 0 <= k < i ==> now[k] == magnetized_update(ents0, k),
    ensures
        now[t].pos == ents0[t].pos,
        now[t].alive == ents0[t].alive,
{
}

/// What the shooting pass leaves of record `k`: its cooldown advanced by
/// one frame, everything else untouched.
pub open spec fn shoot_ticked(ents: Seq<Ent>, k: int, dt: u64) -> Ent {
    let e = ents[k];
    if e.alive {
        match e.shoot_at_target {
            Some(s) => Ent {
                shoot_at_target: Some(
                    ShootAtTarget {
                        target: s.target,
                        cooldown: ticked_timer(s.cooldown, dt),
                        config: s.config,
                    },
                ),
                ..e
            },
            None => e,
        }
    } else {
        e
    }
}

/// The projectile record `k` releases on this frame, if its cooldown
/// completes and its target is still there: an enemy-owned projectile flying
/// from the shooter toward the target's current position.
pub open spec fn shot_from(ents: Seq<Ent>, k: int, dt: u64) -> Option<Ent> {
    let e = ents[k];
    if e.alive {
        match e.shoot_at_target {
            Some(s) => if s.cooldown.completes(dt) && live_at(ents, s.target) {
                Some(
                    crate::world::projectile_ent_spec(
                        e.pos,
                        dir_toward(e.pos, ents[s.target as int].pos),
                        s.config,
                        crate::components::Owner::EnemyOwned,
                    ),
                )
            } else {
                None
            },
            None => None,
        }
    } else {
        None
    }
}

/// All projectiles released by the first `upto` records, in record order.
pub open spec fn shots_fired(ents: Seq<Ent>, upto: int, dt: u64) -> Seq<Ent>
    decreases upto,
{
    if upto <= 0 {
        Seq::empty()
    } else {
        shots_fired(ents, upto - 1, dt) + match shot_from(ents, upto - 1, dt) {
            Some(p) => seq![p],
            None => Seq::empty(),
        }
    }
}

/// The same stability fact for the shooting pass: cooldown updates keep
/// every record's position and alive flag.
proof fn lemma_pos_alive_stable_shoot(ents0: Seq<Ent>, now: Seq<Ent>, i: int, t: int, dt: u64)
    requires
        0 <= t < ents0.len(),
        now.len() >= ents0.len(),
        forall|k: int| i <= k < ents0.len() ==> now[k] == ents0[k],
        forall|k: int| 0 <= k < i ==> now[k] == shoot_ticked(ents0, k, dt),
    ensures
        now[t].pos == ents0[t].pos,
        now[t].alive == ents0[t].alive,
{
}

impl World {
    /// The shooting pass: each live shooter's cooldown advances, and on
    /// each completion with a live target one enemy projectile spawns,
    /// aimed at the target's current position. Released projectiles are
    /// appended after the existing records, in shooter order.
    pub fn shoot_at_target_system(&mut self, dt_ms: u64)
        requires
            old(self).wf(),
            dt_ms <= DT_MAX,
        ensures
            final(self).wf(),
            final(self).ents@.len() == old(self).ents@.len() + shots_fired(
                old(self).ents@,
                old(self).ents@.len() as int,
                dt_ms,
            ).len(),
            forall|k: int|
                0 <= k < old(self).ents@.len() ==> final(self).ents@[k] == shoot_ticked(
                    old(self).ents@,
                    k,
                    dt_ms,
                ),
            final(self).ents@.skip(old(self).ents@.len() as int) == shots_fired(
                old(self).ents@,
                old(self).ents@.len() as int,
                dt_ms,
            ),
    {
        let ghost ents0 = self.ents@;
        let n: usize = self.ents.len();
        let mut i: usize = 0;
        proof {
            assert(self.ents@.skip(n as int) =~= Seq::<Ent>::empty());
        }
        while i < n
            invariant
                old(self).wf(),
                ents0 == old(self).ents@,
                dt_ms <= DT_MAX,
                n == ents0.len(),
                i <= n,
                self.ents@.len() == n + shots_fired(ents0, i as int, dt_ms).len(),
                forall|k: int| i <= k < n ==> self.ents@[k] == ents0[k],
                forall|k: int| 0 <= k < i ==> self.ents@[k] == shoot_ticked(ents0, k, dt_ms),
                self.ents@.skip(n as int) == shots_fired(ents0, i as int, dt_ms),
                self.wf(),
            decreases n - i,
        {
            proof {
                assert(self.ents@[i as int] == ents0[i as int]);
            }
            let e_alive: bool = self.ents[i].alive;
            let my_pos: Vec2i = self.ents[i].pos;
            let s_opt = self.ents[i].shoot_at_target;
            if e_alive && s_opt.is_some() {
                let mut s = s_opt.unwrap();
                let fired: bool = s.cooldown.tick(dt_ms);
                {
                    let e = ent_mut(&mut self.ents, i);
                    e.shoot_at_target = Some(s);
                }
                proof {
                    assert(self.ents@[i as int] == shoot_ticked(ents0, i as int, dt_ms));
                    assert(self.ents@.skip(n as int) =~= shots_fired(ents0, i as int, dt_ms));
                }
                if fired {
                    let t: usize = s.target;
                    if t < n {
                        let t_alive: bool = self.ents[t].alive;
                        let t_pos: Vec2i = self.ents[t].pos;
                        proof {
                            lemma_pos_alive_stable_shoot(
                                ents0,
                                self.ents@,
                                i + 1,
                                t as int,
                                dt_ms,
                            );
                        }
                        if t_alive {
                            let dir = Vec2i { x: t_pos.x - my_pos.x, y: t_pos.y - my_pos.y };
                            let ghost before = self.ents@;
                            self.spawn_enemy_projectile(my_pos, dir, &s.config);
                            proof {
                                assert(self.ents@.skip(n as int) =~= before.skip(n as int).push(
                                    self.ents@.last(),
                                ));
                                assert(shots_fired(ents0, i + 1, dt_ms) =~= shots_fired(
                                    ents0,
                                    i as int,
                                    dt_ms,
                                ).push(self.ents@.last()));
                            }
                        }
                    }
                }
            }
            proof {
                if !(e_alive && s_opt is Some) {
                    assert(self.ents@[i as int] == shoot_ticked(ents0, i as int, dt_ms));
                }
                assert(shots_fired(ents0, i + 1, dt_ms) == shots_fired(ents0, i as int, dt_ms)
                    + match shot_from(ents0, i as int, dt_ms) {
                    Some(p) => seq![p],
                    None => Seq::<Ent>::empty(),
                });
                if shot_from(ents0, i as int, dt_ms) is None {
                    assert(shots_fired(ents0, i + 1, dt_ms) =~= shots_fired(
                        ents0,
                        i as int,
                        dt_ms,
                    ));
                }
            }
            i = i + 1;
        }
    }

    /// The keep-range pass.
    pub fn maintain_range_system(&mut self)
        requires
            old(self).wf(),
        ensures
            final(self).wf(),
            final(self).ents@.len() == old(self).ents@.len(),
            forall|k: int|
                0 <= k < old(self).ents@.len() ==> final(self).ents@[k] == maintain_range_update(
                    old(self).ents@,
                    k,
                ),
    {
        let ghost ents0 = self.ents@;
        let n: usize = self.ents.len();
        let mut i: usize = 0;
        while i < n
            invariant
                old(self).wf(),
                ents0 == old(self).ents@,
                n == ents0.len(),
                i <= n,
                self.ents@.len() == n,
                forall|k: int| i <= k < n ==> self.ents@[k] == ents0[k],
                forall|k: int| 0 <= k < i ==> self.ents@[k] == maintain_range_update(ents0, k),
                self.wf(),
            decreases n - i,
        {
            proof {
                assert(self.ents@[i as int] == ents0[i as int]);
            }
            let e_alive: bool = self.ents[i].alive;
            let has_desired: bool = self.ents[i].desired.is_some();
            let my_pos: Vec2i = self.ents[i].pos;
            let m_opt = self.ents[i].maintain_range;
            if e_alive && has_desired && m_opt.is_some() {
                let m = m_opt.unwrap();
                if m.target < n {
                    let t_alive: bool = self.ents[m.target].alive;
                    let t_pos: Vec2i = self.ents[m.target].pos;
                    proof {
                        lemma_pos_alive_stable_maintain(
                            ents0,
                            self.ents@,
                            i as int,
                            m.target as int,
                        );
                        crate::math::lemma_square_bound(
                            (m.range + MAINTAIN_RANGE_TOLERANCE) as int,
                            crate::math::POS_MAX as int + MAINTAIN_RANGE_TOLERANCE as int,
                        );
                        crate::math::lemma_square_bound(
                            (m.range - MAINTAIN_RANGE_TOLERANCE) as int,
                            crate::math::POS_MAX as int + MAINTAIN_RANGE_TOLERANCE as int,
                        );
                    }
                    if t_alive {
                        let d2: i64 = crate::math::distance_squared(my_pos, t_pos);
                        let hi: i64 = m.range + MAINTAIN_RANGE_TOLERANCE;
                        let lo: i64 = m.range - MAINTAIN_RANGE_TOLERANCE;
                        let dir: Vec2i = if d2 > hi * hi {
                            Vec2i { x: t_pos.x - my_pos.x, y: t_pos.y - my_pos.y }
                        } else if lo >= 0 && d2 < lo * lo {
                            Vec2i { x: my_pos.x - t_pos.x, y: my_pos.y - t_pos.y }
                        } else {
                            Vec2i { x: 0, y: 0 }
                        };
                        let e = ent_mut(&mut self.ents, i);
                        e.desired = Some(DesiredDirection { dir });
                    }
                }
            }
            i = i + 1;
        }
    }

    /// The magnetism targeting pass.
    pub fn magnetized_to_system(&mut self)
        requires
            old(self).wf(),
        ensures
            final(self).wf(),
            final(self).ents@.len() == old(self).ents@.len(),
            forall|k: int|
                0 <= k < old(self).ents@.len() ==> final(self).ents@[k] == magnetized_update(
                    old(self).ents@,
                    k,
                ),
    {
        let ghost ents0 = self.ents@;
        let n: usize = self.ents.len();
        let mut i: usize = 0;
        while i < n
            invariant
                old(self).wf(),
                ents0 == old(self).ents@,
                n == ents0.len(),
                i <= n,
                self.ents@.len() == n,
                forall|k: int| i <= k < n ==> self.ents@[k] == ents0[k],
                forall|k: int| 0 <= k < i ==> self.ents@[k] == magnetized_update(ents0, k),
                self.wf(),
            decreases n - i,
        {
            proof {
                assert(self.ents@[i as int] == ents0[i as int]);
            }
            let e_alive: bool = self.ents[i].alive;
            let has_desired: bool = self.ents[i].desired.is_some();
            let my_pos: Vec2i = self.ents[i].pos;
            let m_opt = self.ents[i].magnetized_to;
            if e_alive && has_desired && m_opt.is_some() {
                let m = m_opt.unwrap();
                if m.target < n {
                    let t_alive: bool = self.ents[m.target].alive;
                    let t_pos: Vec2i = self.ents[m.target].pos;
                    proof {
                        lemma_pos_alive_stable_magnetized(
                            ents0,
                            self.ents@,
                            i as int,
                            m.target as int,
                        );
                        crate::math::lemma_square_bound(
                            m.range as int,
                            crate::math::POS_MAX as int,
                        );
                    }
                    if t_alive {
                        let d2: i64 = crate::math::distance_squared(my_pos, t_pos);
                        let dir: Vec2i = if d2 <= m.range * m.range {
                            Vec2i { x: t_pos.x - my_pos.x, y: t_pos.y - my_pos.y }
                        } else {
                            Vec2i { x: 0, y: 0 }
                        };
                        let e = ent_mut(&mut self.ents, i);
                        e.desired = Some(DesiredDirection { dir });
                    }
                }
            }
            i = i + 1;
        }
    }

    /// The magnetism easing pass: must run after the targeting pass has set
    /// desired directions and before movement integration.
    pub fn magnetic_attraction_system(&mut self)
        requires
            old(self).wf(),
        ensures
            final(self).wf(),
            final(self).ents@.len() == old(self).ents@.len(),
            forall|k: int|
                0 <= k < old(self).ents@.len() ==> final(self).ents@[k]
                    == magnetic_attraction_update(old(self).ents@, k),
    {
        let ghost ents0 = self.ents@;
        let n: usize = self.ents.len();
        let mut i: usize = 0;
        while i < n
            invariant
                old(self).wf(),
                ents0 == old(self).ents@,
                n == ents0.len(),
                i <= n,
                self.ents@.len() == n,
                forall|k: int| i <= k < n ==> self.ents@[k] == ents0[k],
                forall|k: int|
                    0 <= k < i ==> self.ents@[k] == magnetic_attraction_update(ents0, k),
                self.wf(),
            decreases n - i,
        {
            proof {
                assert(self.ents@[i as int] == ents0[i as int]);
            }
            let e_alive: bool = self.ents[i].alive;
            let v_opt = self.ents[i].velocity;
            let m_opt = self.ents[i].magnetic;
            let d_opt = self.ents[i].desired;
            if e_alive && v_opt.is_some() && m_opt.is_some() && d_opt.is_some() {
                let v = v_opt.unwrap();
                let m = m_opt.unwrap();
                let d = d_opt.unwrap();
                let target_speed: i64 = if d.dir.x != 0 || d.dir.y != 0 {
                    m.peak_speed
                } else {
                    0
                };
                let new_speed: i64 = lerp_toward(v.speed, target_speed, m.lerp_per_mille);
                let new_x: i64 = lerp_toward(v.direction.x, d.dir.x, m.lerp_per_mille);
                let new_y: i64 = lerp_toward(v.direction.y, d.dir.y, m.lerp_per_mille);
                let e = ent_mut(&mut self.ents, i);
                e.velocity = Some(
                    Velocity { speed: new_speed, direction: Vec2i { x: new_x, y: new_y } },
                );
            }
            i = i + 1;
        }
    }

    /// The direct movement style pass.
    pub fn move_direct(&mut self)
        requires
            old(self).wf(),
        ensures
            final(self).wf(),
            final(self).ents@.len() == old(self).ents@.len(),
            forall|k: int|
                0 <= k < old(self).ents@.len() ==> final(self).ents@[k] == move_direct_update(
                    old(self).ents@,
                    k,
                ),
    {
        let ghost ents0 = self.ents@;
        let n: usize = self.ents.len();
        let mut i: usize = 0;
        while i < n
            invariant
                old(self).wf(),
                ents0 == old(self).ents@,
                n == ents0.len(),
                i <= n,
                self.ents@.len() == n,
                forall|k: int| i <= k < n ==> self.ents@[k] == ents0[k],
                forall|k: int| 0 <= k < i ==> self.ents@[k] == move_direct_update(ents0, k),
                self.wf(),
            decreases n - i,
        {
            proof {
                assert(self.ents@[i as int] == ents0[i as int]);
            }
            let e_alive: bool = self.ents[i].alive;
            let is_direct: bool = self.ents[i].movement.is_some();
            proof {
                if self.ents@[i as int].movement is Some {
                    assert(self.ents@[i as int].movement == Some(MovementStyle::DirectMovement));
                }
            }
            let v_opt = self.ents[i].velocity;
            let d_opt = self.ents[i].desired;
            if e_alive && is_direct && v_opt.is_some() && d_opt.is_some() {
                let v = v_opt.unwrap();
                let d = d_opt.unwrap();
                let e = ent_mut(&mut self.ents, i);
                e.velocity = Some(Velocity { speed: v.speed, direction: d.dir });
            }
            i = i + 1;
        }
    }

    /// The integration pass: `position += direction * speed * dt`, for every
    /// live record with a velocity, unconditionally.
    pub fn apply_velocity(&mut self, dt_ms: u64)
        requires
            old(self).wf(),
            dt_ms <= DT_MAX,
        ensures
            final(self).wf(),
            final(self).ents@.len() == old(self).ents@.len(),
            forall|k: int|
                0 <= k < old(self).ents@.len() ==> final(self).ents@[k] == apply_velocity_update(
                    old(self).ents@,
                    k,
                    dt_ms,
                ),
    {
        let ghost ents0 = self.ents@;
        let n: usize = self.ents.len();
        let mut i: usize = 0;
        while i < n
            invariant
                old(self).wf(),
                ents0 == old(self).ents@,
                dt_ms <= DT_MAX,
                n == ents0.len(),
                i <= n,
                self.ents@.len() == n,
                forall|k: int| i <= k < n ==> self.ents@[k] == ents0[k],
                forall|k: int|
                    0 <= k < i ==> self.ents@[k] == apply_velocity_update(ents0, k, dt_ms),
                self.wf(),
            decreases n - i,
        {
            proof {
                assert(self.ents@[i as int] == ents0[i as int]);
            }
            let e_alive: bool = self.ents[i].alive;
            let v_opt = self.ents[i].velocity;
            let my_pos: Vec2i = self.ents[i].pos;
            if e_alive && v_opt.is_some() {
                let v = v_opt.unwrap();
                let p: Vec2i = crate::math::step_position(my_pos, v.direction, v.speed, dt_ms);
                let e = ent_mut(&mut self.ents, i);
                e.pos = p;
            }
            i = i + 1;
        }
    }

    /// The projectile lifetime pass: advance each lifetimer and despawn the
    /// record when it runs out.
    pub fn tick_lifetimes(&mut self, dt_ms: u64)
        requires
            old(self).wf(),
            dt_ms <= DT_MAX,
        ensures
            final(self).wf(),
            final(self).ents@.len() == old(self).ents@.len(),
            forall|k: int|
                0 <= k < old(self).ents@.len() ==> final(self).ents@[k] == tick_lifetime_update(
                    old(self).ents@,
                    k,
                    dt_ms,
                ),
    {
        let ghost ents0 = self.ents@;
        let n: usize = self.ents.len();
        let mut i: usize = 0;
        while i < n
            invariant
                old(self).wf(),
                ents0 == old(self).ents@,
                dt_ms <= DT_MAX,
                n == ents0.len(),
                i <= n,
                self.ents@.len() == n,
                forall|k: int| i <= k < n ==> self.ents@[k] == ents0[k],
                forall|k: int|
                    0 <= k < i ==> self.ents@[k] == tick_lifetime_update(ents0, k, dt_ms),
                self.wf(),
            decreases n - i,
        {
            proof {
                assert(self.ents@[i as int] == ents0[i as int]);
            }
            let e_alive: bool = self.ents[i].alive;
            let t_opt = self.ents[i].lifetime;
            if e_alive && t_opt.is_some() {
                let mut t = t_opt.unwrap();
                t.tick(dt_ms);
                let finished: bool = t.is_finished();
                let e = ent_mut(&mut self.ents, i);
                e.lifetime = Some(t);
                if finished {
                    e.alive = false;
                }
            }
            i = i + 1;
        }
    }
}

} // verus!
