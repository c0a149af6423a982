//! The player's own update steps: keyboard movement, weapon fire, and
//! weapon switching. The host reads the keyboard and cursor and hands in
//! plain values; everything decided here is verified.

use vstd::prelude::*;

use crate::math::{clamp_coord, clamp_coord_spec, Vec2i, DT_MAX};
use crate::timer::Timer;
use crate::weapon::Weapon;
use crate::world::{ent_mut, player_index, Ent, World};

verus! {

/// World units per second the player walks at.
pub const PLAYER_SPEED: i64 = 300;

/// Numerator of the diagonal scale: moving on both axes at once scales each
/// component by 707/1000 — the integer stand-in for a unit diagonal.
pub const DIAGONAL_SCALE_PM: i64 = 707;

/// The keys held this frame, as movement intent.
#[derive(Clone, Copy, PartialEq, Eq, Structural, Debug)]
pub struct MoveInput {
    pub left: bool,
    pub right: bool,
    pub up: bool,
    pub down: bool,
}

/// The per-axis sign of the held keys: opposite keys cancel.
pub open spec fn axis_sign(neg: bool, pos: bool) -> int {
    (if pos {
        1int
    } else {
        0int
    }) - (if neg {
        1int
    } else {
        0int
    })
}

/// One frame's player displacement: `speed * dt` along each held axis,
/// scaled by 707/1000 per component on a diagonal.
pub open spec fn player_move_delta_spec(input: MoveInput, dt: u64) -> (int, int) {
    let sx = axis_sign(input.left, input.right);
    let sy = axis_sign(input.down, input.up);
    let step = if sx != 0 && sy != 0 {
        (PLAYER_SPEED * dt * DIAGONAL_SCALE_PM) / 1000000
    } else {
        (PLAYER_SPEED * dt) / 1000
    };
    (
        if sx > 0 {
            step
        } else if sx < 0 {
            -step
        } else {
            0
        },
        if sy > 0 {
            step
        } else if sy < 0 {
            -step
        } else {
            0
        },
    )
}

/// Computes the frame displacement exactly.
pub fn player_move_delta(input: MoveInput, dt: u64) -> (r: Vec2i)
    requires
        dt <= DT_MAX,
    ensures
        r.x == player_move_delta_spec(input, dt).0,
        r.y == player_move_delta_spec(input, dt).1,
        -20000000 <= r.x <= 20000000,
        -20000000 <= r.y <= 20000000,
{
    let sx: i64 = (if input.right {
        1i64
    } else {
        0i64
    }) - (if input.left {
        1i64
    } else {
        0i64
    });
    let sy: i64 = (if input.up {
        1i64
    } else {
        0i64
    }) - (if input.down {
        1i64
    } else {
        0i64
    });
    let step_u: u64 = if sx != 0 && sy != 0 {
        300 * dt * 707 / 1000000
    } else {
        300 * dt / 1000
    };
    let step: i64 = step_u as i64;
    let x: i64 = if sx > 0 {
        step
    } else if sx < 0 {
        -step
    } else {
        0
    };
    let y: i64 = if sy > 0 {
        step
    } else if sy < 0 {
        -step
    } else {
        0
    };
    Vec2i { x, y }
}


/// The store after the player's movement step, as a function: the player
/// record moved by this frame's displacement and clamped into the
/// playfield; without a live player, the store unchanged.
pub open spec fn move_player_spec(e: Seq<Ent>, input: MoveInput, dt: u64) -> Seq<Ent> {
    let p = player_index(e);
    if p < 0 {
        e
    } else {
        let d = player_move_delta_spec(input, dt);
        let e0 = e[p];
        e.update(
            p,
            Ent {
                pos: Vec2i {
                    x: clamp_coord_spec(e0.pos.x + d.0) as i64,
                    y: clamp_coord_spec(e0.pos.y + d.1) as i64,
                },
                ..e0
            },
        )
    }
}

/// The store after the fire step, as a function: the player's cooldown
/// advanced, and — if the trigger was held as it completed — one
/// player-owned projectile appended per aim direction.
pub open spec fn player_shoot_spec(e: Seq<Ent>, dt: u64, trigger: bool, dirs: Seq<Vec2i>) -> Seq<
    Ent,
> {
    let p = player_index(e);
    if p < 0 {
        e
    } else {
        match e[p].weapon {
            None => e,
            Some(w) => {
                let fired = trigger && w.fire_cooldown.completes(dt);
                let ticked = Ent {
                    weapon: Some(
                        Weapon {
                            fire_cooldown: crate::behaviors::ticked_timer(w.fire_cooldown, dt),
                            ..w
                        },
                    ),
                    ..e[p]
                };
                let te = e.update(p, ticked);
                if fired {
                    te + Seq::new(
                        dirs.len(),
                        |j: int|
                            crate::world::projectile_ent_spec(
                                e[p].pos,
                                dirs[j],
                                w.config,
                                crate::components::Owner::PlayerOwned,
                            ),
                    )
                } else {
                    te
                }
            },
        }
    }
}

/// What the fire step leaves behind: without a live player, or a player
/// without a weapon, nothing changes; otherwise the fire cooldown advances,
/// and if the trigger was held as it completed, one player-owned projectile
/// per aim direction is appended, flying from the player's position.
pub open spec fn shoot_outcome(
    ents0: Seq<Ent>,
    ents1: Seq<Ent>,
    dt: u64,
    trigger: bool,
    dirs: Seq<Vec2i>,
) -> bool {
    let p = player_index(ents0);
    if p < 0 {
        ents1 == ents0
    } else {
        let e = ents0[p];
        match e.weapon {
            None => ents1 == ents0,
            Some(w) => {
                let fired = trigger && w.fire_cooldown.completes(dt);
                let ticked = Ent {
                    weapon: Some(
                        Weapon {
                            fire_cooldown: crate::behaviors::ticked_timer(w.fire_cooldown, dt),
                            ..w
                        },
                    ),
                    ..e
                };
                &&& ents1.len() == ents0.len() + (if fired {
                    dirs.len()
                } else {
                    0
                })
                &&& ents1[p] == ticked
                &&& (forall|k: int| 0 <= k < ents0.len() && k != p ==> ents1[k] == ents0[k])
                &&& (fired ==> forall|j: int|
                    0 <= j < dirs.len() ==> ents1[ents0.len() + j]
                        == crate::world::projectile_ent_spec(
                        e.pos,
                        dirs[j],
                        w.config,
                        crate::components::Owner::PlayerOwned,
                    ))
            },
        }
    }
}

/// What a slot switch leaves behind: with a weapon in the requested slot,
/// that slot becomes active and the held weapon is rebuilt from its kind
/// with a fresh cooldown; otherwise nothing changes.
pub open spec fn switch_outcome(ents0: Seq<Ent>, ents1: Seq<Ent>, slot: usize) -> bool {
    let p = player_index(ents0);
    if p < 0 {
        ents1 == ents0
    } else {
        let e = ents0[p];
        match e.inventory {
            None => ents1 == ents0,
            Some(inv) => {
                let chosen = if slot < inv.weapon_slots@.len() {
                    inv.weapon_slots@[slot as int]
                } else {
                    None
                };
                match chosen {
                    None => ents1 == ents0,
                    Some(wt) => {
                        &&& ents1.len() == ents0.len()
                        &&& (forall|k: int|
                            0 <= k < ents0.len() && k != p ==> ents1[k] == ents0[k])
                        &&& (ents1[p].inventory matches Some(inv2) && inv2.weapon_slots@
                            == inv.weapon_slots@ && inv2.active_weapon_slot == slot
                            && inv2.scrap_metal == inv.scrap_metal && inv2.circuitry
                            == inv.circuitry && inv2.drone_weapon_parts
                            == inv.drone_weapon_parts)
                        &&& (ents1[p].weapon matches Some(w) && w.weapon_type == wt
                            && crate::weapon::config_of(wt, w.config) && w.fire_cooldown == Timer {
                            elapsed_ms: 0u64,
                            duration_ms: crate::weapon::cooldown_ms_of(wt),
                            repeating: true,
                        } && w.fire_pattern == crate::weapon::fire_pattern_of(wt))
                        &&& ents1[p].pos == e.pos
                        &&& ents1[p].alive == e.alive
                        &&& ents1[p].health == e.health
                        &&& ents1[p].is_player == e.is_player
                        &&& ents1[p].hitbox == e.hitbox
                    },
                }
            },
        }
    }
}

impl World {
    /// Moves the player by this frame's held keys; does nothing without a
    /// live player. The position clamps into the playfield.
    pub fn move_player(&mut self, input: MoveInput, dt_ms: u64)
        requires
            old(self).wf(),
            dt_ms <= DT_MAX,
        ensures
            final(self).wf(),
            final(self).ents@.len() == old(self).ents@.len(),
            final(self).ents@ == move_player_spec(old(self).ents@, input, dt_ms),
            player_index(old(self).ents@) < 0 ==> final(self).ents@ == old(self).ents@,
            player_index(old(self).ents@) >= 0 ==> {
                let p = player_index(old(self).ents@);
                let d = player_move_delta_spec(input, dt_ms);
                let e = old(self).ents@[p];
                &&& final(self).ents@ == old(self).ents@.update(
                    p,
                    Ent {
                        pos: Vec2i {
                            x: clamp_coord_spec(e.pos.x + d.0) as i64,
                            y: clamp_coord_spec(e.pos.y + d.1) as i64,
                        },
                        ..e
                    },
                )
            },
    {
        let p: usize = match self.find_player() {
            Some(p) => p,
            None => {
                return ;
            },
        };
        let d: Vec2i = player_move_delta(input, dt_ms);
        let px: i64 = self.ents[p].pos.x;
        let py: i64 = self.ents[p].pos.y;
        let ghost ents0 = self.ents@;
        let nx: i64 = clamp_coord(px + d.x);
        let ny: i64 = clamp_coord(py + d.y);
        {
            let e = ent_mut(&mut self.ents, p);
            e.pos = Vec2i { x: nx, y: ny };
        }
        proof {
            let pi = crate::world::player_index(ents0);
            assert(p == pi);
            let dd = player_move_delta_spec(input, dt_ms);
            assert(d.x == dd.0 && d.y == dd.1);
            let e0 = ents0[pi];
            assert(px == e0.pos.x && py == e0.pos.y);
            assert(nx == clamp_coord_spec(e0.pos.x + dd.0));
            assert(self.ents@ == ents0.update(
                pi,
                Ent {
                    pos: Vec2i {
                        x: clamp_coord_spec(e0.pos.x + dd.0) as i64,
                        y: clamp_coord_spec(e0.pos.y + dd.1) as i64,
                    },
                    ..e0
                },
            ));
        }
    }

    /// Ticks the player's fire cooldown and, when the trigger is held as a
    /// cooldown completes, releases one player-owned projectile along each
    /// aim direction the host computed for this frame's fire pattern. Does
    /// nothing without a live player carrying a weapon.
    #[verifier::loop_isolation(false)]
    #[verifier::rlimit(50)]
    pub fn player_shoot(&mut self, dt_ms: u64, trigger_held: bool, aim_dirs: &Vec<Vec2i>)
        requires
            old(self).wf(),
            dt_ms <= DT_MAX,
            forall|i: int| 0 <= i < aim_dirs@.len() ==> (#[trigger] aim_dirs@[i]).is_dir(),
        ensures
            final(self).wf(),
            final(self).ents@.len() >= old(self).ents@.len(),
            final(self).ents@ == player_shoot_spec(old(self).ents@, dt_ms, trigger_held, aim_dirs@),
            shoot_outcome(old(self).ents@, final(self).ents@, dt_ms, trigger_held, aim_dirs@),
    {
        let p: usize = match self.find_player() {
            Some(p) => p,
            None => {
                return ;
            },
        };
        let w_opt = self.ents[p].weapon;
        let my_pos: Vec2i = self.ents[p].pos;
        let mut w: Weapon = match w_opt {
            Some(w) => w,
            None => {
                return ;
            },
        };
        let completed: bool = w.fire_cooldown.tick(dt_ms);
        {
            let e = ent_mut(&mut self.ents, p);
            e.weapon = Some(w);
        }
        proof {
            let pi = player_index(old(self).ents@);
            let e0 = old(self).ents@[pi];
            let w0 = e0.weapon->Some_0;
            assert(w == Weapon {
                fire_cooldown: crate::behaviors::ticked_timer(w0.fire_cooldown, dt_ms),
                ..w0
            });
            assert(self.ents@ == old(self).ents@.update(
                pi,
                Ent {
                    weapon: Some(
                        Weapon {
                            fire_cooldown: crate::behaviors::ticked_timer(
                                w0.fire_cooldown,
                                dt_ms,
                            ),
                            ..w0
                        },
                    ),
                    ..e0
                },
            ));
            assert(completed == w0.fire_cooldown.completes(dt_ms));
        }
        let ghost after_tick = self.ents@;
        let fired: bool = trigger_held && completed;
        if fired {
            let n0: usize = self.ents.len();
            let ghost base = self.ents@;
            let mut j: usize = 0;
            while j < aim_dirs.len()
                invariant
                    base == after_tick,
                    n0 == base.len(),
                    j <= aim_dirs@.len(),
                    self.ents@.len() == n0 + j,
                    forall|i: int| 0 <= i < aim_dirs@.len() ==> (#[trigger] aim_dirs@[i]).is_dir(),
                    my_pos.in_box(),
                    w.config.wf(),
                    forall|k: int| 0 <= k < n0 ==> self.ents@[k] == base[k],
                    forall|q: int|
                        0 <= q < j ==> self.ents@[n0 + q] == crate::world::projectile_ent_spec(
                            my_pos,
                            aim_dirs@[q],
                            w.config,
                            crate::components::Owner::PlayerOwned,
                        ),
                    self.wf(),
                decreases aim_dirs@.len() - j,
            {
                let dir: Vec2i = aim_dirs[j];
                self.spawn_player_projectile(my_pos, dir, &w.config);
                j = j + 1;
            }
        }
        proof {
            let ents0g = old(self).ents@;
            let pi = player_index(ents0g);
            if pi >= 0 && ents0g[pi].weapon is Some {
                let e0 = ents0g[pi];
                let w0 = e0.weapon->Some_0;
                let firedg = trigger_held && w0.fire_cooldown.completes(dt_ms);
                let tickedg = Ent {
                    weapon: Some(
                        Weapon {
                            fire_cooldown: crate::behaviors::ticked_timer(
                                w0.fire_cooldown,
                                dt_ms,
                            ),
                            ..w0
                        },
                    ),
                    ..e0
                };
                assert(self.ents@[pi] == after_tick[pi]);
                assert(self.ents@[pi] == tickedg);
                assert(self.ents@.len() == ents0g.len() + (if firedg {
                    aim_dirs@.len() as int
                } else {
                    0int
                }));
                assert forall|k: int|
                    0 <= k < ents0g.len() && k != pi implies self.ents@[k] == ents0g[k] by {
                    assert(self.ents@[k] == after_tick[k]);
                }
                if firedg {
                    assert forall|j: int|
                        0 <= j < aim_dirs@.len() implies self.ents@[ents0g.len() + j]
                            == crate::world::projectile_ent_spec(
                            e0.pos,
                            aim_dirs@[j],
                            w0.config,
                            crate::components::Owner::PlayerOwned,
                        ) by {}
                }
            }
            assert(shoot_outcome(old(self).ents@, self.ents@, dt_ms, trigger_held, aim_dirs@));
            assert(self.ents@ =~= player_shoot_spec(
                old(self).ents@,
                dt_ms,
                trigger_held,
                aim_dirs@,
            ));
        }
    }

    /// Switches the active weapon slot: with a weapon in the requested
    /// slot, that slot becomes active and the held weapon is rebuilt from
    /// its kind (with a fresh cooldown); an empty or out-of-range slot
    /// changes nothing. Does nothing without a live player with an
    /// inventory.
    pub fn weapon_switch(&mut self, slot: usize)
        requires
            old(self).wf(),
        ensures
            final(self).wf(),
            final(self).ents@.len() == old(self).ents@.len(),
            switch_outcome(old(self).ents@, final(self).ents@, slot),
    {
        let p: usize = match self.find_player() {
            Some(p) => p,
            None => {
                return ;
            },
        };
        let e = ent_mut(&mut self.ents, p);
        let wt_opt = match &e.inventory {
            Some(inv) => crate::inventory::weapon_at_slot(inv, slot),
            None => None,
        };
        match wt_opt {
            Some(wt) => {
                match &mut e.inventory {
                    Some(inv) => {
                        inv.active_weapon_slot = slot;
                    },
                    None => {},
                }
                e.weapon = Some(Weapon::from_type(wt));
            },
            None => {},
        }
        proof {
            let ents0g = old(self).ents@;
            let pi = player_index(ents0g);
            if pi >= 0 && ents0g[pi].inventory is Some {
                let e0 = ents0g[pi];
                let inv0 = e0.inventory->Some_0;
                let chosen = if slot < inv0.weapon_slots@.len() {
                    inv0.weapon_slots@[slot as int]
                } else {
                    None::<crate::weapon::WeaponType>
                };
                if chosen is Some {
                    assert(self.ents@.len() == ents0g.len());
                    assert forall|k: int|
                        0 <= k < ents0g.len() && k != pi implies self.ents@[k] == ents0g[k] by {}
                    assert(self.ents@[pi].inventory is Some);
                    assert(self.ents@[pi].weapon is Some);
                } else {
                    assert(self.ents@ =~= ents0g);
                }
            } else {
                if pi >= 0 {
                    assert(self.ents@ =~= ents0g);
                }
            }
            assert(switch_outcome(old(self).ents@, self.ents@, slot));
        }
    }
}

} // verus!
