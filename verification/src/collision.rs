//! The three pairwise-overlap passes of a tick: player projectiles against
//! enemies, enemy projectiles against the player, and enemies in direct
//! contact with the player. Each pass despawns or marks what it consumes
//! and emits the tick's damage events in enumeration order.

use vstd::prelude::*;

use crate::components::{DamageEvent, Owner};
use crate::math::Vec2i;
use crate::physics::{circles_overlap, overlap_spec};
use crate::world::{despawned, ent_mut, player_index, Ent, World};

verus! {

/// Fixed contact damage an exploding enemy deals to the player.
pub const EXPLOSION_CONTACT_DAMAGE: u32 = 5;

/// The self-damage an exploding enemy takes: overwhelming, so it dies on
/// the spot whatever its health.
pub const EXPLOSION_SELF_DAMAGE: u32 = 9999;

/// Whether two records' hitbox circles strictly overlap; false when either
/// has no hitbox.
pub open spec fn ent_overlap(a: Ent, b: Ent) -> bool {
    match (a.hitbox, b.hitbox) {
        (Some(ha), Some(hb)) => overlap_spec(a.pos, ha.radius as int, b.pos, hb.radius as int),
        _ => false,
    }
}

/// A live player-owned projectile with a hitbox.
pub open spec fn is_player_proj(e: Ent) -> bool {
    &&& e.alive
    &&& (e.projectile matches Some(p) && p.owner == Owner::PlayerOwned)
    &&& e.hitbox is Some
}

/// A live enemy-owned projectile with a hitbox.
pub open spec fn is_enemy_proj(e: Ent) -> bool {
    &&& e.alive
    &&& (e.projectile matches Some(p) && p.owner == Owner::EnemyOwned)
    &&& e.hitbox is Some
}

/// A live enemy with a hitbox: what a player projectile can hit.
pub open spec fn is_live_enemy_target(e: Ent) -> bool {
    e.alive && e.is_enemy && e.hitbox is Some
}

/// The damage a projectile record credits.
pub open spec fn proj_damage(e: Ent) -> u32 {
    match e.projectile {
        Some(p) => p.damage,
        None => 0,
    }
}

/// Index of the first enemy at or after `j` that projectile `i` overlaps,
/// or `-1`.
pub open spec fn first_enemy_hit_from(ents: Seq<Ent>, i: int, j: int) -> int
    decreases ents.len() - j
    when j >= 0
{
    if j >= ents.len() {
        -1
    } else if is_live_enemy_target(ents[j]) && ent_overlap(ents[i], ents[j]) {
        j
    } else {
        first_enemy_hit_from(ents, i, j + 1)
    }
}

/// Whether projectile record `k` scores a hit this pass.
pub open spec fn player_proj_hit(ents: Seq<Ent>, k: int) -> bool {
    is_player_proj(ents[k]) && first_enemy_hit_from(ents, k, 0) >= 0
}

/// The damage events of the player-projectile pass, in projectile order:
/// one per projectile that overlaps an enemy, against the first enemy it
/// overlaps.
pub open spec fn player_proj_events(ents: Seq<Ent>, upto: int) -> Seq<DamageEvent>
    decreases upto,
{
    if upto <= 0 {
        Seq::empty()
    } else {
        player_proj_events(ents, upto - 1) + if player_proj_hit(ents, upto - 1) {
            seq![
                DamageEvent {
                    target: first_enemy_hit_from(ents, upto - 1, 0) as usize,
                    amount: proj_damage(ents[upto - 1]),
                },
            ]
        } else {
            Seq::empty()
        }
    }
}

/// Only projectile records change in the player-projectile pass, and a
/// projectile is never an enemy, so mid-pass reads of enemies see their
/// original state.
proof fn lemma_enemy_stable_proj_pass(ents0: Seq<Ent>, now: Seq<Ent>, i: int, t: int)
    requires
        0 <= t < ents0.len(),
        now.len() == ents0.len(),
        ents0[t].wf(),
        forall|k: int| i <= k < ents0.len() ==> now[k] == ents0[k],
        forall|k: int|
            0 <= k < i ==> now[k] == (if player_proj_hit(ents0, k) {
                despawned(ents0[k])
            } else {
                ents0[k]
            }),
    ensures
        is_live_enemy_target(now[t]) == is_live_enemy_target(ents0[t]),
        now[t].pos == ents0[t].pos,
        now[t].hitbox == ents0[t].hitbox,
{
    if t < i && player_proj_hit(ents0, t) {
        assert(ents0[t].projectile is Some);
        assert(!ents0[t].is_enemy);
    }
}

impl World {
    /// The player-projectile pass: each live player-owned projectile checks
    /// the enemies in record order; on the first overlap the projectile
    /// despawns and credits one damage event against that enemy, and checks
    /// no further enemies — a projectile only ever credits one hit.
    pub fn player_projectile_hits_enemy(&mut self) -> (events: Vec<DamageEvent>)
        requires
            old(self).wf(),
        ensures
            final(self).wf(),
            final(self).ents@.len() == old(self).ents@.len(),
            forall|k: int|
                0 <= k < old(self).ents@.len() ==> final(self).ents@[k] == (if player_proj_hit(
                    old(self).ents@,
                    k,
                ) {
                    despawned(old(self).ents@[k])
                } else {
                    old(self).ents@[k]
                }),
            events@ == player_proj_events(old(self).ents@, old(self).ents@.len() as int),
    {
        let ghost ents0 = self.ents@;
        let n: usize = self.ents.len();
        let mut events: Vec<DamageEvent> = Vec::new();
        let mut i: usize = 0;
        while i < n
            invariant
                old(self).wf(),
                ents0 == old(self).ents@,
                n == ents0.len(),
                i <= n,
                self.ents@.len() == n,
                forall|k: int| i <= k < n ==> self.ents@[k] == ents0[k],
                forall|k: int|
                    0 <= k < i ==> self.ents@[k] == (if player_proj_hit(ents0, k) {
                        despawned(ents0[k])
                    } else {
                        ents0[k]
                    }),
                events@ == player_proj_events(ents0, i as int),
                self.wf(),
            decreases n - i,
        {
            proof {
                assert(self.ents@[i as int] == ents0[i as int]);
            }
            let e_alive: bool = self.ents[i].alive;
            let proj_opt = self.ents[i].projectile;
            let hb_opt = self.ents[i].hitbox;
            let my_pos: Vec2i = self.ents[i].pos;
            let is_proj: bool = e_alive && hb_opt.is_some() && (match proj_opt {
                Some(p) => matches!(p.owner, Owner::PlayerOwned),
                None => false,
            });
            if is_proj {
                let my_r: i64 = hb_opt.unwrap().radius;
                let dmg: u32 = proj_opt.unwrap().damage;
                let mut j: usize = 0;
                let mut found: bool = false;
                while j < n
                    invariant
                        old(self).wf(),
                        ents0 == old(self).ents@,
                        n == ents0.len(),
                        i < n,
                        j <= n,
                        self.ents@.len() == n,
                        forall|k: int| i < k < n ==> self.ents@[k] == ents0[k],
                        forall|k: int|
                            0 <= k < i ==> self.ents@[k] == (if player_proj_hit(ents0, k) {
                                despawned(ents0[k])
                            } else {
                                ents0[k]
                            }),
                        events@ == player_proj_events(ents0, i as int) + if found {
                            seq![
                                DamageEvent {
                                    target: first_enemy_hit_from(ents0, i as int, 0) as usize,
                                    amount: proj_damage(ents0[i as int]),
                                },
                            ]
                        } else {
                            Seq::<DamageEvent>::empty()
                        },
                        !found ==> first_enemy_hit_from(ents0, i as int, 0)
                            == first_enemy_hit_from(ents0, i as int, j as int),
                        found ==> first_enemy_hit_from(ents0, i as int, 0) >= 0,
                        found ==> self.ents@[i as int] == despawned(ents0[i as int]),
                        !found ==> self.ents@[i as int] == ents0[i as int],
                        is_player_proj(ents0[i as int]),
                        my_pos == ents0[i as int].pos,
                        ents0[i as int].hitbox matches Some(h) && h.radius == my_r,
                        dmg == proj_damage(ents0[i as int]),
                        self.wf(),
                    decreases n - j,
                {
                    if !found {
                        proof {
                            lemma_enemy_stable_proj_pass(ents0, self.ents@, i as int, j as int);
                        }
                        let t_alive: bool = self.ents[j].alive;
                        let t_enemy: bool = self.ents[j].is_enemy;
                        let t_hb = self.ents[j].hitbox;
                        let t_pos: Vec2i = self.ents[j].pos;
                        if t_alive && t_enemy && t_hb.is_some() {
                            if circles_overlap(my_pos, my_r, t_pos, t_hb.unwrap().radius) {
                                {
                                    let e = ent_mut(&mut self.ents, i);
                                    e.alive = false;
                                }
                                events.push(DamageEvent { target: j, amount: dmg });
                                found = true;
                            }
                        }
                    }
                    j = j + 1;
                }
                proof {
                    if !found {
                        assert(first_enemy_hit_from(ents0, i as int, n as int) == -1);
                        assert(!player_proj_hit(ents0, i as int));
                    }
                    assert(events@ == player_proj_events(ents0, i + 1));
                }
            } else {
                proof {
                    assert(!player_proj_hit(ents0, i as int) || !is_player_proj(
                        ents0[i as int],
                    ));
                    assert(events@ == player_proj_events(ents0, i + 1));
                }
            }
            i = i + 1;
        }
        events
    }

    /// The enemy-projectile pass: each live enemy-owned projectile that
    /// overlaps the player despawns and credits one damage event against
    /// the player. Without a live player the pass does nothing. The host
    /// may key a hit sound off the returned events.
    pub fn enemy_projectile_hits_player(&mut self) -> (events: Vec<DamageEvent>)
        requires
            old(self).wf(),
        ensures
            final(self).wf(),
            final(self).ents@.len() == old(self).ents@.len(),
            player_index(old(self).ents@) < 0 ==> final(self).ents@ == old(self).ents@
                && events@ == Seq::<DamageEvent>::empty(),
            player_index(old(self).ents@) >= 0 ==> {
                let p = player_index(old(self).ents@);
                &&& forall|k: int|
                    0 <= k < old(self).ents@.len() ==> final(self).ents@[k] == (
                    if enemy_proj_hits_player(old(self).ents@, p, k) {
                        despawned(old(self).ents@[k])
                    } else {
                        old(self).ents@[k]
                    })
                &&& events@ == enemy_proj_events(old(self).ents@, p, old(self).ents@.len() as int)
            },
    {
        let ghost ents0 = self.ents@;
        let player_opt = self.find_player();
        let mut events: Vec<DamageEvent> = Vec::new();
        let p: usize = match player_opt {
            Some(p) => p,
            None => {
                return events;
            },
        };
        let ghost pidx = player_index(ents0);
        let p_pos: Vec2i = self.ents[p].pos;
        let p_hb = self.ents[p].hitbox;
        let n: usize = self.ents.len();
        if p_hb.is_none() {
            proof {
                assert forall|k: int| 0 <= k < n implies !enemy_proj_hits_player(
                    ents0,
                    pidx,
                    k,
                ) by {
                    assert(!ent_overlap(ents0[k], ents0[pidx]));
                }
                lemma_enemy_proj_events_none(ents0, pidx, n as int);
            }
            return events;
        }
        let p_r: i64 = p_hb.unwrap().radius;
        let mut i: usize = 0;
        while i < n
            invariant
                old(self).wf(),
                ents0 == old(self).ents@,
                n == ents0.len(),
                i <= n,
                self.ents@.len() == n,
                pidx == player_index(ents0),
                0 <= pidx < n,
                p == pidx,
                p_pos == ents0[pidx].pos,
                ents0[pidx].hitbox matches Some(h) && h.radius == p_r,
                forall|k: int| i <= k < n ==> self.ents@[k] == ents0[k],
                forall|k: int|
                    0 <= k < i ==> self.ents@[k] == (if enemy_proj_hits_player(ents0, pidx, k) {
                        despawned(ents0[k])
                    } else {
                        ents0[k]
                    }),
                events@ == enemy_proj_events(ents0, pidx, i as int),
                self.wf(),
            decreases n - i,
        {
            proof {
                assert(self.ents@[i as int] == ents0[i as int]);
            }
            let e_alive: bool = self.ents[i].alive;
            let proj_opt = self.ents[i].projectile;
            let hb_opt = self.ents[i].hitbox;
            let my_pos: Vec2i = self.ents[i].pos;
            let is_proj: bool = e_alive && hb_opt.is_some() && (match proj_opt {
                Some(pr) => matches!(pr.owner, Owner::EnemyOwned),
                None => false,
            });
            if is_proj {
                if circles_overlap(my_pos, hb_opt.unwrap().radius, p_pos, p_r) {
                    {
                        let e = ent_mut(&mut self.ents, i);
                        e.alive = false;
                    }
                    events.push(DamageEvent { target: p, amount: proj_opt.unwrap().damage });
                }
            }
            i = i + 1;
        }
        events
    }

    /// The contact pass: a live enemy overlapping the player that carries
    /// the explode-on-contact marker is marked dead (so a later pass cannot
    /// trigger it again before it despawns), deals the fixed contact damage
    /// to the player, and deals itself an overwhelming self-damage. Enemies
    /// without the marker merely bump, with no effect.
    pub fn enemy_collides_with_player(&mut self) -> (events: Vec<DamageEvent>)
        requires
            old(self).wf(),
        ensures
            final(self).wf(),
            final(self).ents@.len() == old(self).ents@.len(),
            player_index(old(self).ents@) < 0 ==> final(self).ents@ == old(self).ents@
                && events@ == Seq::<DamageEvent>::empty(),
            player_index(old(self).ents@) >= 0 ==> {
                let p = player_index(old(self).ents@);
                &&& forall|k: int|
                    0 <= k < old(self).ents@.len() ==> final(self).ents@[k] == (
                    if exploder_contact(old(self).ents@, p, k) {
                        marked_dead(old(self).ents@[k])
                    } else {
                        old(self).ents@[k]
                    })
                &&& events@ == contact_events(old(self).ents@, p, old(self).ents@.len() as int)
            },
    {
        let ghost ents0 = self.ents@;
        let player_opt = self.find_player();
        let mut events: Vec<DamageEvent> = Vec::new();
        let p: usize = match player_opt {
            Some(p) => p,
            None => {
                return events;
            },
        };
        let ghost pidx = player_index(ents0);
        let p_pos: Vec2i = self.ents[p].pos;
        let p_hb = self.ents[p].hitbox;
        let n: usize = self.ents.len();
        if p_hb.is_none() {
            proof {
                assert forall|k: int| 0 <= k < n implies !exploder_contact(ents0, pidx, k) by {
                    assert(!ent_overlap(ents0[k], ents0[pidx]));
                }
                lemma_contact_events_none(ents0, pidx, n as int);
            }
            return events;
        }
        let p_r: i64 = p_hb.unwrap().radius;
        let mut i: usize = 0;
        while i < n
            invariant
                old(self).wf(),
                ents0 == old(self).ents@,
                n == ents0.len(),
                i <= n,
                self.ents@.len() == n,
                pidx == player_index(ents0),
                0 <= pidx < n,
                p == pidx,
                p_pos == ents0[pidx].pos,
                ents0[pidx].hitbox matches Some(h) && h.radius == p_r,
                forall|k: int| i <= k < n ==> self.ents@[k] == ents0[k],
                forall|k: int|
                    0 <= k < i ==> self.ents@[k] == (if exploder_contact(ents0, pidx, k) {
                        marked_dead(ents0[k])
                    } else {
                        ents0[k]
                    }),
                events@ == contact_events(ents0, pidx, i as int),
                self.wf(),
            decreases n - i,
        {
            proof {
                assert(self.ents@[i as int] == ents0[i as int]);
            }
            let e_alive: bool = self.ents[i].alive;
            let is_enemy: bool = self.ents[i].is_enemy;
            let is_dead: bool = self.ents[i].dead;
            let explodes: bool = self.ents[i].explode_on_contact;
            let hb_opt = self.ents[i].hitbox;
            let my_pos: Vec2i = self.ents[i].pos;
            if e_alive && is_enemy && !is_dead && hb_opt.is_some() {
                if circles_overlap(my_pos, hb_opt.unwrap().radius, p_pos, p_r) {
                    if explodes {
                        {
                            let e = ent_mut(&mut self.ents, i);
                            e.dead = true;
                        }
                        events.push(
                            DamageEvent { target: p, amount: EXPLOSION_CONTACT_DAMAGE },
                        );
                        events.push(DamageEvent { target: i, amount: EXPLOSION_SELF_DAMAGE });
                    }
                }
            }
            i = i + 1;
        }
        events
    }
}

/// Whether enemy projectile `k` overlaps the player `p`.
pub open spec fn enemy_proj_hits_player(ents: Seq<Ent>, p: int, k: int) -> bool {
    is_enemy_proj(ents[k]) && ent_overlap(ents[k], ents[p])
}

/// The damage events of the enemy-projectile pass, in projectile order.
pub open spec fn enemy_proj_events(ents: Seq<Ent>, p: int, upto: int) -> Seq<DamageEvent>
    decreases upto,
{
    if upto <= 0 {
        Seq::empty()
    } else {
        enemy_proj_events(ents, p, upto - 1) + if enemy_proj_hits_player(ents, p, upto - 1) {
            seq![DamageEvent { target: p as usize, amount: proj_damage(ents[upto - 1]) }]
        } else {
            Seq::empty()
        }
    }
}

/// A live, not yet dead-marked exploding enemy in contact with the player.
pub open spec fn exploder_contact(ents: Seq<Ent>, p: int, k: int) -> bool {
    let e = ents[k];
    e.alive && e.is_enemy && !e.dead && e.explode_on_contact && ent_overlap(e, ents[p])
}

/// The same record with the dead marker set.
pub open spec fn marked_dead(e: Ent) -> Ent {
    Ent { dead: true, ..e }
}

/// The damage events of the contact pass: per exploding contact, the fixed
/// contact damage against the player and the overwhelming self-damage, in
/// that order.
pub open spec fn contact_events(ents: Seq<Ent>, p: int, upto: int) -> Seq<DamageEvent>
    decreases upto,
{
    if upto <= 0 {
        Seq::empty()
    } else {
        contact_events(ents, p, upto - 1) + if exploder_contact(ents, p, upto - 1) {
            seq![
                DamageEvent { target: p as usize, amount: EXPLOSION_CONTACT_DAMAGE },
                DamageEvent { target: (upto - 1) as usize, amount: EXPLOSION_SELF_DAMAGE },
            ]
        } else {
            Seq::empty()
        }
    }
}

/// The first overlapped enemy is where the scan lands: scanning from any
/// point at or before it, past misses only, finds exactly it.
proof fn lemma_first_hit_from(ents: Seq<Ent>, i: int, j: int, e1: int)
    requires
        0 <= j <= e1 < ents.len(),
        is_live_enemy_target(ents[e1]) && ent_overlap(ents[i], ents[e1]),
        forall|q: int|
            j <= q < e1 ==> !(is_live_enemy_target(#[trigger] ents[q]) && ent_overlap(
                ents[i],
                ents[q],
            )),
    ensures
        first_enemy_hit_from(ents, i, j) == e1,
    decreases e1 - j,
{
    if j < e1 {
        lemma_first_hit_from(ents, i, j + 1, e1);
    }
}

/// A player projectile overlapping two (or more) enemies in one tick
/// damages exactly one of them — the first enumerated — and despawns once:
/// the pass emits exactly one damage event, against the first overlapped
/// enemy, and despawns exactly the projectile.
pub proof fn lemma_projectile_single_hit(ents: Seq<Ent>, pidx: int, e1: int, e2: int)
    requires
        0 <= pidx < ents.len(),
        is_player_proj(ents[pidx]),
        forall|k: int|
            0 <= k < ents.len() && k != pidx ==> !is_player_proj(#[trigger] ents[k]),
        0 <= e1 < e2 < ents.len(),
        is_live_enemy_target(ents[e1]) && ent_overlap(ents[pidx], ents[e1]),
        is_live_enemy_target(ents[e2]) && ent_overlap(ents[pidx], ents[e2]),
        forall|q: int|
            0 <= q < e1 ==> !(is_live_enemy_target(#[trigger] ents[q]) && ent_overlap(
                ents[pidx],
                ents[q],
            )),
    ensures
        player_proj_events(ents, ents.len() as int) == seq![
            DamageEvent { target: e1 as usize, amount: proj_damage(ents[pidx]) },
        ],
        forall|k: int| 0 <= k < ents.len() ==> (player_proj_hit(ents, k) <==> k == pidx),
{
    lemma_first_hit_from(ents, pidx, 0, e1);
    assert forall|k: int| 0 <= k < ents.len() implies (player_proj_hit(ents, k) <==> k
        == pidx) by {
        if k != pidx {
            assert(!is_player_proj(ents[k]));
        }
    }
    lemma_proj_events_single(
        ents,
        ents.len() as int,
        pidx,
        DamageEvent { target: e1 as usize, amount: proj_damage(ents[pidx]) },
    );
}

/// With one projectile scoring the only hit, the pass's event queue up to
/// `upto` is empty before the projectile and exactly its one event after.
proof fn lemma_proj_events_single(ents: Seq<Ent>, upto: int, pidx: int, ev: DamageEvent)
    requires
        0 <= pidx < ents.len(),
        upto <= ents.len(),
        forall|k: int| 0 <= k < ents.len() ==> (player_proj_hit(ents, k) <==> k == pidx),
        ev == (DamageEvent {
            target: first_enemy_hit_from(ents, pidx, 0) as usize,
            amount: proj_damage(ents[pidx]),
        }),
    ensures
        upto <= pidx ==> player_proj_events(ents, upto) == Seq::<DamageEvent>::empty(),
        upto > pidx ==> player_proj_events(ents, upto) == seq![ev],
    decreases upto,
{
    if upto > 0 {
        lemma_proj_events_single(ents, upto - 1, pidx, ev);
        if upto <= pidx {
            assert(!player_proj_hit(ents, upto - 1));
            assert(player_proj_events(ents, upto) =~= Seq::<DamageEvent>::empty());
        } else if upto - 1 == pidx {
            assert(player_proj_events(ents, upto) =~= seq![ev]);
        } else {
            assert(!player_proj_hit(ents, upto - 1));
            assert(player_proj_events(ents, upto) =~= seq![ev]);
        }
    }
}

/// How many damage events in a queue target record `k`.
pub open spec fn events_targeting(evs: Seq<DamageEvent>, k: int) -> int
    decreases evs.len(),
{
    if evs.len() == 0 {
        0
    } else {
        (if evs[0].target == k {
            1int
        } else {
            0int
        }) + events_targeting(evs.drop_first(), k)
    }
}

/// Counting targets distributes over concatenation.
proof fn lemma_events_targeting_concat(a: Seq<DamageEvent>, b: Seq<DamageEvent>, k: int)
    ensures
        events_targeting(a + b, k) == events_targeting(a, k) + events_targeting(b, k),
    decreases a.len(),
{
    if a.len() == 0 {
        assert(a + b =~= b);
    } else {
        assert((a + b).drop_first() =~= a.drop_first() + b);
        lemma_events_targeting_concat(a.drop_first(), b, k);
    }
}

/// An enemy already carrying the dead marker is excluded from the contact
/// pass, whatever the store holds: it is no exploding contact, the pass
/// leaves its record unchanged, and no event of the pass names it — so its
/// fixed contact damage can never be applied a second time.
pub proof fn lemma_dead_enemy_contributes_nothing(ents: Seq<Ent>, p: int, upto: int, k: int)
    requires
        0 <= k < ents.len(),
        ents[k].dead,
        k != p,
        0 <= p < ents.len(),
        ents.len() <= usize::MAX,
        upto <= ents.len(),
    ensures
        !exploder_contact(ents, p, k),
        events_targeting(contact_events(ents, p, upto), k) == 0,
    decreases upto,
{
    if upto > 0 {
        lemma_dead_enemy_contributes_nothing(ents, p, upto - 1, k);
        let seg = if exploder_contact(ents, p, upto - 1) {
            seq![
                DamageEvent { target: p as usize, amount: EXPLOSION_CONTACT_DAMAGE },
                DamageEvent { target: (upto - 1) as usize, amount: EXPLOSION_SELF_DAMAGE },
            ]
        } else {
            Seq::<DamageEvent>::empty()
        };
        lemma_events_targeting_concat(contact_events(ents, p, upto - 1), seg, k);
        if exploder_contact(ents, p, upto - 1) {
            assert(upto - 1 != k);
            assert(seg[0].target != k);
            assert(seg.drop_first() =~= seq![
                DamageEvent { target: (upto - 1) as usize, amount: EXPLOSION_SELF_DAMAGE },
            ]);
            assert(seg.drop_first()[0].target != k);
            assert(seg.drop_first().drop_first() =~= Seq::<DamageEvent>::empty());
            assert(events_targeting(seg.drop_first().drop_first(), k) == 0);
            assert(events_targeting(seg.drop_first(), k) == 0);
            assert(events_targeting(seg, k) == 0);
        }
    }
}

/// With no hits at all, the enemy-projectile pass emits nothing.
proof fn lemma_enemy_proj_events_none(ents: Seq<Ent>, p: int, upto: int)
    requires
        forall|k: int| 0 <= k < upto ==> !enemy_proj_hits_player(ents, p, k),
        upto <= ents.len(),
    ensures
        enemy_proj_events(ents, p, upto) == Seq::<DamageEvent>::empty(),
    decreases upto,
{
    if upto > 0 {
        lemma_enemy_proj_events_none(ents, p, upto - 1);
        assert(enemy_proj_events(ents, p, upto) =~= Seq::<DamageEvent>::empty());
    }
}

/// With no exploding contacts, the contact pass emits nothing.
proof fn lemma_contact_events_none(ents: Seq<Ent>, p: int, upto: int)
    requires
        forall|k: int| 0 <= k < upto ==> !exploder_contact(ents, p, k),
        upto <= ents.len(),
    ensures
        contact_events(ents, p, upto) == Seq::<DamageEvent>::empty(),
    decreases upto,
{
    if upto > 0 {
        lemma_contact_events_none(ents, p, upto - 1);
        assert(contact_events(ents, p, upto) =~= Seq::<DamageEvent>::empty());
    }
}

} // verus!
