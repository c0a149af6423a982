//! Damage and death application, each an ordered pass over this tick's
//! event queue. Damage clamps health at zero and reports a death exactly
//! when health crosses to zero; death despawns, rolls resource drops for
//! drones, and ends the game when the player falls.

use vstd::prelude::*;

use crate::components::{DamageEvent, DeathEvent};
use crate::game_state::GameState;
use crate::health::{damaged, Health};
use crate::math::Vec2i;
use crate::resources::{entry_index_for, DropTable, ResourceRange};
use crate::world::{despawned, ent_mut, is_resource_ent, scattered_from, Ent, World};

verus! {

/// The hit points of record `k`, or zero where it has no health.
pub open spec fn hp(ents: Seq<Ent>, k: int) -> int {
    match ents[k].health {
        Some(h) => h.current as int,
        None => 0,
    }
}

/// Whether a damage event lands: its target is a live record with health.
pub open spec fn damage_lands(ents: Seq<Ent>, ev: DamageEvent) -> bool {
    ev.target < ents.len() && ents[ev.target as int].alive && ents[ev.target as int].health is Some
}

/// One damage event applied: the new store and the death event it emits, if
/// health crossed to zero on this event.
pub open spec fn damage_applied(ents: Seq<Ent>, ev: DamageEvent) -> (Seq<Ent>, Option<DeathEvent>) {
    if damage_lands(ents, ev) {
        let e = ents[ev.target as int];
        match e.health {
            Some(h) => {
                let h2 = Health { current: damaged(h.current, ev.amount) as u32, max: h.max };
                let died = h.current > 0 && h2.current == 0;
                (
                    ents.update(ev.target as int, Ent { health: Some(h2), ..e }),
                    if died {
                        Some(DeathEvent { entity: ev.target })
                    } else {
                        None
                    },
                )
            },
            None => (ents, None),
        }
    } else {
        (ents, None)
    }
}

/// The damage queue consumed in emission order: the resulting store and the
/// death events, in the order they arose.
pub open spec fn apply_damage_fold(ents: Seq<Ent>, evs: Seq<DamageEvent>) -> (
    Seq<Ent>,
    Seq<DeathEvent>,
)
    decreases evs.len(),
{
    if evs.len() == 0 {
        (ents, Seq::empty())
    } else {
        let step = damage_applied(ents, evs[0]);
        let rest = apply_damage_fold(step.0, evs.drop_first());
        (
            rest.0,
            (match step.1 {
                Some(d) => seq![d],
                None => Seq::empty(),
            }) + rest.1,
        )
    }
}

impl World {
    /// The damage pass: consumes this tick's damage events in emission
    /// order. Each event subtracts its amount from the target's health,
    /// clamped at zero; a death event is emitted exactly when the target's
    /// health was positive before the event and zero after it. Targets
    /// without health (or already despawned) ignore the event silently.
    pub fn apply_damage(&mut self, events: &Vec<DamageEvent>) -> (deaths: Vec<DeathEvent>)
        requires
            old(self).wf(),
        ensures
            final(self).wf(),
            final(self).ents@ == apply_damage_fold(old(self).ents@, events@).0,
            deaths@ == apply_damage_fold(old(self).ents@, events@).1,
            final(self).ents@.len() == old(self).ents@.len(),
            forall|i: int|
                0 <= i < deaths@.len() ==> (#[trigger] deaths@[i]).entity < old(self).ents@.len(),
    {
        let ghost ents0 = self.ents@;
        let n: usize = self.ents.len();
        let mut deaths: Vec<DeathEvent> = Vec::new();
        let mut i: usize = 0;
        proof {
            assert(events@.skip(0) == events@);
        }
        while i < events.len()
            invariant
                ents0 == old(self).ents@,
                n == ents0.len(),
                i <= events@.len(),
                self.ents@.len() == n,
                self.wf(),
                apply_damage_fold(ents0, events@).0 == apply_damage_fold(
                    self.ents@,
                    events@.skip(i as int),
                ).0,
                apply_damage_fold(ents0, events@).1 == deaths@ + apply_damage_fold(
                    self.ents@,
                    events@.skip(i as int),
                ).1,
                forall|j: int| 0 <= j < deaths@.len() ==> (#[trigger] deaths@[j]).entity < n,
            decreases events@.len() - i,
        {
            proof {
                assert(events@.skip(i as int).drop_first() == events@.skip(i + 1));
                assert(events@.skip(i as int)[0] == events@[i as int]);
            }
            let ev: DamageEvent = events[i];
            let t: usize = ev.target;
            if t < n {
                let t_alive: bool = self.ents[t].alive;
                let h_opt = self.ents[t].health;
                if t_alive && h_opt.is_some() {
                    let mut h: Health = h_opt.unwrap();
                    let died: bool = h.apply_damage(ev.amount);
                    {
                        let e = ent_mut(&mut self.ents, t);
                        e.health = Some(h);
                    }
                    if died {
                        deaths.push(DeathEvent { entity: t });
                    }
                }
            }
            proof {
                assert(apply_damage_fold(ents0, events@).1 == deaths@ + apply_damage_fold(
                    self.ents@,
                    events@.skip(i + 1),
                ).1) by {
                    assert(deaths@ + apply_damage_fold(self.ents@, events@.skip(i + 1)).1
                        =~= apply_damage_fold(ents0, events@).1);
                }
            }
            i = i + 1;
        }
        proof {
            assert(events@.skip(events@.len() as int) =~= Seq::<DamageEvent>::empty());
            assert(deaths@ + Seq::<DeathEvent>::empty() =~= deaths@);
        }
        deaths
    }
}

/// How many death events in the queue name record `e`.
pub open spec fn death_count(deaths: Seq<DeathEvent>, e: int) -> int
    decreases deaths.len(),
{
    if deaths.len() == 0 {
        0
    } else {
        (if deaths[0].entity == e {
            1int
        } else {
            0int
        }) + death_count(deaths.drop_first(), e)
    }
}

/// An entity whose health crosses to exactly zero during a damage pass is
/// named by exactly one death event of that pass; one whose health stays
/// positive, or was already drained before the pass, is named by none —
/// however many damage events target it.
pub proof fn lemma_one_death_event_per_entity(ents: Seq<Ent>, evs: Seq<DamageEvent>, e: int)
    requires
        0 <= e < ents.len(),
    ensures
        apply_damage_fold(ents, evs).0.len() == ents.len(),
        apply_damage_fold(ents, evs).0[e].alive == ents[e].alive,
        (apply_damage_fold(ents, evs).0[e].health is Some) == (ents[e].health is Some),
        hp(apply_damage_fold(ents, evs).0, e) <= hp(ents, e),
        death_count(apply_damage_fold(ents, evs).1, e) == (if ents[e].alive
            && ents[e].health is Some && hp(ents, e) > 0 && hp(apply_damage_fold(ents, evs).0, e)
            == 0 {
            1int
        } else {
            0int
        }),
    decreases evs.len(),
{
    if evs.len() == 0 {
    } else {
        let ev = evs[0];
        let step = damage_applied(ents, ev);
        let rest = apply_damage_fold(step.0, evs.drop_first());
        lemma_one_death_event_per_entity(step.0, evs.drop_first(), e);
        match step.1 {
            Some(d) => {
                assert((seq![d] + rest.1).drop_first() =~= rest.1);
                assert(death_count(seq![d] + rest.1, e) == (if d.entity == e {
                    1int
                } else {
                    0int
                }) + death_count(rest.1, e));
            },
            None => {
                assert(Seq::<DeathEvent>::empty() + rest.1 =~= rest.1);
            },
        }
        if damage_lands(ents, ev) && ev.target == e {
            assert(hp(step.0, e) == damaged(ents[e].health->Some_0.current, ev.amount));
        }
    }
}

/// Whether some death event in the queue names record `k`.
pub open spec fn death_listed(deaths: Seq<DeathEvent>, k: int) -> bool {
    exists|i: int| 0 <= i < deaths.len() && (#[trigger] deaths[i]).entity == k
}

/// Whether an appended record is a legitimate drop of this death pass: a
/// ground resource whose kind stands in the drop table row of some dead
/// drone, scattered around that drone's last position and magnetized to the
/// player.
pub open spec fn drop_row_ok(
    ents0: Seq<Ent>,
    table: DropTable,
    player: usize,
    d: int,
    r: int,
    e: Ent,
) -> bool {
    &&& 0 <= d < ents0.len()
    &&& ents0[d].alive
    &&& ents0[d].drone_kind is Some
    &&& {
        let idx = entry_index_for(table.entries@, ents0[d].drone_kind->Some_0);
        &&& idx >= 0
        &&& 0 <= r < table.entries@[idx].drops@.len()
        &&& is_resource_ent(e, table.entries@[idx].drops@[r].resource, player)
        &&& scattered_from(ents0[d].pos, e.pos)
    }
}

/// Whether `block` is one dead drone's exact drop yield: one segment per
/// drop-table row, in row order, the segment of row `r` holding exactly
/// `counts[r]` ground resources of that row's kind, each scattered from
/// `pos`.
pub open spec fn is_rows_drops(
    block: Seq<Ent>,
    rows: Seq<ResourceRange>,
    counts: Seq<int>,
    player: usize,
    pos: Vec2i,
) -> bool
    decreases rows.len(),
{
    if rows.len() == 0 {
        block.len() == 0
    } else {
        let c = counts[0];
        &&& 0 <= c <= block.len()
        &&& (forall|q: int|
            0 <= q < c ==> is_resource_ent(#[trigger] block[q], rows[0].resource, player)
                && scattered_from(pos, block[q].pos))
        &&& is_rows_drops(block.skip(c), rows.drop_first(), counts.drop_first(), player, pos)
    }
}

/// Appending one more row's segment extends the yield by that row.
proof fn lemma_rows_drops_snoc(
    block: Seq<Ent>,
    rows: Seq<ResourceRange>,
    counts: Seq<int>,
    row: ResourceRange,
    c: int,
    seg: Seq<Ent>,
    player: usize,
    pos: Vec2i,
)
    requires
        is_rows_drops(block, rows, counts, player, pos),
        counts.len() == rows.len(),
        seg.len() == c,
        forall|q: int|
            0 <= q < seg.len() ==> is_resource_ent(#[trigger] seg[q], row.resource, player)
                && scattered_from(pos, seg[q].pos),
    ensures
        is_rows_drops(block + seg, rows.push(row), counts.push(c), player, pos),
    decreases rows.len(),
{
    if rows.len() == 0 {
        assert(block.len() == 0);
        assert(block + seg =~= seg);
        assert(rows.push(row).drop_first() =~= Seq::<ResourceRange>::empty());
        assert(counts.push(c).drop_first() =~= Seq::<int>::empty());
        assert((block + seg).skip(c) =~= Seq::<Ent>::empty());
        assert(is_rows_drops(
            (block + seg).skip(c),
            rows.push(row).drop_first(),
            counts.push(c).drop_first(),
            player,
            pos,
        ));
        assert forall|q: int|
            0 <= q < c implies is_resource_ent(
            #[trigger] (block + seg)[q],
            rows.push(row)[0].resource,
            player,
        ) && scattered_from(pos, (block + seg)[q].pos) by {
            assert((block + seg)[q] == seg[q]);
        }
    } else {
        let c0 = counts[0];
        assert(rows.push(row).drop_first() =~= rows.drop_first().push(row));
        assert(counts.push(c).drop_first() =~= counts.drop_first().push(c));
        assert((block + seg).skip(c0) =~= block.skip(c0) + seg);
        lemma_rows_drops_snoc(
            block.skip(c0),
            rows.drop_first(),
            counts.drop_first(),
            row,
            c,
            seg,
            player,
            pos,
        );
        assert forall|q: int|
            0 <= q < c0 implies is_resource_ent(
            #[trigger] (block + seg)[q],
            rows.push(row)[0].resource,
            player,
        ) && scattered_from(pos, (block + seg)[q].pos) by {
            assert((block + seg)[q] == block[q]);
        }
    }
}

/// Whether death event `i` is one that yields drops: its entity is not the
/// player, was alive at the start of the pass, is not named by an earlier
/// event of the queue, carries a drone kind, and has a drop-table entry.
pub open spec fn drops_due(
    ents0: Seq<Ent>,
    table: DropTable,
    player: usize,
    deaths: Seq<DeathEvent>,
    i: int,
) -> bool {
    let d = deaths[i].entity as int;
    &&& deaths[i].entity != player
    &&& d < ents0.len()
    &&& ents0[d].alive
    &&& !death_listed(deaths.take(i), d)
    &&& ents0[d].drone_kind is Some
    &&& entry_index_for(table.entries@, ents0[d].drone_kind->Some_0) >= 0
}

/// Whether `block` is exactly what death event `i` appends: for an event
/// that yields drops, one bounded segment per drop-table row of its drone's
/// entry — each row's count within that row's inclusive bounds; for every
/// other event, nothing at all.
pub open spec fn death_drop_block_ok(
    ents0: Seq<Ent>,
    table: DropTable,
    player: usize,
    deaths: Seq<DeathEvent>,
    i: int,
    block: Seq<Ent>,
) -> bool {
    let d = deaths[i].entity as int;
    if drops_due(ents0, table, player, deaths, i) {
        let rows = table.entries@[entry_index_for(
            table.entries@,
            ents0[d].drone_kind->Some_0,
        )].drops@;
        exists|counts: Seq<int>|
            {
                &&& counts.len() == rows.len()
                &&& (forall|r: int|
                    0 <= r < rows.len() ==> (#[trigger] rows[r]).min <= counts[r] <= rows[r].max)
                &&& #[trigger] is_rows_drops(block, rows, counts, player, ents0[d].pos)
            }
    } else {
        block.len() == 0
    }
}

/// Whether `tail` is exactly what the first `upto` death events append:
/// their drop blocks, in event order.
pub open spec fn deaths_drops(
    tail: Seq<Ent>,
    ents0: Seq<Ent>,
    table: DropTable,
    player: usize,
    deaths: Seq<DeathEvent>,
    upto: int,
) -> bool
    decreases upto,
{
    if upto <= 0 {
        tail.len() == 0
    } else {
        exists|cut: int|
            0 <= cut <= tail.len() && #[trigger] death_drop_block_ok(
                ents0,
                table,
                player,
                deaths,
                upto - 1,
                tail.skip(cut),
            ) && deaths_drops(tail.take(cut), ents0, table, player, deaths, upto - 1)
    }
}

/// A death event that yields nothing extends the appended tail by nothing.
proof fn lemma_empty_block_extends(
    tail: Seq<Ent>,
    tail0: Seq<Ent>,
    ents0: Seq<Ent>,
    table: DropTable,
    player: usize,
    deaths: Seq<DeathEvent>,
    i: int,
)
    requires
        tail == tail0,
        0 <= i < deaths.len(),
        deaths_drops(tail0, ents0, table, player, deaths, i),
        !drops_due(ents0, table, player, deaths, i),
    ensures
        deaths_drops(tail, ents0, table, player, deaths, i + 1),
{
    assert(tail.skip(tail.len() as int) =~= Seq::<Ent>::empty());
    assert(death_drop_block_ok(
        ents0,
        table,
        player,
        deaths,
        (i + 1) - 1,
        tail.skip(tail.len() as int),
    ));
    assert(tail.take(tail.len() as int) =~= tail0);
    assert(deaths_drops(tail.take(tail.len() as int), ents0, table, player, deaths, (i + 1) - 1));
}

/// A death event that yields a block extends the appended tail by exactly
/// that block.
proof fn lemma_block_extends(
    tail: Seq<Ent>,
    tail0: Seq<Ent>,
    block: Seq<Ent>,
    ents0: Seq<Ent>,
    table: DropTable,
    player: usize,
    deaths: Seq<DeathEvent>,
    i: int,
)
    requires
        tail == tail0 + block,
        0 <= i < deaths.len(),
        deaths_drops(tail0, ents0, table, player, deaths, i),
        death_drop_block_ok(ents0, table, player, deaths, i, block),
    ensures
        deaths_drops(tail, ents0, table, player, deaths, i + 1),
{
    let cut = tail0.len() as int;
    assert(tail.skip(cut) =~= block);
    assert(death_drop_block_ok(ents0, table, player, deaths, (i + 1) - 1, tail.skip(cut)));
    assert(tail.take(cut) =~= tail0);
    assert(deaths_drops(tail.take(cut), ents0, table, player, deaths, (i + 1) - 1));
}

pub open spec fn dropped_ok(
    ents0: Seq<Ent>,
    table: DropTable,
    player: usize,
    deaths: Seq<DeathEvent>,
    e: Ent,
) -> bool {
    exists|i: int, r: int|
        0 <= i < deaths.len() && #[trigger] drop_row_ok(
            ents0,
            table,
            player,
            deaths[i].entity as int,
            r,
            e,
        )
}

/// Everything the death pass guarantees, as one relation between the store
/// and state before and after it: despawns exactly the named entities, ends
/// the game exactly when the player is named, and appends exactly the named
/// drones' bounded drop blocks, in event order.
pub open spec fn death_outcome(
    ents0: Seq<Ent>,
    ents1: Seq<Ent>,
    st0: GameState,
    st1: GameState,
    table: DropTable,
    player: usize,
    deaths: Seq<DeathEvent>,
) -> bool {
    &&& ents1.len() >= ents0.len()
    &&& (forall|k: int|
        0 <= k < ents0.len() ==> ents1[k] == (if death_listed(deaths, k) {
            despawned(ents0[k])
        } else {
            ents0[k]
        }))
    &&& st1 == (if death_listed(deaths, player as int) {
        GameState::GameOver
    } else {
        st0
    })
    &&& (forall|j: int|
        ents0.len() <= j < ents1.len() ==> dropped_ok(
            ents0,
            table,
            player,
            deaths,
            #[trigger] ents1[j],
        ))
    &&& deaths_drops(ents1.skip(ents0.len() as int), ents0, table, player, deaths, deaths.len() as int)
}

impl World {
    /// The death pass: consumes this tick's death events in emission order.
    /// The player's death moves the game to the game-over screen; a dead
    /// drone rolls each row of its drop table entry for a count within the
    /// row's bounds and scatters that many pickups around its last
    /// position; every dead entity despawns, and despawning one that is
    /// already gone is a no-op (so a drone despawned earlier in the pass
    /// drops nothing twice).
    #[verifier::rlimit(100)]
    #[verifier::spinoff_prover]
    pub fn apply_death(
        &mut self,
        state: &mut GameState,
        table: &DropTable,
        player: usize,
        deaths: &Vec<DeathEvent>,
    )
        requires
            old(self).wf(),
            table.wf(),
            forall|i: int|
                0 <= i < deaths@.len() ==> (#[trigger] deaths@[i]).entity < old(self).ents@.len(),
        ensures
            final(self).wf(),
            final(self).ents@.len() >= old(self).ents@.len(),
            forall|k: int|
                0 <= k < old(self).ents@.len() ==> final(self).ents@[k] == (if death_listed(
                    deaths@,
                    k,
                ) {
                    despawned(old(self).ents@[k])
                } else {
                    old(self).ents@[k]
                }),
            *final(state) == (if death_listed(deaths@, player as int) {
                GameState::GameOver
            } else {
                *old(state)
            }),
            forall|j: int|
                old(self).ents@.len() <= j < final(self).ents@.len() ==> dropped_ok(
                    old(self).ents@,
                    *table,
                    player,
                    deaths@,
                    #[trigger] final(self).ents@[j],
                ),
            deaths_drops(
                final(self).ents@.skip(old(self).ents@.len() as int),
                old(self).ents@,
                *table,
                player,
                deaths@,
                deaths@.len() as int,
            ),
            death_outcome(
                old(self).ents@,
                final(self).ents@,
                *old(state),
                *final(state),
                *table,
                player,
                deaths@,
            ),
    {
        let ghost ents0 = self.ents@;
        let n: usize = self.ents.len();
        let mut i: usize = 0;
        proof {
            assert(self.ents@.skip(n as int) =~= Seq::<Ent>::empty());
        }
        while i < deaths.len()
            invariant
                ents0 == old(self).ents@,
                table.wf(),
                n == ents0.len(),
                i <= deaths@.len(),
                forall|j: int| 0 <= j < deaths@.len() ==> (#[trigger] deaths@[j]).entity < n,
                self.ents@.len() >= n,
                self.wf(),
                forall|k: int|
                    0 <= k < n ==> self.ents@[k] == (if death_listed(deaths@.take(i as int), k) {
                        despawned(ents0[k])
                    } else {
                        ents0[k]
                    }),
                *state == (if death_listed(deaths@.take(i as int), player as int) {
                    GameState::GameOver
                } else {
                    *old(state)
                }),
                forall|j: int|
                    n <= j < self.ents@.len() ==> dropped_ok(
                        ents0,
                        *table,
                        player,
                        deaths@,
                        #[trigger] self.ents@[j],
                    ),
                deaths_drops(self.ents@.skip(n as int), ents0, *table, player, deaths@, i as int),
            decreases deaths@.len() - i,
        {
            let ev: DeathEvent = deaths[i];
            let entity: usize = ev.entity;
            let ghost tail0 = self.ents@.skip(n as int);
            proof {
                assert(deaths@.take(i + 1) =~= deaths@.take(i as int).push(deaths@[i as int]));
            }
            if entity == player {
                self.despawn(entity);
                *state = GameState::GameOver;
                proof {
                    assert(self.ents@.skip(n as int) =~= tail0);
                    assert(!drops_due(ents0, *table, player, deaths@, i as int));
                    lemma_empty_block_extends(
                        self.ents@.skip(n as int),
                        tail0,
                        ents0,
                        *table,
                        player,
                        deaths@,
                        i as int,
                    );
                }
            } else {
                let e_alive: bool = self.ents[entity].alive;
                let kind_opt = self.ents[entity].drone_kind;
                let pos: crate::math::Vec2i = self.ents[entity].pos;
                if e_alive && kind_opt.is_some() {
                    proof {
                        // A live record was not despawned so far, hence kept
                        // all its original components.
                        assert(self.ents@[entity as int].drone_kind == ents0[entity as int].drone_kind);
                        assert(pos == ents0[entity as int].pos);
                        assert(ents0[entity as int].alive);
                    }
                    let ghost death_i = i as int;
                    match table.drops_for(kind_opt.unwrap()) {
                        Some(ranges) => {
                            proof {
                                let idx = entry_index_for(
                                    table.entries@,
                                    ents0[entity as int].drone_kind->Some_0,
                                );
                                assert(table.entries@[idx].wf());
                                assert forall|q: int| 0 <= q < ranges@.len() implies (
                                #[trigger] ranges@[q]).wf() by {
                                    assert(ranges@[q] == table.entries@[idx].drops@[q]);
                                }
                            }
                            let rolled = crate::resources::roll_drop_counts(ranges);
                            let ghost rows = table.entries@[entry_index_for(
                                table.entries@,
                                ents0[entity as int].drone_kind->Some_0,
                            )].drops@;
                            let ghost counts = Seq::new(
                                rolled@.len(),
                                |q: int| rolled@[q].1 as int,
                            );
                            let ghost pre_block = self.ents@;
                            proof {
                                assert(self.ents@.skip(pre_block.len() as int) =~= Seq::<
                                    Ent,
                                >::empty());
                                assert(rows.take(0) =~= Seq::<ResourceRange>::empty());
                                assert(counts.take(0) =~= Seq::<int>::empty());
                                assert(is_rows_drops(
                                    self.ents@.skip(pre_block.len() as int),
                                    rows.take(0),
                                    counts.take(0),
                                    player,
                                    pos,
                                ));
                                assert(pre_block.skip(n as int) == tail0);
                            }
                            let mut r: usize = 0;
                            while r < rolled.len()
                                invariant
                                    ents0 == old(self).ents@,
                                    table.wf(),
                                    n == ents0.len(),
                                    r <= rolled@.len(),
                                    self.ents@.len() >= n,
                                    self.wf(),
                                    pos.in_box(),
                                    rows == table.entries@[entry_index_for(
                                        table.entries@,
                                        ents0[entity as int].drone_kind->Some_0,
                                    )].drops@,
                                    counts.len() == rolled@.len(),
                                    forall|q: int|
                                        0 <= q < rolled@.len() ==> counts[q] == (
                                        #[trigger] rolled@[q]).1,
                                    forall|q: int|
                                        0 <= q < rows.len() ==> (#[trigger] rows[q]).min
                                            <= counts[q] <= rows[q].max,
                                    n <= pre_block.len() <= self.ents@.len(),
                                    self.ents@.take(pre_block.len() as int) == pre_block,
                                    pre_block.skip(n as int) == tail0,
                                    deaths_drops(tail0, ents0, *table, player, deaths@, death_i),
                                    is_rows_drops(
                                        self.ents@.skip(pre_block.len() as int),
                                        rows.take(r as int),
                                        counts.take(r as int),
                                        player,
                                        pos,
                                    ),
                                    0 <= death_i < deaths@.len(),
                                    deaths@[death_i].entity == entity,
                                    entity < n,
                                    ents0[entity as int].alive,
                                    ents0[entity as int].drone_kind is Some,
                                    entry_index_for(
                                        table.entries@,
                                        ents0[entity as int].drone_kind->Some_0,
                                    ) >= 0,
                                    rolled@.len() == table.entries@[entry_index_for(
                                        table.entries@,
                                        ents0[entity as int].drone_kind->Some_0,
                                    )].drops@.len(),
                                    forall|q: int|
                                        0 <= q < rolled@.len() ==> (#[trigger] rolled@[q]).0
                                            == table.entries@[entry_index_for(
                                            table.entries@,
                                            ents0[entity as int].drone_kind->Some_0,
                                        )].drops@[q].resource,
                                    pos == ents0[entity as int].pos,
                                    forall|k: int|
                                        0 <= k < n ==> self.ents@[k] == (if death_listed(
                                            deaths@.take(death_i),
                                            k,
                                        ) {
                                            despawned(ents0[k])
                                        } else {
                                            ents0[k]
                                        }),
                                    *state == (if death_listed(
                                        deaths@.take(death_i),
                                        player as int,
                                    ) {
                                        GameState::GameOver
                                    } else {
                                        *old(state)
                                    }),
                                    forall|j: int|
                                        n <= j < self.ents@.len() ==> dropped_ok(
                                            ents0,
                                            *table,
                                            player,
                                            deaths@,
                                            #[trigger] self.ents@[j],
                                        ),
                                decreases rolled@.len() - r,
                            {
                                let (resource, count) = rolled[r];
                                let ghost at_head = self.ents@;
                                if count > 0 {
                                    let ghost before = self.ents@;
                                    self.spawn_resources(resource, pos, count, player);
                                    proof {
                                        assert forall|j: int|
                                            n <= j < self.ents@.len() implies dropped_ok(
                                            ents0,
                                            *table,
                                            player,
                                            deaths@,
                                            #[trigger] self.ents@[j],
                                        ) by {
                                            if j < before.len() {
                                                assert(self.ents@[j] == self.ents@.subrange(
                                                    0,
                                                    before.len() as int,
                                                )[j]);
                                                assert(self.ents@[j] == before[j]);
                                            } else {
                                                assert(is_resource_ent(
                                                    self.ents@[j],
                                                    rolled@[r as int].0,
                                                    player,
                                                ));
                                                assert(scattered_from(pos, self.ents@[j].pos));
                                                assert(drop_row_ok(
                                                    ents0,
                                                    *table,
                                                    player,
                                                    deaths@[death_i].entity as int,
                                                    r as int,
                                                    self.ents@[j],
                                                ));
                                                assert(dropped_ok(
                                                    ents0,
                                                    *table,
                                                    player,
                                                    deaths@,
                                                    self.ents@[j],
                                                ));
                                            }
                                        }
                                        assert forall|k: int|
                                            0 <= k < n implies self.ents@[k] == (if death_listed(
                                            deaths@.take(death_i),
                                            k,
                                        ) {
                                            despawned(ents0[k])
                                        } else {
                                            ents0[k]
                                        }) by {
                                            assert(self.ents@[k] == self.ents@.subrange(
                                                0,
                                                before.len() as int,
                                            )[k]);
                                            assert(self.ents@[k] == before[k]);
                                        }
                                        assert forall|k: int|
                                            0 <= k < self.ents@.len() implies (
                                        #[trigger] self.ents@[k]).wf() by {
                                            if k < before.len() {
                                                assert(self.ents@[k] == self.ents@.subrange(
                                                    0,
                                                    before.len() as int,
                                                )[k]);
                                                assert(self.ents@[k] == before[k]);
                                            }
                                        }
                                    }
                                }
                                proof {
                                    let seg = self.ents@.skip(at_head.len() as int);
                                    assert(self.ents@.take(at_head.len() as int) =~= at_head);
                                    assert(seg.len() == counts[r as int]);
                                    assert forall|q: int|
                                        0 <= q < seg.len() implies is_resource_ent(
                                        #[trigger] seg[q],
                                        rows[r as int].resource,
                                        player,
                                    ) && scattered_from(pos, seg[q].pos) by {
                                        assert(seg[q] == self.ents@[at_head.len() + q]);
                                    }
                                    assert(self.ents@.skip(pre_block.len() as int) =~= at_head.skip(
                                        pre_block.len() as int,
                                    ) + seg);
                                    assert(self.ents@.take(pre_block.len() as int) =~= pre_block);
                                    lemma_rows_drops_snoc(
                                        at_head.skip(pre_block.len() as int),
                                        rows.take(r as int),
                                        counts.take(r as int),
                                        rows[r as int],
                                        counts[r as int],
                                        seg,
                                        player,
                                        pos,
                                    );
                                    assert(rows.take(r + 1) =~= rows.take(r as int).push(
                                        rows[r as int],
                                    ));
                                    assert(counts.take(r + 1) =~= counts.take(r as int).push(
                                        counts[r as int],
                                    ));
                                }
                                r = r + 1;
                            }
                            proof {
                                assert(rows.take(rolled@.len() as int) =~= rows);
                                assert(counts.take(rolled@.len() as int) =~= counts);
                                let block = self.ents@.skip(pre_block.len() as int);
                                assert(is_rows_drops(block, rows, counts, player, ents0[entity as int].pos));
                                assert(!death_listed(deaths@.take(death_i), entity as int)) by {
                                    if death_listed(deaths@.take(death_i), entity as int) {
                                        assert(pre_block[entity as int] == despawned(
                                            ents0[entity as int],
                                        ));
                                    }
                                }
                                assert(drops_due(ents0, *table, player, deaths@, death_i));
                                assert(death_drop_block_ok(
                                    ents0,
                                    *table,
                                    player,
                                    deaths@,
                                    death_i,
                                    block,
                                ));
                                assert(self.ents@.skip(n as int) =~= tail0 + block);
                                lemma_block_extends(
                                    self.ents@.skip(n as int),
                                    tail0,
                                    block,
                                    ents0,
                                    *table,
                                    player,
                                    deaths@,
                                    death_i,
                                );
                            }
                        },
                        None => {
                            proof {
                                assert(self.ents@.skip(n as int) =~= tail0);
                                assert(!drops_due(ents0, *table, player, deaths@, i as int));
                                lemma_empty_block_extends(
                                    self.ents@.skip(n as int),
                                    tail0,
                                    ents0,
                                    *table,
                                    player,
                                    deaths@,
                                    i as int,
                                );
                            }
                        },
                    }
                } else {
                    proof {
                        assert(self.ents@.skip(n as int) =~= tail0);
                        assert(!drops_due(ents0, *table, player, deaths@, i as int)) by {
                            if ents0[entity as int].alive && !death_listed(
                                deaths@.take(i as int),
                                entity as int,
                            ) {
                                assert(self.ents@[entity as int] == ents0[entity as int]);
                            }
                            assert(self.ents@[entity as int].drone_kind == ents0[entity as int].drone_kind);
                        }
                        lemma_empty_block_extends(
                            self.ents@.skip(n as int),
                            tail0,
                            ents0,
                            *table,
                            player,
                            deaths@,
                            i as int,
                        );
                    }
                }
                let ghost tail_pre = self.ents@.skip(n as int);
                self.despawn(entity);
                proof {
                    assert(self.ents@.skip(n as int) =~= tail_pre);
                    assert(deaths_drops(
                        self.ents@.skip(n as int),
                        ents0,
                        *table,
                        player,
                        deaths@,
                        i + 1,
                    ));
                }
            }
            proof {
                let t1 = deaths@.take(i + 1);
                let t0 = deaths@.take(i as int);
                assert(t1[i as int].entity == entity);
                assert forall|k: int| 0 <= k < n implies self.ents@[k] == (if death_listed(t1, k) {
                    despawned(ents0[k])
                } else {
                    ents0[k]
                }) by {
                    if death_listed(t0, k) {
                        let w = choose|j: int| 0 <= j < t0.len() && (#[trigger] t0[j]).entity == k;
                        assert(t1[w].entity == k);
                        assert(death_listed(t1, k));
                    } else if k == entity {
                        assert(death_listed(t1, k));
                        assert(despawned(despawned(ents0[k])) == despawned(ents0[k]));
                    } else {
                        assert forall|j: int| 0 <= j < t1.len() implies (#[trigger] t1[j]).entity
                            != k by {
                            if j < i {
                                assert(t1[j] == t0[j]);
                            }
                        }
                        assert(!death_listed(t1, k));
                    }
                }
                if death_listed(t0, player as int) {
                    let w = choose|j: int|
                        0 <= j < t0.len() && (#[trigger] t0[j]).entity == player as int;
                    assert(t1[w].entity == player as int);
                    assert(death_listed(t1, player as int));
                }
                if !death_listed(t1, player as int) {
                    assert(!death_listed(t0, player as int)) by {
                        if death_listed(t0, player as int) {
                            let w = choose|j: int|
                                0 <= j < t0.len() && (#[trigger] t0[j]).entity == player as int;
                            assert(t1[w].entity == player as int);
                        }
                    }
                    assert(entity != player);
                }
            }
            i = i + 1;
        }
        proof {
            assert(deaths@.take(deaths@.len() as int) =~= deaths@);
        }
    }
}

} // verus!
