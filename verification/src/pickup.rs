//! Resource pickup: a detection pass that emits pickup events for every
//! collector standing close enough to a ground resource, and an application
//! pass that consumes the events in order — the first successful apply
//! wins, because it despawns the resource and later events for it land on
//! nothing.

use vstd::prelude::*;

use crate::components::PickupEvent;
use crate::inventory::{add_resource, with_added};
use crate::math::{dist_sq, Vec2i};
use crate::world::{despawned, ent_mut, Ent, World};

verus! {

/// Within this center distance (inclusive) a collector picks up a resource.
pub const PICKUP_DISTANCE: i64 = 20;

/// Whether collector `c` stands close enough to ground resource `r`.
pub open spec fn can_pick(ents: Seq<Ent>, c: int, r: int) -> bool {
    let ec = ents[c];
    let er = ents[r];
    &&& ec.alive && ec.inventory is Some
    &&& er.alive && er.resource_drop is Some
    &&& dist_sq(ec.pos, er.pos) <= PICKUP_DISTANCE * PICKUP_DISTANCE
}

/// The pickup events collector `c` emits against the first `upto`
/// resources, in resource order.
pub open spec fn pickup_events_for(ents: Seq<Ent>, c: int, upto: int) -> Seq<PickupEvent>
    decreases upto,
{
    if upto <= 0 {
        Seq::empty()
    } else {
        pickup_events_for(ents, c, upto - 1) + if can_pick(ents, c, upto - 1) {
            seq![PickupEvent { collector: c as usize, resource_entity: (upto - 1) as usize }]
        } else {
            Seq::empty()
        }
    }
}

/// All pickup events of the detection pass, collector-major.
pub open spec fn pickup_events(ents: Seq<Ent>, upto: int) -> Seq<PickupEvent>
    decreases upto,
{
    if upto <= 0 {
        Seq::empty()
    } else {
        pickup_events(ents, upto - 1) + pickup_events_for(ents, upto - 1, ents.len() as int)
    }
}

/// A record that is no live collector emits no pickup events.
proof fn lemma_no_collector_no_events(ents: Seq<Ent>, c: int, upto: int)
    requires
        0 <= c < ents.len(),
        !(ents[c].alive && ents[c].inventory is Some),
        upto <= ents.len(),
    ensures
        pickup_events_for(ents, c, upto) == Seq::<PickupEvent>::empty(),
    decreases upto,
{
    if upto > 0 {
        lemma_no_collector_no_events(ents, c, upto - 1);
        assert(pickup_events_for(ents, c, upto) =~= Seq::<PickupEvent>::empty());
    }
}

/// One pickup event applied: a valid collector gains one unit of a still
/// present resource's kind, and the ground record despawns. An event whose
/// collector or resource is gone does nothing.
pub open spec fn pickup_applied(ents: Seq<Ent>, ev: PickupEvent) -> Seq<Ent> {
    let c = ev.collector as int;
    let r = ev.resource_entity as int;
    if c < ents.len() && r < ents.len() && ents[c].alive && ents[c].inventory is Some && ents[r].alive
        && ents[r].resource_drop is Some {
        let ec = ents[c];
        let s1 = ents.update(
            c,
            Ent {
                inventory: Some(
                    with_added(ec.inventory->Some_0, ents[r].resource_drop->Some_0, 1),
                ),
                ..ec
            },
        );
        s1.update(r, despawned(s1[r]))
    } else {
        ents
    }
}

/// The pickup queue consumed in order.
pub open spec fn apply_pickups(ents: Seq<Ent>, evs: Seq<PickupEvent>) -> Seq<Ent>
    decreases evs.len(),
{
    if evs.len() == 0 {
        ents
    } else {
        apply_pickups(pickup_applied(ents, evs[0]), evs.drop_first())
    }
}

impl World {
    /// The detection pass: for every live inventory holder and every live
    /// ground resource within the pickup distance (center distance, ties
    /// included), one pickup event, in collector-major order. Detection
    /// mutates nothing; application is a separate pass of the same tick.
    pub fn detect_resource_pickup(&self) -> (events: Vec<PickupEvent>)
        requires
            self.wf(),
        ensures
            events@ == pickup_events(self.ents@, self.ents@.len() as int),
    {
        let n: usize = self.ents.len();
        let mut events: Vec<PickupEvent> = Vec::new();
        let mut c: usize = 0;
        while c < n
            invariant
                self.wf(),
                n == self.ents@.len(),
                c <= n,
                events@ == pickup_events(self.ents@, c as int),
            decreases n - c,
        {
            let c_alive: bool = self.ents[c].alive;
            let has_inv: bool = self.ents[c].inventory.is_some();
            let c_pos: Vec2i = self.ents[c].pos;
            if c_alive && has_inv {
                let mut r: usize = 0;
                while r < n
                    invariant
                        self.wf(),
                        n == self.ents@.len(),
                        c < n,
                        r <= n,
                        c_pos == self.ents@[c as int].pos,
                        self.ents@[c as int].alive && self.ents@[c as int].inventory is Some,
                        events@ == pickup_events(self.ents@, c as int) + pickup_events_for(
                            self.ents@,
                            c as int,
                            r as int,
                        ),
                    decreases n - r,
                {
                    let r_alive: bool = self.ents[r].alive;
                    let is_drop: bool = self.ents[r].resource_drop.is_some();
                    if r_alive && is_drop {
                        let d2: i64 = crate::math::distance_squared(c_pos, self.ents[r].pos);
                        if d2 <= PICKUP_DISTANCE * PICKUP_DISTANCE {
                            events.push(PickupEvent { collector: c, resource_entity: r });
                        }
                    }
                    proof {
                        if !can_pick(self.ents@, c as int, r as int) {
                            assert(events@ =~= pickup_events(self.ents@, c as int)
                                + pickup_events_for(self.ents@, c as int, r + 1));
                        }
                    }
                    r = r + 1;
                }
            } else {
                proof {
                    lemma_no_collector_no_events(self.ents@, c as int, n as int);
                    assert(events@ =~= pickup_events(self.ents@, c as int) + pickup_events_for(
                        self.ents@,
                        c as int,
                        n as int,
                    ));
                }
            }
            c = c + 1;
        }
        events
    }

    /// The application pass: consumes pickup events in order. Each event
    /// adds one unit of the resource's kind to the collector's stacks and
    /// despawns the ground record, so a resource detected by two collectors
    /// in the same tick is collected exactly once — the first event wins
    /// and the despawn hides the record from the rest of the queue.
    pub fn handle_pickup(&mut self, events: &Vec<PickupEvent>)
        requires
            old(self).wf(),
        ensures
            final(self).wf(),
            final(self).ents@.len() == old(self).ents@.len(),
            final(self).ents@ == apply_pickups(old(self).ents@, events@),
    {
        let ghost ents0 = self.ents@;
        let n: usize = self.ents.len();
        let mut i: usize = 0;
        proof {
            assert(events@.skip(0) == events@);
        }
        while i < events.len()
            invariant
                ents0 == old(self).ents@,
                n == ents0.len(),
                i <= events@.len(),
                self.ents@.len() == n,
                self.wf(),
                apply_pickups(ents0, events@) == apply_pickups(
                    self.ents@,
                    events@.skip(i as int),
                ),
            decreases events@.len() - i,
        {
            proof {
                assert(events@.skip(i as int).drop_first() == events@.skip(i + 1));
                assert(events@.skip(i as int)[0] == events@[i as int]);
            }
            let ev: PickupEvent = events[i];
            let ghost before = self.ents@;
            let c: usize = ev.collector;
            let r: usize = ev.resource_entity;
            if c < n && r < n {
                let c_alive: bool = self.ents[c].alive;
                let has_inv: bool = self.ents[c].inventory.is_some();
                let r_alive: bool = self.ents[r].alive;
                let kind_opt = self.ents[r].resource_drop;
                if c_alive && has_inv && r_alive && kind_opt.is_some() {
                    let kind = kind_opt.unwrap();
                    {
                        let e = ent_mut(&mut self.ents, c);
                        match &mut e.inventory {
                            Some(inv) => {
                                add_resource(inv, kind, 1);
                            },
                            None => {},
                        }
                    }
                    self.despawn(r);
                }
            }
            proof {
                assert(self.ents@ =~= pickup_applied(before, events@[i as int]));
            }
            i = i + 1;
        }
        proof {
            assert(events@.skip(events@.len() as int) =~= Seq::<PickupEvent>::empty());
        }
    }
}

} // verus!
