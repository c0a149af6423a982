//! The whole simulation under one roof, and the ordered tick pipeline:
//! targeting before movement styles before integration, collision emission
//! before damage application before death application, pickup detection
//! before pickup application — all within one tick, never across ticks.

use vstd::prelude::*;

use crate::behaviors::{
    apply_velocity_update, collide_update, magnetic_attraction_update, magnetized_update,
    maintain_range_update, move_direct_update, resource_life_update, shoot_ticked, shots_fired,
    tick_lifetime_update, ticked_timer,
};
use crate::collision::{
    contact_events, enemy_proj_events, enemy_proj_hits_player, exploder_contact, marked_dead,
    player_proj_events, player_proj_hit,
};
use crate::components::{DamageEvent, DeathEvent};
use crate::damage::{apply_damage_fold, death_outcome};
use crate::game_state::{GameState, WavePhase};
use crate::math::{Vec2i, DT_MAX};
use crate::pickup::{apply_pickups, pickup_events};
use crate::player::{move_player_spec, player_shoot_spec, MoveInput};
use crate::resources::{standard_drop_table, DropTable};
use crate::timer::Timer;
use crate::wave::{
    check_wave_clear, countdown_system, spawn_outcome, spawn_system, WaveDefinitions, WaveState,
};
use crate::world::{count_alive_enemies, despawned, player_index, Ent, World};

verus! {

/// Everything the host hands the simulation for one frame.
pub struct TickInput {
    /// Movement keys held this frame.
    pub movement: MoveInput,
    /// Whether the fire trigger is held.
    pub trigger_held: bool,
    /// The aim directions of this frame's shot, one per projectile of the
    /// active fire pattern, already fanned by the host (aim plus the
    /// pattern's angular offsets).
    pub aim_dirs: Vec<Vec2i>,
}

impl TickInput {
    pub open spec fn wf(self) -> bool {
        forall|i: int| 0 <= i < self.aim_dirs@.len() ==> (#[trigger] self.aim_dirs@[i]).is_dir()
    }
}

/// The store after the movement phase: the targeting, magnetism, movement
/// style and integration passes composed in pipeline order, then the
/// player's own movement and fire.
pub open spec fn motion_spec(
    e0: Seq<Ent>,
    dt: u64,
    movement: MoveInput,
    trigger: bool,
    dirs: Seq<Vec2i>,
) -> Seq<Ent> {
    let s1 = Seq::new(e0.len(), |k: int| collide_update(e0, k));
    let s2 = Seq::new(s1.len(), |k: int| maintain_range_update(s1, k));
    let s3 = Seq::new(s2.len(), |k: int| shoot_ticked(s2, k, dt)) + shots_fired(
        s2,
        s2.len() as int,
        dt,
    );
    let s4 = Seq::new(s3.len(), |k: int| magnetized_update(s3, k));
    let s5 = Seq::new(s4.len(), |k: int| magnetic_attraction_update(s4, k));
    let s6 = Seq::new(s5.len(), |k: int| move_direct_update(s5, k));
    let s7 = Seq::new(s6.len(), |k: int| apply_velocity_update(s6, k, dt));
    let s8 = move_player_spec(s7, movement, dt);
    player_shoot_spec(s8, dt, trigger, dirs)
}

/// The store after the player-projectile pass.
pub open spec fn player_proj_pass_spec(e: Seq<Ent>) -> Seq<Ent> {
    Seq::new(
        e.len(),
        |k: int|
            if player_proj_hit(e, k) {
                despawned(e[k])
            } else {
                e[k]
            },
    )
}

/// The store after the enemy-projectile pass.
pub open spec fn enemy_proj_pass_spec(e: Seq<Ent>) -> Seq<Ent> {
    let p = player_index(e);
    if p < 0 {
        e
    } else {
        Seq::new(
            e.len(),
            |k: int|
                if enemy_proj_hits_player(e, p, k) {
                    despawned(e[k])
                } else {
                    e[k]
                },
        )
    }
}

/// The events of the enemy-projectile pass.
pub open spec fn enemy_proj_pass_events(e: Seq<Ent>) -> Seq<DamageEvent> {
    let p = player_index(e);
    if p < 0 {
        Seq::empty()
    } else {
        enemy_proj_events(e, p, e.len() as int)
    }
}

/// The store after the contact pass.
pub open spec fn contact_pass_spec(e: Seq<Ent>) -> Seq<Ent> {
    let p = player_index(e);
    if p < 0 {
        e
    } else {
        Seq::new(
            e.len(),
            |k: int|
                if exploder_contact(e, p, k) {
                    marked_dead(e[k])
                } else {
                    e[k]
                },
        )
    }
}

/// The events of the contact pass.
pub open spec fn contact_pass_events(e: Seq<Ent>) -> Seq<DamageEvent> {
    let p = player_index(e);
    if p < 0 {
        Seq::empty()
    } else {
        contact_events(e, p, e.len() as int)
    }
}

/// This tick's damage events: the three collision passes' queues, in pass
/// order, each pass enumerating the store the previous one left.
pub open spec fn combat_events_spec(e0: Seq<Ent>) -> Seq<DamageEvent> {
    let s1 = player_proj_pass_spec(e0);
    let s2 = enemy_proj_pass_spec(s1);
    player_proj_events(e0, e0.len() as int) + enemy_proj_pass_events(s1) + contact_pass_events(s2)
}

/// The store after the collision passes and the damage pass, before the
/// death pass.
pub open spec fn combat_store_pre_death(e0: Seq<Ent>) -> Seq<Ent> {
    let s3 = contact_pass_spec(enemy_proj_pass_spec(player_proj_pass_spec(e0)));
    apply_damage_fold(s3, combat_events_spec(e0)).0
}

/// This tick's death events, in emission order.
pub open spec fn combat_deaths_spec(e0: Seq<Ent>) -> Seq<DeathEvent> {
    let s3 = contact_pass_spec(enemy_proj_pass_spec(player_proj_pass_spec(e0)));
    apply_damage_fold(s3, combat_events_spec(e0)).1
}

/// The store after the decay phase: pickups detected and applied, then the
/// projectile and ground-resource lifetimes advanced.
pub open spec fn decay_spec(e: Seq<Ent>, dt: u64) -> Seq<Ent> {
    let s1 = apply_pickups(e, pickup_events(e, e.len() as int));
    let s2 = Seq::new(s1.len(), |k: int| tick_lifetime_update(s1, k, dt));
    Seq::new(s2.len(), |k: int| resource_life_update(s2, k, dt))
}

/// One dispatch of the wave machine, by phase: the countdown clock ticks
/// toward spawning; the spawning step releases drones and reports
/// in-progress; the clear check advances the wave or ends the run in
/// victory; a completed machine rests.
pub open spec fn wave_step_outcome(
    phase0: WavePhase,
    ws0: WaveState,
    defs: WaveDefinitions,
    w_in: Seq<Ent>,
    dt: u64,
    phase1: WavePhase,
    ws1: WaveState,
    w_out: Seq<Ent>,
    st_in: GameState,
    st_out: GameState,
) -> bool {
    match phase0 {
        WavePhase::Countdown => {
            &&& w_out == w_in
            &&& st_out == st_in
            &&& ws1 == WaveState { countdown_timer: ticked_timer(ws0.countdown_timer, dt), ..ws0 }
            &&& phase1 == (if ws0.countdown_timer.completes(dt) {
                WavePhase::Spawning
            } else {
                WavePhase::Countdown
            })
        },
        WavePhase::Spawning => {
            &&& st_out == st_in
            &&& exists|next: Option<WavePhase>|
                #[trigger] spawn_outcome(w_in, ws0, defs, dt, w_out, ws1, next) && phase1 == (
                match next {
                    Some(ph) => ph,
                    None => WavePhase::Spawning,
                })
        },
        WavePhase::InProgress => {
            let cleared = count_alive_enemies(w_in, w_in.len() as int) <= 0;
            &&& w_out == w_in
            &&& (!cleared ==> ws1 == ws0 && phase1 == WavePhase::InProgress && st_out == st_in)
            &&& (cleared ==> {
                &&& ws1 == WaveState {
                    wave_number: (ws0.wave_number + 1) as usize,
                    spawn_index: 0,
                    spawn_timer: ws0.spawn_timer,
                    countdown_timer: Timer { elapsed_ms: 0, ..ws0.countdown_timer },
                }
                &&& (ws0.wave_number + 1 >= defs.waves@.len() ==> phase1 == WavePhase::Complete
                    && st_out == GameState::Victory)
                &&& (ws0.wave_number + 1 < defs.waves@.len() ==> phase1 == WavePhase::Countdown
                    && st_out == st_in)
            })
        },
        WavePhase::Complete => w_out == w_in && ws1 == ws0 && phase1 == phase0 && st_out == st_in,
    }
}

/// The full simulation state: the entity store, the wave machine, the drop
/// table, and the outer state machine.
pub struct Game {
    pub world: World,
    pub wave_state: WaveState,
    pub wave_defs: WaveDefinitions,
    pub drop_table: DropTable,
    pub state: GameState,
    pub phase: WavePhase,
}

impl Game {
    pub open spec fn wf(self) -> bool {
        &&& self.world.wf()
        &&& self.wave_state.wf()
        &&& self.wave_defs.wf()
        &&& self.drop_table.wf()
        &&& self.wave_defs.waves@.len() < usize::MAX
        &&& (self.wave_state.wave_number < self.wave_defs.waves@.len()
            ==> self.wave_state.spawn_index
            <= self.wave_defs.waves@[self.wave_state.wave_number as int].drones@.len())
        &&& (self.phase is InProgress ==> self.wave_state.wave_number
            < self.wave_defs.waves@.len())
    }

    /// A fresh run: an empty store, the stock waves and drop table, the
    /// loading screen, and the wave machine in countdown.
    pub fn new() -> (g: Game)
        ensures
            g.wf(),
            g.world.ents@.len() == 0,
            g.state == GameState::Loading,
            g.phase == WavePhase::Countdown,
            g.wave_state.wave_number == 0,
            g.wave_state.spawn_index == 0,
            g.wave_defs.waves@.len() == 2,
    {
        Game {
            world: World::new(),
            wave_state: WaveState::default(),
            wave_defs: WaveDefinitions::default(),
            drop_table: standard_drop_table(),
            state: GameState::default(),
            phase: WavePhase::Countdown,
        }
    }

    /// Despawns all gameplay entities and resets the wave machine: the
    /// restart path out of the game-over and victory screens.
    pub fn reset_run(&mut self)
        requires
            old(self).wf(),
        ensures
            final(self).wf(),
            final(self).wave_state.wave_number == 0,
            final(self).wave_state.spawn_index == 0,
            final(self).phase == WavePhase::Countdown,
            final(self).world.ents@.len() == old(self).world.ents@.len(),
            forall|k: int|
                0 <= k < old(self).world.ents@.len() ==> final(self).world.ents@[k] == (
                if crate::world::is_gameplay_ent(#[trigger] old(self).world.ents@[k]) {
                    crate::world::despawned(old(self).world.ents@[k])
                } else {
                    old(self).world.ents@[k]
                }),
    {
        self.world.cleanup_game_entities();
        self.wave_state = WaveState::default();
        self.phase = WavePhase::Countdown;
        proof {
            assert forall|k: int|
                0 <= k < self.world.ents@.len() implies (#[trigger] self.world.ents@[k]).wf() by {
                assert(old(self).world.ents@[k].wf());
            }
        }
    }

    /// One simulation tick of the playing state, in the fixed phase order:
    /// targeting behaviors, magnetism, movement styles, integration, the
    /// player's own movement and fire, the three collision passes, damage
    /// application, death application, pickups, lifetimes, and the wave
    /// machine. The wave clock only runs here, so it freezes whenever the
    /// game is not actively playing.
    pub fn playing_tick(&mut self, dt_ms: u64, input: &TickInput)
        requires
            old(self).wf(),
            old(self).state == GameState::Playing,
            dt_ms <= DT_MAX,
            input.wf(),
        ensures
            final(self).wf(),
            final(self).state == GameState::Playing || final(self).state == GameState::GameOver
                || final(self).state == GameState::Victory,
            final(self).wave_defs == old(self).wave_defs,
            final(self).drop_table == old(self).drop_table,
            ({
                let m = motion_spec(
                    old(self).world.ents@,
                    dt_ms,
                    input.movement,
                    input.trigger_held,
                    input.aim_dirs@,
                );
                let s = combat_store_pre_death(m);
                let deaths = combat_deaths_spec(m);
                exists|w3: Seq<Ent>, st3: GameState|
                    #![trigger death_outcome(
                        s,
                        w3,
                        old(self).state,
                        st3,
                        old(self).drop_table,
                        player_index(s) as usize,
                        deaths,
                    )]
                    {
                        &&& (player_index(s) >= 0 ==> death_outcome(
                            s,
                            w3,
                            old(self).state,
                            st3,
                            old(self).drop_table,
                            player_index(s) as usize,
                            deaths,
                        ))
                        &&& (player_index(s) < 0 ==> w3 == s && st3 == old(self).state)
                        &&& wave_step_outcome(
                            old(self).phase,
                            old(self).wave_state,
                            old(self).wave_defs,
                            decay_spec(w3, dt_ms),
                            dt_ms,
                            final(self).phase,
                            final(self).wave_state,
                            final(self).world.ents@,
                            st3,
                            final(self).state,
                        )
                    }
            }),
    {
        motion_phase(&mut self.world, dt_ms, input);
        combat_phase(&mut self.world, &mut self.state, &self.drop_table);
        let ghost w3v = self.world.ents@;
        let ghost st3v = self.state;
        decay_phase(&mut self.world, dt_ms);
        proof {
            assert(self.world.ents@ == decay_spec(w3v, dt_ms));
        }
        let ghost w4v = self.world.ents@;
        let ghost phase0 = self.phase;
        let ghost ws0 = self.wave_state;
        // The wave machine, dispatched by phase. It runs only in this
        // tick, so its clocks freeze on every other screen.
        match self.phase {
            WavePhase::Countdown => {
                let mut ws: WaveState = self.wave_state;
                match countdown_system(&mut ws, dt_ms) {
                    Some(ph) => {
                        self.phase = ph;
                    },
                    None => {},
                }
                self.wave_state = ws;
                proof {
                    assert(wave_step_outcome(
                        phase0,
                        ws0,
                        self.wave_defs,
                        w4v,
                        dt_ms,
                        self.phase,
                        self.wave_state,
                        self.world.ents@,
                        st3v,
                        self.state,
                    ));
                }
            },
            WavePhase::Spawning => {
                let mut ws: WaveState = self.wave_state;
                let nxt = spawn_system(&mut self.world, &mut ws, &self.wave_defs, dt_ms);
                match nxt {
                    Some(ph) => {
                        self.phase = ph;
                    },
                    None => {},
                }
                self.wave_state = ws;
                proof {
                    assert(spawn_outcome(
                        w4v,
                        ws0,
                        self.wave_defs,
                        dt_ms,
                        self.world.ents@,
                        self.wave_state,
                        nxt,
                    ));
                    assert(wave_step_outcome(
                        phase0,
                        ws0,
                        self.wave_defs,
                        w4v,
                        dt_ms,
                        self.phase,
                        self.wave_state,
                        self.world.ents@,
                        st3v,
                        self.state,
                    ));
                }
            },
            WavePhase::InProgress => {
                let mut ws: WaveState = self.wave_state;
                let r = check_wave_clear(&self.world, &mut ws, &self.wave_defs);
                self.wave_state = ws;
                match r.0 {
                    Some(ph) => {
                        self.phase = ph;
                    },
                    None => {},
                }
                match r.1 {
                    Some(st) => {
                        self.state = st;
                    },
                    None => {},
                }
                proof {
                    assert(wave_step_outcome(
                        phase0,
                        ws0,
                        self.wave_defs,
                        w4v,
                        dt_ms,
                        self.phase,
                        self.wave_state,
                        self.world.ents@,
                        st3v,
                        self.state,
                    ));
                }
            },
            WavePhase::Complete => {
                proof {
                    assert(wave_step_outcome(
                        phase0,
                        ws0,
                        self.wave_defs,
                        w4v,
                        dt_ms,
                        self.phase,
                        self.wave_state,
                        self.world.ents@,
                        st3v,
                        self.state,
                    ));
                }
            },
        }
        proof {
            let m = motion_spec(
                old(self).world.ents@,
                dt_ms,
                input.movement,
                input.trigger_held,
                input.aim_dirs@,
            );
            let s = combat_store_pre_death(m);
            let deaths = combat_deaths_spec(m);
            let witness = death_outcome(
                s,
                w3v,
                old(self).state,
                st3v,
                old(self).drop_table,
                player_index(s) as usize,
                deaths,
            );
            assert(player_index(s) >= 0 ==> witness);
            assert(player_index(s) < 0 ==> w3v == s && st3v == old(self).state);
        }
    }
}

/// The movement phase of a tick: targeting behaviors, magnetism, movement
/// styles, integration, and the player's own movement and fire, in
/// dependency order.
fn motion_phase(world: &mut World, dt_ms: u64, input: &TickInput)
    requires
        old(world).wf(),
        dt_ms <= DT_MAX,
        input.wf(),
    ensures
        final(world).wf(),
        final(world).ents@ == motion_spec(
            old(world).ents@,
            dt_ms,
            input.movement,
            input.trigger_held,
            input.aim_dirs@,
        ),
{
    let ghost g0 = world.ents@;
    // Targeting behaviors write desired directions.
    world.collide_target_system();
    proof {
        assert(world.ents@ =~= Seq::new(g0.len(), |k: int| collide_update(g0, k)));
    }
    let ghost g1 = world.ents@;
    world.maintain_range_system();
    proof {
        assert(world.ents@ =~= Seq::new(g1.len(), |k: int| maintain_range_update(g1, k)));
    }
    let ghost g2 = world.ents@;
    world.shoot_at_target_system(dt_ms);
    proof {
        assert(world.ents@ =~= Seq::new(g2.len(), |k: int| shoot_ticked(g2, k, dt_ms))
            + shots_fired(g2, g2.len() as int, dt_ms)) by {
            let target = Seq::new(g2.len(), |k: int| shoot_ticked(g2, k, dt_ms)) + shots_fired(
                g2,
                g2.len() as int,
                dt_ms,
            );
            assert forall|k: int| 0 <= k < world.ents@.len() implies world.ents@[k] == target[k] by {
                if k >= g2.len() {
                    assert(world.ents@[k] == world.ents@.skip(g2.len() as int)[k - g2.len()]);
                }
            }
        }
    }
    // Magnetism: targeting, then easing — after desired directions are set,
    // before integration.
    let ghost g3 = world.ents@;
    world.magnetized_to_system();
    proof {
        assert(world.ents@ =~= Seq::new(g3.len(), |k: int| magnetized_update(g3, k)));
    }
    let ghost g4 = world.ents@;
    world.magnetic_attraction_system();
    proof {
        assert(world.ents@ =~= Seq::new(g4.len(), |k: int| magnetic_attraction_update(g4, k)));
    }
    // Movement styles, then the universal integration step.
    let ghost g5 = world.ents@;
    world.move_direct();
    proof {
        assert(world.ents@ =~= Seq::new(g5.len(), |k: int| move_direct_update(g5, k)));
    }
    let ghost g6 = world.ents@;
    world.apply_velocity(dt_ms);
    proof {
        assert(world.ents@ =~= Seq::new(g6.len(), |k: int| apply_velocity_update(g6, k, dt_ms)));
    }
    // The player's own movement and fire.
    world.move_player(input.movement, dt_ms);
    world.player_shoot(dt_ms, input.trigger_held, &input.aim_dirs);
}

/// The combat phase of a tick: the three collision passes emit this tick's
/// damage events in pass order; the damage pass consumes them and emits
/// death events; the death pass consumes those. The game moves to the
/// game-over screen only if the death pass buried the player.
fn combat_phase(world: &mut World, state: &mut GameState, table: &DropTable)
    requires
        old(world).wf(),
        table.wf(),
    ensures
        final(world).wf(),
        *final(state) == *old(state) || *final(state) == GameState::GameOver,
        ({
            let s = combat_store_pre_death(old(world).ents@);
            let deaths = combat_deaths_spec(old(world).ents@);
            &&& (player_index(s) >= 0 ==> death_outcome(
                s,
                final(world).ents@,
                *old(state),
                *final(state),
                *table,
                player_index(s) as usize,
                deaths,
            ))
            &&& (player_index(s) < 0 ==> final(world).ents@ == s && *final(state) == *old(state))
        }),
{
    let ghost e0 = world.ents@;
    let mut events: Vec<DamageEvent> = world.player_projectile_hits_enemy();
    proof {
        assert(world.ents@ =~= player_proj_pass_spec(e0));
    }
    let ghost s1 = world.ents@;
    let more = world.enemy_projectile_hits_player();
    proof {
        assert(world.ents@ =~= enemy_proj_pass_spec(s1));
        assert(more@ == enemy_proj_pass_events(s1));
    }
    let ghost s2 = world.ents@;
    extend_events(&mut events, &more);
    let contact = world.enemy_collides_with_player();
    proof {
        assert(world.ents@ =~= contact_pass_spec(s2));
        assert(contact@ == contact_pass_events(s2));
    }
    extend_events(&mut events, &contact);
    proof {
        assert(events@ =~= combat_events_spec(e0));
    }
    let deaths = world.apply_damage(&events);
    proof {
        assert(world.ents@ == combat_store_pre_death(e0));
        assert(deaths@ == combat_deaths_spec(e0));
    }
    match world.find_player() {
        Some(p) => {
            world.apply_death(state, table, p, &deaths);
        },
        None => {
            // Without a player the death pass waits, like every other
            // player-bound routine.
        },
    }
}

/// The decay phase of a tick: pickups (detect, then apply, within the same
/// tick), projectile lifetimes, and ground-resource lifetimes.
fn decay_phase(world: &mut World, dt_ms: u64)
    requires
        old(world).wf(),
        dt_ms <= DT_MAX,
    ensures
        final(world).wf(),
        final(world).ents@ == decay_spec(old(world).ents@, dt_ms),
{
    let pickups = world.detect_resource_pickup();
    world.handle_pickup(&pickups);
    let ghost g1 = world.ents@;
    world.tick_lifetimes(dt_ms);
    proof {
        assert(world.ents@ =~= Seq::new(g1.len(), |k: int| tick_lifetime_update(g1, k, dt_ms)));
    }
    let ghost g2 = world.ents@;
    world.tick_resource_lifetimes(dt_ms);
    proof {
        assert(world.ents@ =~= Seq::new(g2.len(), |k: int| resource_life_update(g2, k, dt_ms)));
    }
}

/// Appends one event queue to another, keeping order.
fn extend_events(dst: &mut Vec<DamageEvent>, src: &Vec<DamageEvent>)
    ensures
        final(dst)@ == old(dst)@ + src@,
{
    let mut i: usize = 0;
    proof {
        assert(dst@ =~= dst@ + src@.take(0));
    }
    while i < src.len()
        invariant
            i <= src@.len(),
            dst@ == old(dst)@ + src@.take(i as int),
        decreases src@.len() - i,
    {
        dst.push(src[i]);
        proof {
            assert(src@.take(i + 1) =~= src@.take(i as int).push(src@[i as int]));
            assert(old(dst)@ + src@.take(i + 1) =~= (old(dst)@ + src@.take(i as int)).push(
                src@[i as int],
            ));
        }
        i = i + 1;
    }
    proof {
        assert(src@.take(src@.len() as int) =~= src@);
    }
}

} // verus!
