//! The wave director: countdown, timed spawning of the current wave's
//! drones around the player, and the clear check that advances to the next
//! wave or to victory.

use vstd::prelude::*;

use crate::drone::DroneConfig;
use crate::game_state::{GameState, WavePhase};
use crate::math::{ring_point, Vec2i, DT_MAX};
use crate::timer::Timer;
use crate::world::{count_alive_enemies, player_index, World};

verus! {

/// Milliseconds between two drone releases while spawning.
pub const SPAWN_INTERVAL_MS: u64 = 300;

/// Milliseconds of countdown before a wave starts.
pub const COUNTDOWN_MS: u64 = 2000;

/// Distance from the player at which drones spawn.
pub const SPAWN_DISTANCE: i64 = 400;

/// The wave machine's mutable state: which wave is running, how many of its
/// drones are out, and the two clocks.
#[derive(Clone, Copy, PartialEq, Eq, Structural, Debug)]
pub struct WaveState {
    pub wave_number: usize,
    pub spawn_index: usize,
    pub spawn_timer: Timer,
    pub countdown_timer: Timer,
}

impl WaveState {
    pub open spec fn wf(self) -> bool {
        &&& self.spawn_timer.wf() && self.spawn_timer.repeating
        &&& self.spawn_timer.duration_ms == SPAWN_INTERVAL_MS
        &&& self.countdown_timer.wf() && !self.countdown_timer.repeating
        &&& self.countdown_timer.duration_ms == COUNTDOWN_MS
    }
}

impl Default for WaveState {
    /// Wave zero, nothing spawned, both clocks fresh.
    fn default() -> (ws: WaveState)
        ensures
            ws.wave_number == 0,
            ws.spawn_index == 0,
            ws.spawn_timer == (Timer {
                elapsed_ms: 0u64,
                duration_ms: SPAWN_INTERVAL_MS,
                repeating: true,
            }),
            ws.countdown_timer == (Timer {
                elapsed_ms: 0u64,
                duration_ms: COUNTDOWN_MS,
                repeating: false,
            }),
            ws.wf(),
    {
        WaveState {
            wave_number: 0,
            spawn_index: 0,
            spawn_timer: Timer::new(SPAWN_INTERVAL_MS, true),
            countdown_timer: Timer::new(COUNTDOWN_MS, false),
        }
    }
}

/// One wave: the drones to release, in release order.
pub struct WaveDefinition {
    pub drones: Vec<DroneConfig>,
}

impl WaveDefinition {
    pub open spec fn wf(self) -> bool {
        forall|i: int| 0 <= i < self.drones@.len() ==> (#[trigger] self.drones@[i]).wf()
    }
}

/// All waves of a run, in order.
pub struct WaveDefinitions {
    pub waves: Vec<WaveDefinition>,
}

impl WaveDefinitions {
    pub open spec fn wf(self) -> bool {
        forall|i: int| 0 <= i < self.waves@.len() ==> (#[trigger] self.waves@[i]).wf()
    }
}

impl Default for WaveDefinitions {
    /// The stock run: a wave of three chasers, then a wave of two chasers
    /// and two shooters.
    fn default() -> (defs: WaveDefinitions)
        ensures
            defs.waves@.len() == 2,
            defs.waves@[0].drones@.len() == 3,
            defs.waves@[1].drones@.len() == 4,
            forall|i: int|
                0 <= i < 3 ==> DroneConfig::is_chaser_config(#[trigger] defs.waves@[0].drones@[i]),
            DroneConfig::is_chaser_config(defs.waves@[1].drones@[0]),
            DroneConfig::is_chaser_config(defs.waves@[1].drones@[1]),
            DroneConfig::is_shooter_config(defs.waves@[1].drones@[2]),
            DroneConfig::is_shooter_config(defs.waves@[1].drones@[3]),
            defs.wf(),
    {
        let wave1 = WaveDefinition {
            drones: vec![DroneConfig::chaser(), DroneConfig::chaser(), DroneConfig::chaser()],
        };
        let wave2 = WaveDefinition {
            drones: vec![
                DroneConfig::chaser(),
                DroneConfig::chaser(),
                DroneConfig::shooter(),
                DroneConfig::shooter(),
            ],
        };
        WaveDefinitions { waves: vec![wave1, wave2] }
    }
}

/// The countdown before a wave: ticks the countdown clock; on its
/// completion the machine moves to spawning.
pub fn countdown_system(wave_state: &mut WaveState, dt_ms: u64) -> (next: Option<WavePhase>)
    requires
        old(wave_state).wf(),
        dt_ms <= DT_MAX,
    ensures
        final(wave_state).wf(),
        final(wave_state).wave_number == old(wave_state).wave_number,
        final(wave_state).spawn_index == old(wave_state).spawn_index,
        final(wave_state).spawn_timer == old(wave_state).spawn_timer,
        final(wave_state).countdown_timer.elapsed_ms == old(wave_state).countdown_timer.elapsed_after(dt_ms),
        next == (if old(wave_state).countdown_timer.completes(dt_ms) {
            Some(WavePhase::Spawning)
        } else {
            None::<WavePhase>
        }),
{
    let finished: bool = wave_state.countdown_timer.tick(dt_ms);
    if finished {
        Some(WavePhase::Spawning)
    } else {
        None
    }
}

/// Everything the spawning step does, as one relation between the store,
/// wave state and reported phase before and after it.
pub open spec fn spawn_outcome(
    w0: Seq<crate::world::Ent>,
    ws0: WaveState,
    defs: WaveDefinitions,
    dt: u64,
    w1: Seq<crate::world::Ent>,
    ws1: WaveState,
    next: Option<WavePhase>,
) -> bool {
    if player_index(w0) < 0 {
        w1 == w0 && ws1 == ws0 && next is None
    } else if ws0.wave_number >= defs.waves@.len() {
        w1 == w0 && ws1 == ws0 && next == Some(WavePhase::Complete)
    } else {
        let wave = defs.waves@[ws0.wave_number as int];
        let fired = ws0.spawn_timer.completes(dt);
        let ticked = Timer {
            elapsed_ms: ws0.spawn_timer.elapsed_after(dt) as u64,
            ..ws0.spawn_timer
        };
        if !fired {
            w1 == w0 && ws1 == WaveState { spawn_timer: ticked, ..ws0 } && next is None
        } else if ws0.spawn_index < wave.drones@.len() {
            let p = player_index(w0);
            let cfg = wave.drones@[ws0.spawn_index as int];
            let rs = crate::math::ring_point_spec(
                w0[p].pos,
                ws0.spawn_index as int,
                wave.drones@.len() as int,
                SPAWN_DISTANCE as int,
            );
            let rp = Vec2i {
                x: crate::math::clamp_coord_spec(rs.0) as i64,
                y: crate::math::clamp_coord_spec(rs.1) as i64,
            };
            &&& w1 == w0.push(
                crate::world::attach_behaviors(
                    crate::world::drone_base_spec(cfg, rp),
                    cfg.behaviors@,
                    p as usize,
                ),
            )
            &&& ws1 == WaveState {
                spawn_index: (ws0.spawn_index + 1) as usize,
                spawn_timer: ticked,
                ..ws0
            }
            &&& next == (if ws0.spawn_index + 1 == wave.drones@.len() {
                Some(WavePhase::InProgress)
            } else {
                None::<WavePhase>
            })
        } else {
            w1 == w0 && ws1 == WaveState { spawn_timer: ticked, ..ws0 } && next == Some(
                WavePhase::InProgress,
            )
        }
    }
}

/// The spawning step: with a live player and a current wave, the spawn
/// clock ticks; each completion releases the next drone of the wave at the
/// next ring position around the player, and the completion whose release
/// empties the wave's list moves the machine to in-progress on that same
/// tick.
///
/// Without a live player nothing happens this tick (spawning simply waits);
/// past the last wave the machine reports completion. The spawn index
/// increases by exactly one per completed spawn tick and never passes the
/// wave's drone count.
pub fn spawn_system(
    world: &mut World,
    wave_state: &mut WaveState,
    wave_defs: &WaveDefinitions,
    dt_ms: u64,
) -> (next: Option<WavePhase>)
    requires
        old(world).wf(),
        old(wave_state).wf(),
        wave_defs.wf(),
        dt_ms <= DT_MAX,
        old(wave_state).wave_number < wave_defs.waves@.len() ==> old(wave_state).spawn_index
            <= wave_defs.waves@[old(wave_state).wave_number as int].drones@.len(),
    ensures
        final(world).wf(),
        final(wave_state).wf(),
        final(wave_state).wave_number == old(wave_state).wave_number,
        final(wave_state).countdown_timer == old(wave_state).countdown_timer,
        player_index(old(world).ents@) < 0 ==> *final(world) == *old(world) && *final(wave_state)
            == *old(wave_state) && next is None,
        player_index(old(world).ents@) >= 0 && old(wave_state).wave_number
            >= wave_defs.waves@.len() ==> *final(world) == *old(world) && *final(wave_state)
            == *old(wave_state) && next == Some(WavePhase::Complete),
        player_index(old(world).ents@) >= 0 && old(wave_state).wave_number
            < wave_defs.waves@.len() ==> {
            let wave = wave_defs.waves@[old(wave_state).wave_number as int];
            let fired = old(wave_state).spawn_timer.completes(dt_ms);
            &&& final(wave_state).spawn_timer.elapsed_ms == old(wave_state).spawn_timer.elapsed_after(dt_ms)
            &&& final(wave_state).spawn_timer.duration_ms == SPAWN_INTERVAL_MS
            &&& (!fired ==> final(wave_state).spawn_index == old(wave_state).spawn_index
                && final(world).ents@ == old(world).ents@ && next is None)
            &&& (fired && old(wave_state).spawn_index < wave.drones@.len() ==> {
                let p = player_index(old(world).ents@);
                let cfg = wave.drones@[old(wave_state).spawn_index as int];
                let rs = crate::math::ring_point_spec(
                    old(world).ents@[p].pos,
                    old(wave_state).spawn_index as int,
                    wave.drones@.len() as int,
                    SPAWN_DISTANCE as int,
                );
                let rp = Vec2i {
                    x: crate::math::clamp_coord_spec(rs.0) as i64,
                    y: crate::math::clamp_coord_spec(rs.1) as i64,
                };
                &&& final(wave_state).spawn_index == old(wave_state).spawn_index + 1
                &&& final(world).ents@ == old(world).ents@.push(
                    crate::world::attach_behaviors(
                        crate::world::drone_base_spec(cfg, rp),
                        cfg.behaviors@,
                        p as usize,
                    ),
                )
                &&& next == (if old(wave_state).spawn_index + 1 == wave.drones@.len() {
                    Some(WavePhase::InProgress)
                } else {
                    None::<WavePhase>
                })
            })
            &&& (fired && old(wave_state).spawn_index >= wave.drones@.len() ==> final(wave_state).spawn_index == old(wave_state).spawn_index && final(world).ents@ == old(world).ents@ && next == Some(WavePhase::InProgress))
            &&& final(wave_state).spawn_index <= wave.drones@.len()
        },
        spawn_outcome(
            old(world).ents@,
            *old(wave_state),
            *wave_defs,
            dt_ms,
            final(world).ents@,
            *final(wave_state),
            next,
        ),
{
    let player: usize = match world.find_player() {
        Some(p) => p,
        None => {
            return None;
        },
    };
    if wave_state.wave_number >= wave_defs.waves.len() {
        return Some(WavePhase::Complete);
    }
    let wave: &WaveDefinition = &wave_defs.waves[wave_state.wave_number];
    let fired: bool = wave_state.spawn_timer.tick(dt_ms);
    if fired {
        if wave_state.spawn_index < wave.drones.len() {
            let config: &DroneConfig = &wave.drones[wave_state.spawn_index];
            let player_pos: Vec2i = world.ents[player].pos;
            let spawn_pos: Vec2i = ring_point(
                player_pos,
                wave_state.spawn_index,
                wave.drones.len(),
                SPAWN_DISTANCE,
            );
            world.spawn_drone(config, spawn_pos, player);
            wave_state.spawn_index = wave_state.spawn_index + 1;
            if wave_state.spawn_index == wave.drones.len() {
                Some(WavePhase::InProgress)
            } else {
                None
            }
        } else {
            Some(WavePhase::InProgress)
        }
    } else {
        None
    }
}

/// The clear check: when no live enemy remains, the machine advances the
/// wave number, resets the spawn index and the countdown, and moves either
/// to the next wave's countdown or — past the last wave — to completion and
/// a victory transition.
pub fn check_wave_clear(
    world: &World,
    wave_state: &mut WaveState,
    wave_defs: &WaveDefinitions,
) -> (r: (Option<WavePhase>, Option<GameState>))
    requires
        old(wave_state).wf(),
        old(wave_state).wave_number < usize::MAX,
    ensures
        final(wave_state).wf(),
        count_alive_enemies(world.ents@, world.ents@.len() as int) > 0 ==> *final(wave_state)
            == *old(wave_state) && r.0 is None && r.1 is None,
        count_alive_enemies(world.ents@, world.ents@.len() as int) <= 0 ==> {
            &&& final(wave_state).wave_number == old(wave_state).wave_number + 1
            &&& final(wave_state).spawn_index == 0
            &&& final(wave_state).countdown_timer.elapsed_ms == 0
            &&& final(wave_state).spawn_timer == old(wave_state).spawn_timer
            &&& (final(wave_state).wave_number >= wave_defs.waves@.len() ==> r == (
            Some(WavePhase::Complete),
            Some(GameState::Victory),
            ))
            &&& (final(wave_state).wave_number < wave_defs.waves@.len() ==> r == (
            Some(WavePhase::Countdown),
            None::<GameState>,
            ))
        },
{
    let enemies: usize = world.alive_enemy_count();
    if enemies == 0 {
        wave_state.wave_number = wave_state.wave_number + 1;
        wave_state.spawn_index = 0;
        wave_state.countdown_timer.reset();
        if wave_state.wave_number >= wave_defs.waves.len() {
            (Some(WavePhase::Complete), Some(GameState::Victory))
        } else {
            (Some(WavePhase::Countdown), None)
        }
    } else {
        (None, None)
    }
}

} // verus!
