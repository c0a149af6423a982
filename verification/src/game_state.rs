//! The outer game state machine and its derived states, with the pure
//! transition functions the input layer drives.

use vstd::prelude::*;

verus! {

/// The outer screens of the game.
#[derive(Clone, Copy, PartialEq, Eq, Structural, Debug, Hash)]
pub enum GameState {
    Loading,
    Paused,
    Playing,
    Crafting,
    GameOver,
    Victory,
}

impl Default for GameState {
    /// The game boots into the loading screen.
    fn default() -> (s: GameState)
        ensures
            s == GameState::Loading,
    {
        GameState::Loading
    }
}

/// Active while a run is underway (playing, crafting or paused), so the
/// wave machine keeps its state across a pause.
#[derive(Clone, Copy, PartialEq, Eq, Structural, Debug, Hash)]
pub enum InGame {
    Yes,
}

impl InGame {
    /// Computes the derived in-game state from the outer state.
    pub fn compute(source: GameState) -> (r: Option<InGame>)
        ensures
            r == (if source is Playing || source is Crafting || source is Paused {
                Some(InGame::Yes)
            } else {
                None::<InGame>
            }),
    {
        match source {
            GameState::Playing | GameState::Crafting | GameState::Paused => Some(InGame::Yes),
            _ => None,
        }
    }
}

/// The wave machine's phase.
#[derive(Clone, Copy, PartialEq, Eq, Structural, Debug, Hash)]
pub enum WavePhase {
    /// Brief pause before a wave.
    Countdown,
    /// Releasing the wave's drones one by one.
    Spawning,
    /// All spawned; waiting for the kills.
    InProgress,
    /// All waves done.
    Complete,
}

impl Default for WavePhase {
    /// A fresh run starts in the countdown.
    fn default() -> (p: WavePhase)
        ensures
            p == WavePhase::Countdown,
    {
        WavePhase::Countdown
    }
}

/// Which screen is showing while the game is paused.
#[derive(Clone, Copy, PartialEq, Eq, Structural, Debug, Hash)]
pub enum PauseScreen {
    Main,
    Settings,
    Audio,
}

impl Default for PauseScreen {
    /// Pausing always opens the main pause screen.
    fn default() -> (p: PauseScreen)
        ensures
            p == PauseScreen::Main,
    {
        PauseScreen::Main
    }
}

/// Where the pause key sends the game: playing and paused swap; every other
/// screen ignores it.
pub fn toggle_pause(current: GameState) -> (next: Option<GameState>)
    ensures
        next == (match current {
            GameState::Playing => Some(GameState::Paused),
            GameState::Paused => Some(GameState::Playing),
            _ => None::<GameState>,
        }),
{
    match current {
        GameState::Playing => Some(GameState::Paused),
        GameState::Paused => Some(GameState::Playing),
        _ => None,
    }
}

/// Where the crafting key sends the game: playing and crafting swap; every
/// other screen ignores it.
pub fn toggle_crafting(current: GameState) -> (next: Option<GameState>)
    ensures
        next == (match current {
            GameState::Playing => Some(GameState::Crafting),
            GameState::Crafting => Some(GameState::Playing),
            _ => None::<GameState>,
        }),
{
    match current {
        GameState::Playing => Some(GameState::Crafting),
        GameState::Crafting => Some(GameState::Playing),
        _ => None,
    }
}

/// Where the restart key sends the game from the game-over and victory
/// screens: back to loading, which resets the run.
pub fn toggle_restart() -> (next: GameState)
    ensures
        next == GameState::Loading,
{
    GameState::Loading
}

} // verus!
