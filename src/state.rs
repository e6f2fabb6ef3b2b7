use vstd::prelude::*;

verus! {

/// Run state that gates the in-play phases.
#[derive(Clone, Copy, Debug, PartialEq, Eq, Structural)]
pub enum GameState {
    InPlay,
    Paused,
    GameOver,
}

/// Input events that drive the run state.
#[derive(Clone, Copy, Debug, PartialEq, Eq, Structural)]
pub enum StateEvent {
    /// Esc pressed this frame.
    Escape,
    /// Space pressed this frame.
    Restart,
    /// No entity carries the spaceship tag.
    ShipLost,
}

pub open spec fn next_state_spec(s: GameState, e: StateEvent) -> GameState {
    match (s, e) {
        (GameState::InPlay, StateEvent::Escape) => GameState::Paused,
        (GameState::Paused, StateEvent::Escape) => GameState::InPlay,
        (GameState::InPlay, StateEvent::ShipLost) => GameState::GameOver,
        (GameState::GameOver, StateEvent::Restart) => GameState::InPlay,
        _ => s,
    }
}

/// Transition of the run-state machine; events with no transition from the
/// current state leave it unchanged.
pub fn next_state(s: GameState, e: StateEvent) -> (r: GameState)
    ensures
        r == next_state_spec(s, e),
{
    match (s, e) {
        (GameState::InPlay, StateEvent::Escape) => GameState::Paused,
        (GameState::Paused, StateEvent::Escape) => GameState::InPlay,
        (GameState::InPlay, StateEvent::ShipLost) => GameState::GameOver,
        (GameState::GameOver, StateEvent::Restart) => GameState::InPlay,
        _ => s,
    }
}

} // verus!
