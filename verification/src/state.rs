//! The states that the game moves through.
use vstd::prelude::*;

verus! {

/// Whether this player sets up a game as its host, joins one, or neither.
#[derive(Copy, Clone, PartialEq, Eq, Structural, Debug, Hash)]
pub enum GameSetupState {
    Inactive,
    Hosting,
    Joining,
}

/// Whether the game is being set up or played.
#[derive(Copy, Clone, PartialEq, Eq, Structural, Debug, Hash)]
pub enum GameState {
    Setup,
    Playing,
}

/// Whether the dialog that asks for text is shown.
#[derive(Copy, Clone, PartialEq, Eq, Structural, Debug, Hash)]
pub enum InputDialogState {
    Hidden,
    Shown,
}

/// Whether the turn is being prepared or players are making their moves.
#[derive(Copy, Clone, PartialEq, Eq, Structural, Debug, Hash)]
pub enum TurnState {
    Processing,
    InProgress,
}

impl Default for GameSetupState {
    fn default() -> (r: GameSetupState)
        ensures
            r == GameSetupState::Inactive,
    {
        GameSetupState::Inactive
    }
}

impl Default for GameState {
    fn default() -> (r: GameState)
        ensures
            r == GameState::Setup,
    {
        GameState::Setup
    }
}

impl Default for InputDialogState {
    fn default() -> (r: InputDialogState)
        ensures
            r == InputDialogState::Hidden,
    {
        InputDialogState::Hidden
    }
}

impl Default for TurnState {
    fn default() -> (r: TurnState)
        ensures
            r == TurnState::Processing,
    {
        TurnState::Processing
    }
}

} // verus!
