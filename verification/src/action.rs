//! Actions that players trigger with the keyboard or the mouse, and the
//! buttons bound to them.
use vstd::prelude::*;

verus! {

/// Actions available whenever the game runs.
#[derive(Copy, Clone, PartialEq, Eq, Structural, Debug, Hash)]
pub enum GlobalAction {
    PreviousReadyUnit,
    NextReadyUnit,
}

/// Mouse actions on the map.
#[derive(Copy, Clone, PartialEq, Eq, Structural, Debug, Hash)]
pub enum CursorAction {
    Click,
    SecondaryClick,
}

/// Actions for inspecting the game while developing it.
#[derive(Copy, Clone, PartialEq, Eq, Structural, Debug, Hash)]
pub enum DebugAction {
    ShowTileLabels,
}

/// Actions before a game starts.
#[derive(Copy, Clone, PartialEq, Eq, Structural, Debug, Hash)]
pub enum GameSetupAction {
    HostGame,
    JoinGame,
}

/// Orders for the active unit.
#[derive(Copy, Clone, PartialEq, Eq, Structural, Debug, Hash)]
pub enum UnitAction {
    SkipTurn,
    Fortify,
}

/// A key or mouse button that an action can be bound to.
#[derive(Copy, Clone, PartialEq, Eq, Structural, Debug, Hash)]
pub enum InputButton {
    KeyF,
    KeyH,
    KeyI,
    KeyJ,
    KeyZ,
    Comma,
    Period,
    Space,
    MouseLeft,
    MouseRight,
}

/// A button, pressed on its own or while the control key is held.
#[derive(Copy, Clone, PartialEq, Eq, Structural, Debug, Hash)]
pub struct InputChord {
    pub button: InputButton,
    pub control: bool,
}

/// The button pressed on its own.
pub open spec fn spec_press(button: InputButton) -> InputChord {
    InputChord { button, control: false }
}

fn press(button: InputButton) -> (r: InputChord)
    ensures
        r == spec_press(button),
{
    InputChord { button, control: false }
}

impl GlobalAction {
    /// The buttons bound to each action: comma goes back to the previous
    /// ready unit, period or `Z` forward to the next.
    pub fn input_map() -> (r: Vec<(GlobalAction, InputChord)>)
        ensures
            r@ == seq![
                (GlobalAction::PreviousReadyUnit, spec_press(InputButton::Comma)),
                (GlobalAction::NextReadyUnit, spec_press(InputButton::Period)),
                (GlobalAction::NextReadyUnit, spec_press(InputButton::KeyZ)),
            ],
    {
        let r = vec![
            (GlobalAction::PreviousReadyUnit, press(InputButton::Comma)),
            (GlobalAction::NextReadyUnit, press(InputButton::Period)),
            (GlobalAction::NextReadyUnit, press(InputButton::KeyZ)),
        ];
        assert(r@ =~= seq![
            (GlobalAction::PreviousReadyUnit, spec_press(InputButton::Comma)),
            (GlobalAction::NextReadyUnit, spec_press(InputButton::Period)),
            (GlobalAction::NextReadyUnit, spec_press(InputButton::KeyZ)),
        ]);
        r
    }
}

impl CursorAction {
    /// The buttons bound to each action: the left mouse button clicks, the
    /// right one makes a secondary click.
    pub fn input_map() -> (r: Vec<(CursorAction, InputChord)>)
        ensures
            r@ == seq![
                (CursorAction::Click, spec_press(InputButton::MouseLeft)),
                (CursorAction::SecondaryClick, spec_press(InputButton::MouseRight)),
            ],
    {
        let r = vec![
            (CursorAction::Click, press(InputButton::MouseLeft)),
            (CursorAction::SecondaryClick, press(InputButton::MouseRight)),
        ];
        assert(r@ =~= seq![
            (CursorAction::Click, spec_press(InputButton::MouseLeft)),
            (CursorAction::SecondaryClick, spec_press(InputButton::MouseRight)),
        ]);
        r
    }
}

impl DebugAction {
    /// The buttons bound to each action: control and `I` toggle the tile
    /// labels.
    pub fn input_map() -> (r: Vec<(DebugAction, InputChord)>)
        ensures
            r@ == seq![
                (DebugAction::ShowTileLabels, InputChord { button: InputButton::KeyI, control: true }),
            ],
    {
        let r = vec![
            (DebugAction::ShowTileLabels, InputChord { button: InputButton::KeyI, control: true }),
        ];
        assert(r@ =~= seq![
            (DebugAction::ShowTileLabels, InputChord { button: InputButton::KeyI, control: true }),
        ]);
        r
    }
}

impl GameSetupAction {
    /// The buttons bound to each action: `H` hosts a game, `J` joins one.
    pub fn input_map() -> (r: Vec<(GameSetupAction, InputChord)>)
        ensures
            r@ == seq![
                (GameSetupAction::HostGame, spec_press(InputButton::KeyH)),
                (GameSetupAction::JoinGame, spec_press(InputButton::KeyJ)),
            ],
    {
        let r = vec![
            (GameSetupAction::HostGame, press(InputButton::KeyH)),
            (GameSetupAction::JoinGame, press(InputButton::KeyJ)),
        ];
        assert(r@ =~= seq![
            (GameSetupAction::HostGame, spec_press(InputButton::KeyH)),
            (GameSetupAction::JoinGame, spec_press(InputButton::KeyJ)),
        ]);
        r
    }
}

impl UnitAction {
    /// The buttons bound to each action: space skips the unit's turn, `F`
    /// fortifies it.
    pub fn input_map() -> (r: Vec<(UnitAction, InputChord)>)
        ensures
            r@ == seq![
                (UnitAction::SkipTurn, spec_press(InputButton::Space)),
                (UnitAction::Fortify, spec_press(InputButton::KeyF)),
            ],
    {
        let r = vec![
            (UnitAction::SkipTurn, press(InputButton::Space)),
            (UnitAction::Fortify, press(InputButton::KeyF)),
        ];
        assert(r@ =~= seq![
            (UnitAction::SkipTurn, spec_press(InputButton::Space)),
            (UnitAction::Fortify, spec_press(InputButton::KeyF)),
        ]);
        r
    }
}

} // verus!
