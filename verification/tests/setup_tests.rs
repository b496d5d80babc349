use hexciv::action::{CursorAction, DebugAction, GameSetupAction, GlobalAction, InputButton, InputChord, UnitAction};
use hexciv::civilization::{Civilization, OurCivilization};
use hexciv::game_setup::{
    hosting_legend, new_game_session_id, parse_game_session_id, room_url, split_words, GameSessionId, GameSetup, NumPlayers,
    GAME_SESSION_ID_WORD_LEN,
};
use hexciv::layer::{
    BaseTerrainLayer, CivilianUnitLayer, LandMilitaryUnitLayer, LayerZIndex, RiverLayer, TerrainFeaturesLayer,
    UnitSelectionLayer, UnitStateLayer,
};
use hexciv::state::{GameSetupState, GameState, InputDialogState, TurnState};

fn words() -> Vec<String> {
    ["abandon", "ability", "able", "about", "river"].iter().map(|w| w.to_string()).collect()
}

#[test]
fn splitting_at_hyphens_and_spaces() {
    assert_eq!(split_words("a-b c"), vec!["a", "b", "c"]);
    assert_eq!(split_words("a--b"), vec!["a", "", "b"]);
    assert_eq!(split_words(""), vec![""]);
    assert_eq!(split_words("word"), vec!["word"]);
}

#[test]
fn typed_session_ids() {
    let w = words();
    let id = parse_game_session_id("able-river", &w).unwrap();
    assert_eq!(id.0, ["able".to_string(), "river".to_string()]);
    let id = parse_game_session_id("able river", &w).unwrap();
    assert_eq!(id.0, ["able".to_string(), "river".to_string()]);
    // Pieces that are not words are left out.
    let id = parse_game_session_id("about-xyz- river", &w).unwrap();
    assert_eq!(id.0, ["about".to_string(), "river".to_string()]);
    assert!(parse_game_session_id("able", &w).is_none());
    assert!(parse_game_session_id("able-river-about", &w).is_none());
    assert!(parse_game_session_id("", &w).is_none());
}

#[test]
fn session_ids_read_back_as_themselves() {
    let w = words();
    let id = GameSessionId(["ability".to_string(), "abandon".to_string()]);
    let shown = id.to_display_string();
    assert_eq!(shown, "ability-abandon");
    assert_eq!(parse_game_session_id(&shown, &w).unwrap().0, id.0);
}

#[test]
fn new_session_ids_are_made_of_listed_words() {
    let w = words();
    for _ in 0..20 {
        let id = new_game_session_id(&w);
        assert!(w.contains(&id.0[0]));
        assert!(w.contains(&id.0[1]));
        assert_ne!(id.0[0], id.0[1]);
        assert_eq!(parse_game_session_id(&id.to_display_string(), &w).unwrap().0, id.0);
    }
    assert_eq!(GAME_SESSION_ID_WORD_LEN, 2);
}

#[test]
fn game_setup_values() {
    let setup = GameSetup { map_seed: 1, game_seed: 2, num_players: 2 };
    assert_eq!(setup, GameSetup { map_seed: 1, game_seed: 2, num_players: 2 });
    assert_eq!(NumPlayers(2).0, 2);
}

#[test]
fn civilizations() {
    let all = Civilization::variants();
    assert_eq!(all.len(), 18);
    assert_eq!(all[0], Civilization::America);
    assert_eq!(all[17], Civilization::Sumeria);
    assert_eq!(Civilization::America.colors(), [0x042C6C, 0xF7F7F8]);
    assert_eq!(Civilization::Scythia.colors(), [0xFBB33B, 0x7C0604]);
    assert_eq!(Civilization::Kongo.name(), "Kongo");
    assert_eq!(OurCivilization(Civilization::India).0.name(), "India");
    for (i, c) in all.iter().enumerate() {
        assert!(!all[i + 1..].contains(c));
    }
}

#[test]
fn layers_are_drawn_in_order() {
    assert_eq!(BaseTerrainLayer::z_index(), 0);
    assert_eq!(RiverLayer::z_index(), 1);
    assert_eq!(TerrainFeaturesLayer::z_index(), 2);
    assert_eq!(UnitSelectionLayer::z_index(), 4);
    assert_eq!(UnitStateLayer::z_index(), 5);
    assert_eq!(CivilianUnitLayer::z_index(), 6);
    assert_eq!(LandMilitaryUnitLayer::z_index(), 6);
}

#[test]
fn initial_states() {
    assert_eq!(GameSetupState::default(), GameSetupState::Inactive);
    assert_eq!(GameState::default(), GameState::Setup);
    assert_eq!(InputDialogState::default(), InputDialogState::Hidden);
    assert_eq!(TurnState::default(), TurnState::Processing);
}

#[test]
fn hosting_legend_shows_the_session() {
    let id = GameSessionId(["ability".to_string(), "abandon".to_string()]);
    assert_eq!(hosting_legend(&id, NumPlayers(2)), "Hosting game...\nGame session ID: ability-abandon\nPlayers: 2\n");
    assert_eq!(hosting_legend(&id, NumPlayers(10)), "Hosting game...\nGame session ID: ability-abandon\nPlayers: 10\n");
}

#[test]
fn room_address_of_a_session() {
    let id = GameSessionId(["able".to_string(), "river".to_string()]);
    assert_eq!(room_url("127.0.0.1", "3536", &id, NumPlayers(2)), "ws://127.0.0.1:3536/able-river?next=2");
    assert_eq!(room_url("h", "1", &id, NumPlayers(0)), "ws://h:1/able-river?next=0");
    assert_eq!(room_url("h", "1", &id, NumPlayers(255)), "ws://h:1/able-river?next=255");
    assert_eq!(room_url("h", "1", &id, NumPlayers(107)), "ws://h:1/able-river?next=107");
}

#[test]
fn buttons_bound_to_actions() {
    use_bindings();
}

fn use_bindings() {
    let press = |button| InputChord { button, control: false };
    assert_eq!(
        GlobalAction::input_map(),
        vec![
            (GlobalAction::PreviousReadyUnit, press(InputButton::Comma)),
            (GlobalAction::NextReadyUnit, press(InputButton::Period)),
            (GlobalAction::NextReadyUnit, press(InputButton::KeyZ)),
        ]
    );
    assert_eq!(
        CursorAction::input_map(),
        vec![(CursorAction::Click, press(InputButton::MouseLeft)), (CursorAction::SecondaryClick, press(InputButton::MouseRight))]
    );
    assert_eq!(
        DebugAction::input_map(),
        vec![(DebugAction::ShowTileLabels, InputChord { button: InputButton::KeyI, control: true })]
    );
    assert_eq!(
        GameSetupAction::input_map(),
        vec![(GameSetupAction::HostGame, press(InputButton::KeyH)), (GameSetupAction::JoinGame, press(InputButton::KeyJ))]
    );
    assert_eq!(
        UnitAction::input_map(),
        vec![(UnitAction::SkipTurn, press(InputButton::Space)), (UnitAction::Fortify, press(InputButton::KeyF))]
    );
}

#[test]
fn session_ids_typed_with_a_space_read_back_as_themselves() {
    let w = words();
    let id = GameSessionId(["ability".to_string(), "abandon".to_string()]);
    assert_eq!(parse_game_session_id("ability abandon", &w).unwrap().0, id.0);
}
