use hexciv::civilization::Civilization;
use hexciv::hex::TilePos;
use hexciv::state::TurnState;
use hexciv::unit::{
    apply_unit_moved, fortified_state, out_of_orders_state, reset_movement_points, spawned_unit, unit_actions_legend,
    unit_tile_bundle, CivilianUnit, CivilianUnitBundle, CivilianUnitTileBundle, FullMovementPoints,
    LandMilitaryUnit, LandMilitaryUnitBundle, LandMilitaryUnitTileBundle, MovementPoints, TileSpec, UnitBundle,
    UnitId, UnitMoved, UnitSelection, UnitSelectionTileBundle, UnitSpawned, UnitState, UnitStateModifier,
    UnitStateTileBundle, UnitTileBundle, UnitType,
};

const P: TilePos = TilePos { x: 2, y: 3 };
const Q: TilePos = TilePos { x: 3, y: 3 };

#[test]
fn unit_state_indices() {
    for i in 0..8u32 {
        assert_eq!(UnitState::try_from_index(i).unwrap().to_index(), i);
    }
    assert_eq!(UnitState::try_from_index(8), None);
    assert_eq!(UnitState::LandMilitaryFortified.to_index(), 2);
    assert_eq!(UnitStateModifier::OutOfOrders.to_index(), 3);
    assert_eq!(UnitSelection::Active.to_index(), 0);
}

#[test]
fn modifier_gives_out_of_orders_states() {
    assert_eq!(UnitState::CivilianReady.add(UnitStateModifier::OutOfOrders), UnitState::CivilianReadyOutOfOrders);
    assert_eq!(
        UnitState::LandMilitaryReady.add(UnitStateModifier::OutOfOrders),
        UnitState::LandMilitaryReadyOutOfOrders
    );
    assert_eq!(
        UnitState::LandMilitaryFortified.add(UnitStateModifier::OutOfOrders),
        UnitState::LandMilitaryFortifiedOutOfOrders
    );
}

#[test]
fn ready_states() {
    assert!(UnitState::CivilianReady.is_ready());
    assert!(UnitState::LandMilitaryReady.is_ready());
    assert!(!UnitState::LandMilitaryFortified.is_ready());
    assert!(!UnitState::CivilianReadyOutOfOrders.is_ready());
    assert!(!UnitState::LandMilitaryOutOfMoves.is_ready());
}

#[test]
fn skipping_a_turn() {
    assert_eq!(out_of_orders_state(UnitState::CivilianReady), Some(UnitState::CivilianReadyOutOfOrders));
    assert_eq!(
        out_of_orders_state(UnitState::LandMilitaryFortified),
        Some(UnitState::LandMilitaryReadyOutOfOrders)
    );
    assert_eq!(
        out_of_orders_state(UnitState::LandMilitaryFortifiedOutOfOrders),
        Some(UnitState::LandMilitaryReadyOutOfOrders)
    );
    assert_eq!(out_of_orders_state(UnitState::CivilianReadyOutOfOrders), None);
    assert_eq!(out_of_orders_state(UnitState::CivilianOutOfMoves), None);
    // Skipping twice is skipping once.
    let once = out_of_orders_state(UnitState::LandMilitaryReady).unwrap();
    assert_eq!(out_of_orders_state(once), None);
}

#[test]
fn fortifying() {
    assert_eq!(fortified_state(), UnitState::LandMilitaryFortifiedOutOfOrders);
}

#[test]
fn movement_points_of_unit_kinds() {
    assert_eq!(CivilianUnit::Settler.movement_points(), 2);
    assert_eq!(LandMilitaryUnit::Warrior.movement_points(), 2);
    assert_eq!(CivilianUnit::Settler.to_index(), 0);
    assert_eq!(LandMilitaryUnit::Warrior.to_index(), 0);
}

#[test]
fn unit_types_and_ids_from_their_parts() {
    assert_eq!(UnitType::from(CivilianUnit::Settler), UnitType::Civilian(CivilianUnit::Settler));
    assert_eq!(UnitType::from(LandMilitaryUnit::Warrior), UnitType::LandMilitary(LandMilitaryUnit::Warrior));
    assert_eq!(UnitId::from(42u128), UnitId(42));
}

#[test]
fn fresh_units_are_ready_with_full_points() {
    let s = CivilianUnitBundle::new(UnitId(1), P, Civilization::Rome, CivilianUnit::Settler).unit_bundle;
    assert_eq!(
        s,
        UnitBundle {
            unit_id: UnitId(1),
            position: P,
            unit_type: UnitType::Civilian(CivilianUnit::Settler),
            civ: Civilization::Rome,
            movement_points: MovementPoints(2),
            full_movement_points: FullMovementPoints(2),
            unit_state: UnitState::CivilianReady,
        }
    );
    let w = LandMilitaryUnitBundle::new(UnitId(2), Q, Civilization::Egypt, LandMilitaryUnit::Warrior).unit_bundle;
    assert_eq!(w.unit_state, UnitState::LandMilitaryReady);
    assert_eq!(w.movement_points, MovementPoints(2));
    let spawned = spawned_unit(UnitSpawned {
        unit_id: UnitId(2),
        position: Q,
        unit_type: UnitType::LandMilitary(LandMilitaryUnit::Warrior),
        civ: Civilization::Egypt,
    });
    assert_eq!(spawned, w);
}

#[test]
fn unit_tiles_use_the_civilization_colors() {
    let sel = UnitSelectionTileBundle::new(P, UnitId(5));
    assert_eq!(sel.tile_bundle, TileSpec { position: P, texture_index: 0, color: None });
    let state = UnitStateTileBundle::new(P, UnitType::LandMilitary(LandMilitaryUnit::Warrior), Civilization::America, UnitId(5));
    assert_eq!(state.tile_bundle, TileSpec { position: P, texture_index: 1, color: Some(0x042C6C) });
    let civ = CivilianUnitTileBundle::new(P, CivilianUnit::Settler, Civilization::Arabia, UnitId(6));
    assert_eq!(civ.tile_bundle, TileSpec { position: P, texture_index: 0, color: Some(0x166C33) });
    let mil = LandMilitaryUnitTileBundle::new(P, LandMilitaryUnit::Warrior, Civilization::Japan, UnitId(7));
    assert_eq!(mil.tile_bundle.color, Some(0x7C0505));
    match unit_tile_bundle(P, UnitType::Civilian(CivilianUnit::Settler), Civilization::Arabia, UnitId(6)) {
        UnitTileBundle::Civilian(b) => assert_eq!(b, civ),
        other => panic!("unexpected tile {:?}", other),
    }
}

fn warrior() -> UnitBundle {
    LandMilitaryUnitBundle::new(UnitId(9), P, Civilization::Spain, LandMilitaryUnit::Warrior).unit_bundle
}

#[test]
fn a_move_pays_its_cost() {
    let mut u = warrior();
    apply_unit_moved(&mut u, UnitMoved { unit_id: UnitId(9), from_pos: P, to_pos: Q, movement_cost: 1 });
    assert_eq!(u.position, Q);
    assert_eq!(u.movement_points, MovementPoints(1));
    assert_eq!(u.unit_state, UnitState::LandMilitaryReady);
    apply_unit_moved(&mut u, UnitMoved { unit_id: UnitId(9), from_pos: Q, to_pos: P, movement_cost: 1 });
    assert_eq!(u.movement_points, MovementPoints(0));
    assert_eq!(u.unit_state, UnitState::LandMilitaryOutOfMoves);
    reset_movement_points(&mut u);
    assert_eq!(u.movement_points, MovementPoints(2));
}

#[test]
fn an_expensive_first_move_overdraws_the_points() {
    let mut u = warrior();
    u.unit_state = UnitState::LandMilitaryFortified;
    apply_unit_moved(&mut u, UnitMoved { unit_id: UnitId(9), from_pos: P, to_pos: Q, movement_cost: 3 });
    assert_eq!(u.movement_points, MovementPoints(-1));
    assert_eq!(u.unit_state, UnitState::LandMilitaryFortified);
    let mut s = CivilianUnitBundle::new(UnitId(3), P, Civilization::China, CivilianUnit::Settler).unit_bundle;
    apply_unit_moved(&mut s, UnitMoved { unit_id: UnitId(3), from_pos: P, to_pos: Q, movement_cost: 2 });
    assert_eq!(s.unit_state, UnitState::CivilianOutOfMoves);
}

#[test]
fn actions_legend_of_the_selected_unit() {
    let warrior = UnitType::LandMilitary(LandMilitaryUnit::Warrior);
    let settler = UnitType::Civilian(CivilianUnit::Settler);
    assert_eq!(unit_actions_legend(warrior, TurnState::InProgress), "[F] Fortify\n[Space] Skip Turn\n");
    assert_eq!(unit_actions_legend(settler, TurnState::InProgress), "[Space] Skip Turn\n");
    assert_eq!(unit_actions_legend(warrior, TurnState::Processing), "");
}

#[test]
fn a_unit_marked_out_of_moves_keeps_its_state_while_points_remain() {
    let mut u = warrior();
    u.unit_state = UnitState::LandMilitaryOutOfMoves;
    apply_unit_moved(&mut u, UnitMoved { unit_id: UnitId(9), from_pos: P, to_pos: Q, movement_cost: 1 });
    assert_eq!(u.position, Q);
    assert_eq!(u.movement_points, MovementPoints(1));
    assert_eq!(u.unit_state, UnitState::LandMilitaryOutOfMoves);
}
