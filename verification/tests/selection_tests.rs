use hexciv::action::GlobalAction;
use hexciv::civilization::Civilization;
use hexciv::hex::TilePos;
use hexciv::selection::{
    cycle_ready_unit, has_ready_units, ids_in_order, max_unit, min_unit, select_unit, unit_shown_at, UnitQuery,
};
use hexciv::unit::{
    CivilianUnit, FullMovementPoints, LandMilitaryUnit, MovementPoints, UnitBundle, UnitId, UnitSelected, UnitState,
    UnitType,
};

const C: TilePos = TilePos { x: 4, y: 4 };
const D: TilePos = TilePos { x: 5, y: 4 };

fn unit(id: u128, civ: Civilization, position: TilePos, state: UnitState) -> UnitBundle {
    let unit_type = match state {
        UnitState::CivilianReady | UnitState::CivilianReadyOutOfOrders | UnitState::CivilianOutOfMoves => {
            UnitType::Civilian(CivilianUnit::Settler)
        },
        _ => UnitType::LandMilitary(LandMilitaryUnit::Warrior),
    };
    UnitBundle {
        unit_id: UnitId(id),
        position,
        unit_type,
        civ,
        movement_points: MovementPoints(2),
        full_movement_points: FullMovementPoints(2),
        unit_state: state,
    }
}

/// Units of Rome with identities 10 (ready), 20 (fortified), 30 (ready) and
/// 40 (ready), out of order, and a ready unit of Egypt with identity 25.
fn units() -> Vec<UnitBundle> {
    vec![
        unit(30, Civilization::Rome, D, UnitState::LandMilitaryReady),
        unit(25, Civilization::Egypt, C, UnitState::CivilianReady),
        unit(10, Civilization::Rome, C, UnitState::CivilianReady),
        unit(40, Civilization::Rome, D, UnitState::LandMilitaryReady),
        unit(20, Civilization::Rome, C, UnitState::LandMilitaryFortified),
    ]
}

fn selected(id: u128, position: TilePos) -> Option<UnitSelected> {
    Some(UnitSelected { unit_id: UnitId(id), position })
}

#[test]
fn identities_in_increasing_order() {
    let ours = UnitQuery { civ: Civilization::Rome, position: None, ready_only: false };
    assert_eq!(ids_in_order(&units(), &ours), vec![10, 20, 30, 40]);
    let ready = UnitQuery { civ: Civilization::Rome, position: None, ready_only: true };
    assert_eq!(ids_in_order(&units(), &ready), vec![10, 30, 40]);
    let none = UnitQuery { civ: Civilization::China, position: None, ready_only: false };
    assert!(ids_in_order(&units(), &none).is_empty());
}

#[test]
fn smallest_and_largest_identities_in_range() {
    let u = units();
    let ready = UnitQuery { civ: Civilization::Rome, position: None, ready_only: true };
    assert_eq!(min_unit(&u, &ready, None, None).map(|i| u[i].unit_id), Some(UnitId(10)));
    assert_eq!(min_unit(&u, &ready, Some(10), None).map(|i| u[i].unit_id), Some(UnitId(30)));
    assert_eq!(max_unit(&u, &ready, None, Some(40)).map(|i| u[i].unit_id), Some(UnitId(30)));
    assert_eq!(max_unit(&u, &ready, None, Some(10)), None);
    let here = UnitQuery { civ: Civilization::Rome, position: Some(C), ready_only: false };
    assert_eq!(max_unit(&u, &here, None, None).map(|i| u[i].unit_id), Some(UnitId(20)));
}

#[test]
fn ready_units_of_a_civilization() {
    assert!(has_ready_units(&units(), Civilization::Rome));
    assert!(has_ready_units(&units(), Civilization::Egypt));
    assert!(!has_ready_units(&units(), Civilization::China));
    let fortified = vec![unit(1, Civilization::Rome, C, UnitState::LandMilitaryFortified)];
    assert!(!has_ready_units(&fortified, Civilization::Rome));
}

#[test]
fn cycling_through_ready_units() {
    let u = units();
    let rome = Civilization::Rome;
    assert_eq!(cycle_ready_unit(&u, rome, None, None), selected(10, C));
    assert_eq!(cycle_ready_unit(&u, rome, Some(UnitId(20)), Some(GlobalAction::NextReadyUnit)), selected(30, D));
    assert_eq!(cycle_ready_unit(&u, rome, Some(UnitId(20)), Some(GlobalAction::PreviousReadyUnit)), selected(10, C));
    assert_eq!(cycle_ready_unit(&u, rome, Some(UnitId(30)), Some(GlobalAction::NextReadyUnit)), selected(40, D));
    assert_eq!(cycle_ready_unit(&u, rome, Some(UnitId(30)), Some(GlobalAction::PreviousReadyUnit)), selected(10, C));
    assert_eq!(cycle_ready_unit(&u, rome, Some(UnitId(10)), Some(GlobalAction::PreviousReadyUnit)), None);
    assert_eq!(cycle_ready_unit(&u, rome, Some(UnitId(40)), Some(GlobalAction::NextReadyUnit)), None);
    assert_eq!(cycle_ready_unit(&u, rome, Some(UnitId(30)), None), None);
    // The active unit is not one of ours.
    assert_eq!(cycle_ready_unit(&u, rome, Some(UnitId(25)), Some(GlobalAction::NextReadyUnit)), None);
}

#[test]
fn no_cycling_without_ready_units() {
    let u = vec![
        unit(1, Civilization::Rome, C, UnitState::LandMilitaryFortified),
        unit(2, Civilization::Rome, C, UnitState::CivilianOutOfMoves),
    ];
    assert_eq!(cycle_ready_unit(&u, Civilization::Rome, None, None), None);
    assert_eq!(cycle_ready_unit(&u, Civilization::Rome, Some(UnitId(1)), Some(GlobalAction::NextReadyUnit)), None);
}

#[test]
fn clicking_cycles_through_stacked_units() {
    let u = units();
    let rome = Civilization::Rome;
    // Rome has 10 and 20 at C.
    assert_eq!(select_unit(&u, rome, C, Some((C, UnitId(10))), UnitId(10)), selected(20, C));
    assert_eq!(select_unit(&u, rome, C, Some((C, UnitId(20))), UnitId(10)), selected(10, C));
    // The active unit at C is not one of ours: the first of ours there.
    assert_eq!(select_unit(&u, rome, C, Some((C, UnitId(25))), UnitId(10)), selected(10, C));
    // A single unit is selected again.
    let single = vec![unit(7, rome, C, UnitState::CivilianReady)];
    assert_eq!(select_unit(&single, rome, C, Some((C, UnitId(7))), UnitId(7)), selected(7, C));
}

#[test]
fn clicking_elsewhere_selects_the_shown_unit() {
    let u = units();
    let rome = Civilization::Rome;
    assert_eq!(select_unit(&u, rome, D, Some((C, UnitId(10))), UnitId(30)), selected(30, D));
    assert_eq!(select_unit(&u, rome, D, None, UnitId(30)), selected(30, D));
    // No unit of ours at the clicked tile.
    assert_eq!(select_unit(&u, Civilization::Egypt, D, None, UnitId(30)), None);
}

#[test]
fn the_unit_shown_at_a_tile_has_the_smallest_identity() {
    let u = units();
    assert_eq!(unit_shown_at(&u, C).map(|i| u[i].unit_id), Some(UnitId(10)));
    assert_eq!(unit_shown_at(&u, D).map(|i| u[i].unit_id), Some(UnitId(30)));
    assert_eq!(unit_shown_at(&u, TilePos { x: 0, y: 0 }), None);
}

#[test]
fn cycling_forward_then_back_returns_to_the_unit() {
    let u = units();
    let rome = Civilization::Rome;
    for id in [10u128, 30] {
        let next = cycle_ready_unit(&u, rome, Some(UnitId(id)), Some(GlobalAction::NextReadyUnit)).unwrap();
        let back = cycle_ready_unit(&u, rome, Some(next.unit_id), Some(GlobalAction::PreviousReadyUnit)).unwrap();
        assert_eq!(back.unit_id, UnitId(id));
    }
}
