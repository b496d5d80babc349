use hexciv::board::{handle_unit_moved, handle_unit_spawned, ShownUnits};
use hexciv::civilization::Civilization;
use hexciv::hex::TilePos;
use hexciv::peer::HostBroadcast;
use hexciv::unit::{
    spawned_unit, CivilianUnit, LandMilitaryUnit, MovementPoints, UnitId, UnitMoved, UnitSpawned, UnitState,
    UnitType,
};

const P: TilePos = TilePos { x: 2, y: 3 };
const Q: TilePos = TilePos { x: 3, y: 3 };

fn spawn(id: u128, unit_type: UnitType) -> UnitSpawned {
    UnitSpawned { unit_id: UnitId(id), position: P, unit_type, civ: Civilization::Spain }
}

#[test]
fn tiles_show_one_unit_each() {
    let mut shown = ShownUnits::new();
    assert_eq!(shown.get(P), None);
    shown.set(P, UnitId(1));
    shown.set(Q, UnitId(2));
    shown.set(P, UnitId(3));
    assert_eq!(shown.get(P), Some(UnitId(3)));
    assert_eq!(shown.get(Q), Some(UnitId(2)));
    assert_eq!(shown.entries.len(), 2);
    shown.remove(P);
    assert_eq!(shown.get(P), None);
    assert_eq!(shown.get(Q), Some(UnitId(2)));
    shown.remove(P);
    assert_eq!(shown.entries.len(), 1);
}

#[test]
fn a_spawned_unit_is_shown_and_passed_on_by_the_host() {
    let mut units = Vec::new();
    let mut shown = ShownUnits::new();
    let settler = spawn(5, UnitType::Civilian(CivilianUnit::Settler));
    assert_eq!(handle_unit_spawned(&mut units, &mut shown, true, settler), Some(HostBroadcast::UnitSpawned(settler)));
    let warrior = spawn(7, UnitType::LandMilitary(LandMilitaryUnit::Warrior));
    assert_eq!(handle_unit_spawned(&mut units, &mut shown, false, warrior), None);
    assert_eq!(units, vec![spawned_unit(settler), spawned_unit(warrior)]);
    assert_eq!(shown.get(P), Some(UnitId(7)));
}

#[test]
fn a_moved_unit_leaves_the_smallest_identity_shown_behind() {
    let mut units = Vec::new();
    let mut shown = ShownUnits::new();
    handle_unit_spawned(&mut units, &mut shown, false, spawn(7, UnitType::LandMilitary(LandMilitaryUnit::Warrior)));
    handle_unit_spawned(&mut units, &mut shown, false, spawn(5, UnitType::Civilian(CivilianUnit::Settler)));
    handle_unit_spawned(&mut units, &mut shown, false, spawn(6, UnitType::Civilian(CivilianUnit::Settler)));
    let m = UnitMoved { unit_id: UnitId(6), from_pos: P, to_pos: Q, movement_cost: 1 };
    assert_eq!(handle_unit_moved(&mut units, &mut shown, true, m), Some(HostBroadcast::UnitMoved(m)));
    assert_eq!(units[2].position, Q);
    assert_eq!(units[2].movement_points, MovementPoints(1));
    assert_eq!(units[2].unit_state, UnitState::CivilianReady);
    assert_eq!(units[0].position, P);
    assert_eq!(units[1].position, P);
    assert_eq!(shown.get(P), Some(UnitId(5)));
    assert_eq!(shown.get(Q), Some(UnitId(6)));
}

#[test]
fn the_last_unit_to_leave_a_tile_clears_it() {
    let mut units = Vec::new();
    let mut shown = ShownUnits::new();
    handle_unit_spawned(&mut units, &mut shown, false, spawn(7, UnitType::LandMilitary(LandMilitaryUnit::Warrior)));
    let m = UnitMoved { unit_id: UnitId(7), from_pos: P, to_pos: Q, movement_cost: 2 };
    assert_eq!(handle_unit_moved(&mut units, &mut shown, false, m), None);
    assert_eq!(units[0].movement_points, MovementPoints(0));
    assert_eq!(units[0].unit_state, UnitState::LandMilitaryOutOfMoves);
    assert_eq!(shown.get(P), None);
    assert_eq!(shown.get(Q), Some(UnitId(7)));
}

#[test]
fn a_unit_left_out_of_moves_moves_again_next_turn() {
    let mut units = Vec::new();
    let mut shown = ShownUnits::new();
    handle_unit_spawned(&mut units, &mut shown, false, spawn(7, UnitType::LandMilitary(LandMilitaryUnit::Warrior)));
    units[0].unit_state = UnitState::LandMilitaryOutOfMoves;
    let m = UnitMoved { unit_id: UnitId(7), from_pos: P, to_pos: Q, movement_cost: 1 };
    handle_unit_moved(&mut units, &mut shown, false, m);
    assert_eq!(units[0].position, Q);
    assert_eq!(units[0].movement_points, MovementPoints(1));
    assert_eq!(units[0].unit_state, UnitState::LandMilitaryOutOfMoves);
}
