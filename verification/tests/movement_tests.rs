use hexciv::hex::{TilePos, TilemapSize};
use hexciv::movement::{
    enter_cost, is_goal, move_active_unit_to, path_cost_estimate, pay_step, should_move_active_unit_to, step_along, step_cost,
    step_cost_to, successors, MoveWorld,
};
use hexciv::hex::HexDirection;
use hexciv::river::RiverHexEdges;
use hexciv::terrain::{BaseTerrain, TerrainFeatures, TerrainMap};
use hexciv::unit::{FullMovementPoints, MovementPoints, UnitId, UnitMoved};

fn row_world(tiles: Vec<BaseTerrain>) -> MoveWorld {
    let n = tiles.len();
    MoveWorld {
        map: TerrainMap { size: TilemapSize { x: n as u32, y: 1 }, tiles },
        features: vec![None; n],
        rivers: vec![RiverHexEdges::zero(); n],
    }
}

fn plains_row(n: usize) -> MoveWorld {
    row_world(vec![BaseTerrain::Plains; n])
}

fn at(x: u32) -> TilePos {
    TilePos { x, y: 0 }
}

fn step(from: u32, to: u32, cost: u32) -> UnitMoved {
    UnitMoved { unit_id: UnitId(1), from_pos: at(from), to_pos: at(to), movement_cost: cost }
}

#[test]
fn cost_of_entering_terrain() {
    assert_eq!(enter_cost(BaseTerrain::Plains, None), Some(1));
    assert_eq!(enter_cost(BaseTerrain::Plains, Some(TerrainFeatures::Woods)), Some(2));
    assert_eq!(enter_cost(BaseTerrain::Tundra, Some(TerrainFeatures::Marsh)), Some(2));
    assert_eq!(enter_cost(BaseTerrain::Desert, Some(TerrainFeatures::Oasis)), Some(1));
    assert_eq!(enter_cost(BaseTerrain::GrasslandHills, None), Some(2));
    assert_eq!(enter_cost(BaseTerrain::GrasslandHills, Some(TerrainFeatures::Rainforest)), Some(3));
    assert_eq!(enter_cost(BaseTerrain::TundraHills, Some(TerrainFeatures::Marsh)), Some(2));
    assert_eq!(enter_cost(BaseTerrain::DesertMountains, None), None);
    assert_eq!(enter_cost(BaseTerrain::Coast, None), None);
    assert_eq!(enter_cost(BaseTerrain::Ocean, Some(TerrainFeatures::Ice)), None);
}

#[test]
fn steps_and_their_costs() {
    let mut w = plains_row(4);
    assert_eq!(step_cost(&w, at(0), HexDirection::Zero), Some((at(1), 1)));
    assert_eq!(step_cost(&w, at(0), HexDirection::Three), None);
    assert_eq!(successors(&w, &at(1)), vec![(at(2), 1), (at(0), 1)]);
    assert_eq!(step_cost_to(&w, at(0), at(1)), Some(1));
    assert_eq!(step_cost_to(&w, at(0), at(2)), None);
    // Crossing a river costs three more.
    w.rivers[0].set(0, true);
    assert_eq!(step_cost(&w, at(0), HexDirection::Zero), Some((at(1), 4)));
    assert_eq!(step_cost_to(&w, at(1), at(0)), Some(1));
}

#[test]
fn path_search_helpers() {
    assert_eq!(path_cost_estimate(&TilePos { x: 0, y: 0 }, TilePos { x: 2, y: 3 }), 5);
    assert!(is_goal(&at(2), at(2)));
    assert!(!is_goal(&at(1), at(2)));
}

#[test]
fn paying_for_steps() {
    assert_eq!(pay_step(2, 2, 1), Some(1));
    assert_eq!(pay_step(2, 2, 2), Some(0));
    assert_eq!(pay_step(2, 2, 3), Some(0));
    assert_eq!(pay_step(1, 2, 3), None);
    assert_eq!(pay_step(0, 2, 1), None);
}

#[test]
fn a_unit_moves_as_far_as_its_points_allow() {
    let w = plains_row(4);
    let moves = move_active_unit_to(&w, UnitId(1), MovementPoints(2), FullMovementPoints(2), at(0), at(3));
    assert_eq!(moves, vec![step(0, 1, 1), step(1, 2, 1)]);
    let moves = move_active_unit_to(&w, UnitId(1), MovementPoints(1), FullMovementPoints(2), at(2), at(3));
    assert_eq!(moves, vec![step(2, 3, 1)]);
}

#[test]
fn a_unit_with_full_points_always_makes_one_step() {
    let mut w = plains_row(4);
    w.map.tiles[1] = BaseTerrain::PlainsHills;
    w.features[1] = Some(TerrainFeatures::Woods);
    let moves = move_active_unit_to(&w, UnitId(1), MovementPoints(2), FullMovementPoints(2), at(0), at(3));
    assert_eq!(moves, vec![step(0, 1, 3)]);
    let moves = move_active_unit_to(&w, UnitId(1), MovementPoints(1), FullMovementPoints(2), at(0), at(3));
    assert!(moves.is_empty());
}

#[test]
fn no_move_without_a_path() {
    let mut w = plains_row(4);
    w.map.tiles[2] = BaseTerrain::SnowMountains;
    let moves = move_active_unit_to(&w, UnitId(1), MovementPoints(2), FullMovementPoints(2), at(0), at(3));
    assert!(moves.is_empty());
    let w = plains_row(4);
    let moves = move_active_unit_to(&w, UnitId(1), MovementPoints(2), FullMovementPoints(2), at(1), at(1));
    assert!(moves.is_empty());
}

#[test]
fn moving_when_clicking_elsewhere() {
    assert!(should_move_active_unit_to(Some(at(0)), at(1)));
    assert!(!should_move_active_unit_to(Some(at(1)), at(1)));
    assert!(!should_move_active_unit_to(None, at(1)));
}

#[test]
fn a_unit_walks_around_what_it_cannot_enter() {
    // Two rows of plains with a mountain in the way on the first row.
    let mut w = MoveWorld {
        map: TerrainMap { size: TilemapSize { x: 3, y: 2 }, tiles: vec![BaseTerrain::Plains; 6] },
        features: vec![None; 6],
        rivers: vec![RiverHexEdges::zero(); 6],
    };
    w.map.tiles[2] = BaseTerrain::PlainsMountains;
    let start = TilePos { x: 0, y: 0 };
    let goal = TilePos { x: 2, y: 0 };
    let moves = move_active_unit_to(&w, UnitId(1), MovementPoints(5), FullMovementPoints(5), start, goal);
    assert_eq!(moves.len(), 3);
    assert_eq!(moves[0].from_pos, start);
    assert_eq!(moves[0].to_pos, TilePos { x: 0, y: 1 });
    assert_eq!(moves[1].from_pos, moves[0].to_pos);
    assert_eq!(moves[2].from_pos, moves[1].to_pos);
    assert_eq!(moves[2].to_pos, goal);
    assert!(moves.iter().all(|m| m.movement_cost == 1 && m.unit_id == UnitId(1) && m.to_pos != TilePos { x: 1, y: 0 }));
}

#[test]
fn stepping_along_a_path() {
    let mut w = plains_row(4);
    let path = vec![at(0), at(1), at(2)];
    assert_eq!(step_along(&w, UnitId(1), 2, 2, at(0), &path), Some((step(0, 1, 1), 1)));
    assert_eq!(step_along(&w, UnitId(1), 0, 2, at(0), &path), None);
    assert_eq!(step_along(&w, UnitId(1), 2, 2, at(0), &vec![at(0)]), None);
    assert_eq!(step_along(&w, UnitId(1), 2, 2, at(0), &vec![at(0), at(2)]), None);
    w.features[1] = Some(TerrainFeatures::Woods);
    assert_eq!(step_along(&w, UnitId(1), 1, 2, at(0), &path), None);
    w.map.tiles[1] = BaseTerrain::PlainsHills;
    assert_eq!(step_along(&w, UnitId(1), 2, 2, at(0), &path), Some((step(0, 1, 3), 0)));
}
