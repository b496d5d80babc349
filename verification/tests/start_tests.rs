use hexciv::random::RngState;
use hexciv::civilization::Civilization;
use hexciv::hex::{neighbors, TilePos, TilemapSize};
use hexciv::player::{Player, PlayerIndex};
use hexciv::start::{
    allowable_starting_positions, choose_starting_positions, has_starting_position, spawn_starting_units,
};
use hexciv::terrain::{BaseTerrain, TerrainMap};
use hexciv::turn::TurnStarted;
use hexciv::unit::{CivilianUnit, LandMilitaryUnit, UnitType};

fn small_map(tiles: Vec<BaseTerrain>) -> TerrainMap {
    TerrainMap { size: TilemapSize { x: 2, y: 2 }, tiles }
}

fn adjacent(map: &TerrainMap, a: TilePos, b: TilePos) -> bool {
    neighbors(a, map.size).contains(&Some(b))
}

#[test]
fn units_start_on_land_other_than_mountains() {
    // Column by column: (0,0) plains, (0,1) ocean, (1,0) mountains, (1,1) grassland.
    let map = small_map(vec![
        BaseTerrain::Plains,
        BaseTerrain::Ocean,
        BaseTerrain::PlainsMountains,
        BaseTerrain::Grassland,
    ]);
    assert_eq!(
        allowable_starting_positions(&map),
        vec![TilePos { x: 0, y: 0 }, TilePos { x: 1, y: 1 }]
    );
    // The two tiles where units can start are not next to each other.
    assert!(!has_starting_position(&map));
}

#[test]
fn a_settler_needs_room_for_a_warrior() {
    let map = small_map(vec![
        BaseTerrain::Plains,
        BaseTerrain::DesertHills,
        BaseTerrain::PlainsMountains,
        BaseTerrain::Coast,
    ]);
    assert!(has_starting_position(&map));
    let allowable = allowable_starting_positions(&map);
    let mut rng = RngState(5);
    for _ in 0..20 {
        let (settler, warrior) = choose_starting_positions(&mut rng, &map, &allowable);
        assert!(allowable.contains(&settler));
        assert!(allowable.contains(&warrior));
        assert!(adjacent(&map, settler, warrior));
    }
}

#[test]
fn every_player_starts_with_a_settler_and_a_warrior() {
    let map = TerrainMap { size: TilemapSize { x: 4, y: 4 }, tiles: vec![BaseTerrain::Grassland; 16] };
    let players = vec![
        Player { player_index: PlayerIndex(1), civ: Civilization::Norway },
        Player { player_index: PlayerIndex(0), civ: Civilization::Brazil },
    ];
    let mut rng = RngState(9);
    let (spawns, turn) = spawn_starting_units(&mut rng, &map, &players);
    assert_eq!(turn, TurnStarted { turn_num: 1 });
    assert_eq!(spawns.len(), 4);
    let civs: Vec<_> = spawns.iter().map(|s| s.civ).collect();
    assert_eq!(civs, vec![Civilization::Brazil, Civilization::Brazil, Civilization::Norway, Civilization::Norway]);
    for pair in spawns.chunks(2) {
        assert_eq!(pair[0].unit_type, UnitType::Civilian(CivilianUnit::Settler));
        assert_eq!(pair[1].unit_type, UnitType::LandMilitary(LandMilitaryUnit::Warrior));
        assert!(adjacent(&map, pair[0].position, pair[1].position));
    }
    // Every unit gets its own identity.
    for (i, s) in spawns.iter().enumerate() {
        assert!(spawns[i + 1..].iter().all(|t| t.unit_id != s.unit_id));
    }
}
