use hexciv::random::RngState;
use hexciv::hex::{TilePos, TilemapSize};
use hexciv::terrain::{
    base_terrain_choice, base_terrain_choices, choose_base_terrain_by_latitude, choose_terrain_feature,
    choose_base_terrain_map, choose_terrain_features, choose_tile_base_terrain, climate_zone, convert_coasts,
    feature_choices, terrain_feature, tile_base_terrain, tile_index,
    BaseTerrain, BaseTerrainVariant, ClimateZone, ElevationBand, FeatureDraw, TerrainFeatures, TerrainMap,
    MAP_SIDE_LENGTH_X, MAP_SIDE_LENGTH_Y,
};

#[test]
fn base_terrain_variants_add_to_flat_land() {
    assert_eq!(BaseTerrain::Plains.add(BaseTerrainVariant::Hills), BaseTerrain::PlainsHills);
    assert_eq!(BaseTerrain::Grassland.add(BaseTerrainVariant::Mountains), BaseTerrain::GrasslandMountains);
    assert_eq!(BaseTerrain::Desert.add(BaseTerrainVariant::Hills), BaseTerrain::DesertHills);
    assert_eq!(BaseTerrain::Tundra.add(BaseTerrainVariant::Mountains), BaseTerrain::TundraMountains);
    assert_eq!(BaseTerrain::Snow.add(BaseTerrainVariant::Hills), BaseTerrain::SnowHills);
}

#[test]
fn base_terrain_indices_round_trip() {
    for i in 0..17u32 {
        let t = BaseTerrain::try_from_index(i).unwrap();
        assert_eq!(t.to_index(), i);
    }
    assert_eq!(BaseTerrain::try_from_index(17), None);
    assert_eq!(BaseTerrain::Ocean.to_index(), 16);
    assert_eq!(BaseTerrain::Coast.to_index(), 15);
    assert_eq!(BaseTerrainVariant::Hills.to_index(), 5);
    assert_eq!(BaseTerrainVariant::Mountains.to_index(), 10);
}

#[test]
fn terrain_feature_indices_round_trip() {
    for i in 0..7u32 {
        assert_eq!(TerrainFeatures::try_from_index(i).unwrap().to_index(), i);
    }
    assert_eq!(TerrainFeatures::try_from_index(7), None);
    assert_eq!(TerrainFeatures::Ice.to_index(), 6);
}

#[test]
fn hills_and_mountains() {
    assert_eq!(
        BaseTerrain::hills(),
        [
            BaseTerrain::PlainsHills,
            BaseTerrain::GrasslandHills,
            BaseTerrain::DesertHills,
            BaseTerrain::TundraHills,
            BaseTerrain::SnowHills,
        ]
    );
    assert_eq!(BaseTerrain::mountains()[4], BaseTerrain::SnowMountains);
    assert!(BaseTerrain::DesertHills.is_hills());
    assert!(!BaseTerrain::Desert.is_hills());
    assert!(BaseTerrain::PlainsMountains.is_mountains());
    assert!(!BaseTerrain::PlainsHills.is_mountains());
    assert!(BaseTerrain::Coast.is_water());
    assert!(BaseTerrain::Ocean.is_water());
    assert!(!BaseTerrain::Snow.is_water());
}

#[test]
fn climate_zones_of_the_game_map() {
    let h = MAP_SIDE_LENGTH_Y;
    assert_eq!(MAP_SIDE_LENGTH_X, 74);
    assert_eq!(h, 46);
    for y in 0..h {
        let expected = match y {
            0..=5 | 40..=45 => ClimateZone::Frigid,
            6..=13 | 32..=39 => ClimateZone::Temperate,
            14..=16 | 29..=31 => ClimateZone::Subtropics,
            _ => ClimateZone::Tropics,
        };
        assert_eq!(climate_zone(y, h), expected, "row {}", y);
    }
}

#[test]
fn base_terrain_choices_by_zone() {
    assert_eq!(base_terrain_choices(ClimateZone::Frigid), vec![BaseTerrain::Tundra, BaseTerrain::Snow]);
    assert_eq!(base_terrain_choices(ClimateZone::Temperate).len(), 4);
    assert_eq!(base_terrain_choices(ClimateZone::Subtropics).len(), 7);
    assert_eq!(base_terrain_choice(ClimateZone::Tropics, 6), BaseTerrain::Desert);
    assert_eq!(base_terrain_choice(ClimateZone::Temperate, 3), BaseTerrain::Grassland);
}

#[test]
fn drawn_base_terrain_is_a_choice_of_its_zone() {
    let mut rng = RngState(7);
    for _ in 0..100 {
        let t = choose_base_terrain_by_latitude(&mut rng, ClimateZone::Frigid);
        assert!(t == BaseTerrain::Tundra || t == BaseTerrain::Snow);
    }
    for _ in 0..100 {
        let t = choose_tile_base_terrain(&mut rng, ElevationBand::Mountains, ClimateZone::Frigid);
        assert!(t == BaseTerrain::TundraMountains || t == BaseTerrain::SnowMountains);
        let t = choose_tile_base_terrain(&mut rng, ElevationBand::Sea, ClimateZone::Tropics);
        assert_eq!(t, BaseTerrain::Ocean);
    }
}

#[test]
fn tile_base_terrain_by_elevation_band() {
    assert_eq!(tile_base_terrain(ElevationBand::Sea, BaseTerrain::Plains), BaseTerrain::Ocean);
    assert_eq!(tile_base_terrain(ElevationBand::Lowland, BaseTerrain::Plains), BaseTerrain::Plains);
    assert_eq!(tile_base_terrain(ElevationBand::Hills, BaseTerrain::Desert), BaseTerrain::DesertHills);
    assert_eq!(tile_base_terrain(ElevationBand::Mountains, BaseTerrain::Snow), BaseTerrain::SnowMountains);
}

#[test]
fn terrain_features_given_the_draws() {
    assert_eq!(terrain_feature(BaseTerrain::Plains, ClimateZone::Temperate, true, true, true, true), Some(TerrainFeatures::Woods));
    assert_eq!(terrain_feature(BaseTerrain::Tundra, ClimateZone::Frigid, true, false, false, false), Some(TerrainFeatures::Woods));
    assert_eq!(terrain_feature(BaseTerrain::PlainsHills, ClimateZone::Tropics, false, true, false, false), Some(TerrainFeatures::Rainforest));
    assert_eq!(terrain_feature(BaseTerrain::Plains, ClimateZone::Frigid, false, true, false, false), None);
    assert_eq!(terrain_feature(BaseTerrain::Grassland, ClimateZone::Tropics, false, true, false, false), None);
    assert_eq!(terrain_feature(BaseTerrain::Desert, ClimateZone::Subtropics, true, true, true, true), Some(TerrainFeatures::Oasis));
    assert_eq!(terrain_feature(BaseTerrain::Ocean, ClimateZone::Frigid, true, true, true, true), Some(TerrainFeatures::Ice));
    assert_eq!(terrain_feature(BaseTerrain::Coast, ClimateZone::Frigid, false, false, false, true), Some(TerrainFeatures::Ice));
    assert_eq!(terrain_feature(BaseTerrain::Ocean, ClimateZone::Temperate, true, true, true, true), None);
    assert_eq!(terrain_feature(BaseTerrain::SnowMountains, ClimateZone::Frigid, true, true, true, true), None);
}

#[test]
fn drawn_features_fit_the_terrain() {
    let mut rng = RngState(11);
    let mut saw_woods = false;
    for _ in 0..200 {
        match choose_terrain_feature(&mut rng, BaseTerrain::Grassland, ClimateZone::Tropics) {
            None => {},
            Some(TerrainFeatures::Woods) => saw_woods = true,
            other => panic!("unexpected feature {:?}", other),
        }
        let f = choose_terrain_feature(&mut rng, BaseTerrain::Ocean, ClimateZone::Temperate);
        assert_eq!(f, None);
        let f = choose_terrain_feature(&mut rng, BaseTerrain::Desert, ClimateZone::Frigid);
        assert!(f.is_none() || f == Some(TerrainFeatures::Oasis));
    }
    assert!(saw_woods);
}

fn map_of(size: TilemapSize, land: &[TilePos]) -> TerrainMap {
    let mut tiles = vec![BaseTerrain::Ocean; (size.x * size.y) as usize];
    for p in land {
        tiles[tile_index(*p, size)] = BaseTerrain::Plains;
    }
    TerrainMap { size, tiles }
}

#[test]
fn tile_index_is_column_by_column() {
    let size = TilemapSize { x: 3, y: 4 };
    assert_eq!(tile_index(TilePos { x: 0, y: 0 }, size), 0);
    assert_eq!(tile_index(TilePos { x: 0, y: 3 }, size), 3);
    assert_eq!(tile_index(TilePos { x: 2, y: 1 }, size), 9);
}

#[test]
fn ocean_next_to_land_becomes_coast() {
    let size = TilemapSize { x: 3, y: 3 };
    let mut m = map_of(size, &[TilePos { x: 1, y: 1 }]);
    convert_coasts(&mut m);
    let coast = [(2, 1), (2, 2), (1, 2), (0, 1), (1, 0), (2, 0)];
    for x in 0..3 {
        for y in 0..3 {
            let p = TilePos { x, y };
            let expected = if (x, y) == (1, 1) {
                BaseTerrain::Plains
            } else if coast.contains(&(x, y)) {
                BaseTerrain::Coast
            } else {
                BaseTerrain::Ocean
            };
            assert_eq!(m.get(p), expected, "tile {:?}", p);
        }
    }
}

#[test]
fn coasts_do_not_spread() {
    let size = TilemapSize { x: 5, y: 1 };
    let mut m = map_of(size, &[TilePos { x: 0, y: 0 }]);
    convert_coasts(&mut m);
    assert_eq!(
        m.tiles,
        vec![BaseTerrain::Plains, BaseTerrain::Coast, BaseTerrain::Ocean, BaseTerrain::Ocean, BaseTerrain::Ocean]
    );
    convert_coasts(&mut m);
    assert_eq!(m.tiles[2], BaseTerrain::Ocean);
}

#[test]
fn features_are_drawn_at_their_odds() {
    let fifth = vec![true, false, false, false, false];
    assert_eq!(feature_choices(FeatureDraw::Woods, ClimateZone::Frigid), fifth);
    assert_eq!(feature_choices(FeatureDraw::Oasis, ClimateZone::Subtropics), fifth);
    assert_eq!(feature_choices(FeatureDraw::Rainforest, ClimateZone::Temperate), fifth);
    assert!(feature_choices(FeatureDraw::Rainforest, ClimateZone::Frigid).is_empty());
    let tenth = feature_choices(FeatureDraw::Rainforest, ClimateZone::Subtropics);
    assert_eq!(tenth.len(), 10);
    assert_eq!(tenth.iter().filter(|b| **b).count(), 1);
    assert_eq!(feature_choices(FeatureDraw::Rainforest, ClimateZone::Tropics), vec![true, false, false]);
    assert_eq!(feature_choices(FeatureDraw::Ice, ClimateZone::Frigid), vec![true, true, true, false]);
}

#[test]
fn base_terrain_is_drawn_as_fastrand_chooses() {
    for seed in 0..50u64 {
        for zone in [ClimateZone::Frigid, ClimateZone::Temperate, ClimateZone::Subtropics, ClimateZone::Tropics] {
            let choices = base_terrain_choices(zone);
            let mut generator = fastrand::Rng::with_seed(seed);
            let expected = *generator.choice(&choices[..]).unwrap();
            let mut rng = RngState(seed);
            assert_eq!(choose_base_terrain_by_latitude(&mut rng, zone), expected);
            assert_eq!(rng, RngState(generator.get_seed()));
            assert_ne!(rng, RngState(seed));
        }
    }
}

#[test]
fn woods_are_drawn_from_the_woods_choices() {
    let woods = [true, false, false, false, false];
    for seed in 0..100u64 {
        let mut generator = fastrand::Rng::with_seed(seed);
        let grows = *generator.choice(&woods[..]).unwrap();
        let mut rng = RngState(seed);
        let f = choose_terrain_feature(&mut rng, BaseTerrain::Grassland, ClimateZone::Frigid);
        assert_eq!(f == Some(TerrainFeatures::Woods), grows);
        assert_eq!(rng, RngState(generator.get_seed()));
    }
    let mut rng = RngState(5);
    assert_eq!(choose_terrain_feature(&mut rng, BaseTerrain::SnowMountains, ClimateZone::Frigid), None);
    assert_eq!(rng, RngState(5));
}

#[test]
fn equal_generators_draw_equal_maps() {
    let size = TilemapSize { x: 4, y: 5 };
    let bands: Vec<ElevationBand> = (0..20)
        .map(|k| [ElevationBand::Sea, ElevationBand::Lowland, ElevationBand::Hills, ElevationBand::Mountains][k % 4])
        .collect();
    let mut a = RngState(42);
    let mut b = RngState(42);
    let map_a = choose_base_terrain_map(&mut a, size, &bands);
    let map_b = choose_base_terrain_map(&mut b, size, &bands);
    assert_eq!(map_a.tiles, map_b.tiles);
    assert_eq!(a, b);
    assert_eq!(map_a.tiles.len(), 20);
    assert_eq!(map_a.tiles[0], BaseTerrain::Ocean);
    assert_eq!(choose_terrain_features(&mut a, &map_a), choose_terrain_features(&mut b, &map_b));
    assert_eq!(a, b);
}

#[test]
fn mirrored_rows_draw_alike() {
    for h in 1..40u32 {
        for y in 0..h {
            let zone = climate_zone(y, h);
            let mirrored = climate_zone(h - 1 - y, h);
            assert_eq!(zone, mirrored);
            let mut a = RngState(u64::from(y) * 31 + u64::from(h));
            let mut b = a;
            assert_eq!(choose_base_terrain_by_latitude(&mut a, zone), choose_base_terrain_by_latitude(&mut b, mirrored));
        }
    }
}
