use hexciv::hex::{neighbor, AxialPos, HexDirection, TilePos, TilemapSize};
use hexciv::river::{
    add_tile_river_edge, find_edge, generate_river_edges, river_hex_edges, river_texture_path, river_texture_paths,
    river_vertex, HexVertexDirection, HexVertexDirectionError, River, RiverEdge, RiverHexEdges, StreamOrder,
    VertexElevations,
};
use hexciv::terrain::{tile_index, BaseTerrain, TerrainMap};

#[test]
fn stream_orders_join() {
    assert_eq!(StreamOrder(1).add(StreamOrder(1)), StreamOrder(2));
    assert_eq!(StreamOrder(3).add(StreamOrder(3)), StreamOrder(4));
    assert_eq!(StreamOrder(1).add(StreamOrder(3)), StreamOrder(3));
    assert_eq!(StreamOrder(4).add(StreamOrder(2)), StreamOrder(4));
    assert_eq!(StreamOrder(2).add(StreamOrder(5)), StreamOrder(5).add(StreamOrder(2)));
}

#[test]
fn river_minimal_length() {
    assert_eq!(River::MIN_LEN, 2);
}

#[test]
fn vertex_directions_from_offsets() {
    let a = AxialPos { q: 3, r: -2 };
    for (i, d) in HexVertexDirection::variants().iter().enumerate() {
        assert_eq!(d.index(), i);
        let b = a.add(HexVertexDirection::offset(i));
        assert_eq!(HexVertexDirection::try_from_offset(a, b), Ok(*d));
    }
    assert_eq!(HexVertexDirection::offset(0), AxialPos { q: 1, r: 1 });
    assert_eq!(HexVertexDirection::offset(4), AxialPos { q: 1, r: -2 });
    assert_eq!(
        HexVertexDirection::try_from_offset(a, AxialPos { q: 4, r: -2 }),
        Err(HexVertexDirectionError::InvalidOffset)
    );
    assert_eq!(HexVertexDirection::try_from_offset(a, a), Err(HexVertexDirectionError::InvalidOffset));
}

#[test]
fn river_hex_edges_as_bits() {
    let mut e = RiverHexEdges::zero();
    assert_eq!(e.load(), 0);
    e.set(0, true);
    e.set(3, true);
    assert_eq!(e.load(), 9);
    assert!(e.get(3));
    assert!(!e.get(1));
    e.set(0, false);
    assert_eq!(e.load(), 8);
    e.store(63);
    assert!((0..6).all(|i| e.get(i)));
}

#[test]
fn river_texture_paths_name_the_edges() {
    assert_eq!(river_texture_path(RiverHexEdges { bits: 9 }), "tiles/river/river-0xx3xx.png");
    let paths = river_texture_paths();
    assert_eq!(paths.len(), 64);
    assert_eq!(paths[0], "tiles/river/river-xxxxxx.png");
    assert_eq!(paths[63], "tiles/river/river-012345.png");
    assert_eq!(paths[34], "tiles/river/river-x1xxx5.png");
}

fn no_candidates() -> VertexElevations {
    VertexElevations { vertices: [Some(5); 6], beyond: [Some(9); 6] }
}

#[test]
fn river_vertex_is_the_last_lowest_candidate() {
    let e = VertexElevations {
        vertices: [Some(5), Some(3), Some(3), None, Some(1), Some(9)],
        beyond: [Some(4), Some(2), Some(2), Some(0), Some(2), Some(9)],
    };
    assert_eq!(river_vertex(&e), Some(2));
    assert_eq!(river_vertex(&no_candidates()), None);
    let unknown = VertexElevations { vertices: [None; 6], beyond: [None; 6] };
    assert_eq!(river_vertex(&unknown), None);
}

fn hills_map(size: TilemapSize) -> TerrainMap {
    TerrainMap { size, tiles: vec![BaseTerrain::PlainsHills; (size.x * size.y) as usize] }
}

fn elevations_with(size: TilemapSize, pos: TilePos, e: VertexElevations) -> Vec<VertexElevations> {
    let mut v = vec![no_candidates(); (size.x * size.y) as usize];
    v[tile_index(pos, size)] = e;
    v
}

fn lowest_at_vertex_zero() -> VertexElevations {
    VertexElevations {
        vertices: [Some(2), Some(5), Some(5), Some(5), Some(5), Some(5)],
        beyond: [Some(1), Some(9), Some(9), Some(9), Some(9), Some(9)],
    }
}

#[test]
fn a_river_leaves_its_source_from_the_river_vertex() {
    let size = TilemapSize { x: 3, y: 3 };
    let map = hills_map(size);
    let elevations = elevations_with(size, TilePos { x: 1, y: 1 }, lowest_at_vertex_zero());
    let edges = generate_river_edges(&map, &elevations);
    assert_eq!(
        edges,
        vec![RiverEdge {
            source: AxialPos { q: 1, r: 1 },
            destination: AxialPos { q: 2, r: 2 },
            stream_order: StreamOrder(1),
        }]
    );
    let hex_edges = river_hex_edges(&edges, size);
    assert_eq!(hex_edges.len(), 9);
    for x in 0..3 {
        for y in 0..3 {
            let bits = hex_edges[tile_index(TilePos { x, y }, size)].load();
            let expected = match (x, y) {
                (2, 1) => 1 << 2,
                (2, 2) => 1 << 5,
                _ => 0,
            };
            assert_eq!(bits, expected, "tile ({}, {})", x, y);
        }
    }
}

#[test]
fn no_river_along_water_or_from_lowlands() {
    let size = TilemapSize { x: 3, y: 3 };
    let mut map = hills_map(size);
    map.tiles[tile_index(TilePos { x: 2, y: 1 }, size)] = BaseTerrain::Ocean;
    let elevations = elevations_with(size, TilePos { x: 1, y: 1 }, lowest_at_vertex_zero());
    assert!(generate_river_edges(&map, &elevations).is_empty());

    let mut map = hills_map(size);
    map.tiles[tile_index(TilePos { x: 1, y: 1 }, size)] = BaseTerrain::Plains;
    assert!(generate_river_edges(&map, &elevations).is_empty());
}

#[test]
fn a_river_edge_is_added_once() {
    let size = TilemapSize { x: 3, y: 3 };
    let map = hills_map(size);
    let mut edges = Vec::new();
    add_tile_river_edge(&map, TilePos { x: 1, y: 1 }, 0, &mut edges);
    add_tile_river_edge(&map, TilePos { x: 1, y: 1 }, 0, &mut edges);
    assert_eq!(edges.len(), 1);
    assert_eq!(find_edge(&edges, AxialPos { q: 1, r: 1 }, AxialPos { q: 2, r: 2 }), Some(0));
    assert_eq!(find_edge(&edges, AxialPos { q: 1, r: 1 }, AxialPos { q: 0, r: 3 }), None);
}

#[test]
fn tiles_next_to_a_vertex_share_the_marked_edge() {
    let size = TilemapSize { x: 4, y: 4 };
    for x in 0..4 {
        for y in 0..4 {
            let t = TilePos { x, y };
            for v in 0..6 {
                let a = neighbor(t, HexDirection::from_index(v), size);
                let b = neighbor(t, HexDirection::from_index((v + 1) % 6), size);
                if let (Some(a), Some(b)) = (a, b) {
                    assert_eq!(neighbor(a, HexDirection::from_index((v + 2) % 6), size), Some(b));
                    assert_eq!(neighbor(b, HexDirection::from_index(((v + 1) % 6 + 4) % 6), size), Some(a));
                }
            }
        }
    }
}

#[test]
fn offsets_far_out_of_range_are_refused() {
    let a = AxialPos { q: i32::MIN, r: 0 };
    let b = AxialPos { q: i32::MAX, r: 0 };
    assert_eq!(HexVertexDirection::try_from_offset(a, b), Err(HexVertexDirectionError::InvalidOffset));
    assert_eq!(HexVertexDirection::try_from_offset(b, a), Err(HexVertexDirectionError::InvalidOffset));
    let c = AxialPos { q: i32::MAX, r: i32::MIN };
    assert_eq!(HexVertexDirection::try_from_offset(c, AxialPos { q: i32::MIN, r: i32::MAX }), Err(HexVertexDirectionError::InvalidOffset));
}
