use hexciv::hex::{neighbor, neighbors, tile_cube_distance, AxialPos, HexDirection, TilePos, TilemapSize};

fn size() -> TilemapSize {
    TilemapSize { x: 8, y: 6 }
}

#[test]
fn axial_coordinates_shift_with_the_rows() {
    let a = AxialPos::from_tile_pos(TilePos { x: 3, y: 5 });
    assert_eq!(a, AxialPos { q: 1, r: 5 });
    let b = AxialPos::from_tile_pos(TilePos { x: 3, y: 4 });
    assert_eq!(b, AxialPos { q: 1, r: 4 });
}

#[test]
fn axial_round_trip_gives_the_tile_back() {
    for x in 0..8 {
        for y in 0..6 {
            let p = TilePos { x, y };
            assert_eq!(AxialPos::from_tile_pos(p).as_tile_pos(size()), Some(p));
        }
    }
}

#[test]
fn axial_position_off_the_map_has_no_tile() {
    assert_eq!(AxialPos { q: -1, r: 0 }.as_tile_pos(size()), None);
    assert_eq!(AxialPos { q: 0, r: -1 }.as_tile_pos(size()), None);
    assert_eq!(AxialPos { q: 8, r: 0 }.as_tile_pos(size()), None);
    assert_eq!(AxialPos { q: 0, r: 6 }.as_tile_pos(size()), None);
}

#[test]
fn axial_add_and_sub() {
    let a = AxialPos { q: 2, r: -3 };
    let b = AxialPos { q: -5, r: 7 };
    assert_eq!(a.add(b), AxialPos { q: -3, r: 4 });
    assert_eq!(a.sub(b), AxialPos { q: 7, r: -10 });
}

#[test]
fn neighbors_of_a_tile_on_an_even_row() {
    let p = TilePos { x: 3, y: 4 };
    assert_eq!(neighbor(p, HexDirection::Zero, size()), Some(TilePos { x: 4, y: 4 }));
    assert_eq!(neighbor(p, HexDirection::One, size()), Some(TilePos { x: 3, y: 5 }));
    assert_eq!(neighbor(p, HexDirection::Two, size()), Some(TilePos { x: 2, y: 5 }));
    assert_eq!(neighbor(p, HexDirection::Three, size()), Some(TilePos { x: 2, y: 4 }));
    assert_eq!(neighbor(p, HexDirection::Four, size()), Some(TilePos { x: 2, y: 3 }));
    assert_eq!(neighbor(p, HexDirection::Five, size()), Some(TilePos { x: 3, y: 3 }));
}

#[test]
fn neighbors_of_a_tile_on_an_odd_row() {
    let p = TilePos { x: 3, y: 3 };
    let n = neighbors(p, size());
    assert_eq!(n[0], Some(TilePos { x: 4, y: 3 }));
    assert_eq!(n[1], Some(TilePos { x: 4, y: 4 }));
    assert_eq!(n[2], Some(TilePos { x: 3, y: 4 }));
    assert_eq!(n[3], Some(TilePos { x: 2, y: 3 }));
    assert_eq!(n[4], Some(TilePos { x: 3, y: 2 }));
    assert_eq!(n[5], Some(TilePos { x: 4, y: 2 }));
}

#[test]
fn neighbors_off_the_map_are_none() {
    let n = neighbors(TilePos { x: 0, y: 0 }, size());
    assert_eq!(n[0], Some(TilePos { x: 1, y: 0 }));
    assert_eq!(n[1], Some(TilePos { x: 0, y: 1 }));
    assert_eq!(n[2], None);
    assert_eq!(n[3], None);
    assert_eq!(n[4], None);
    assert_eq!(n[5], None);
}

#[test]
fn neighborhood_is_symmetric() {
    for x in 0..8 {
        for y in 0..6 {
            let p = TilePos { x, y };
            for d in HexDirection::all() {
                if let Some(n) = neighbor(p, d, size()) {
                    assert_eq!(neighbor(n, d.opposite(), size()), Some(p));
                }
            }
        }
    }
}

#[test]
fn directions_and_their_indices() {
    let all = HexDirection::all();
    for (i, d) in all.iter().enumerate() {
        assert_eq!(d.index(), i);
        assert_eq!(HexDirection::from_index(i), *d);
        assert_eq!(HexDirection::from_index(i + 6), *d);
        assert_eq!(d.opposite().index(), (i + 3) % 6);
    }
    assert_eq!(HexDirection::Two.offset(), AxialPos { q: -1, r: 1 });
    assert_eq!(HexDirection::Five.offset(), AxialPos { q: 1, r: -1 });
}

#[test]
fn cube_distance() {
    let a = TilePos { x: 0, y: 0 };
    let b = TilePos { x: 2, y: 3 };
    assert_eq!(tile_cube_distance(a, b), 5);
    assert_eq!(tile_cube_distance(b, a), 5);
    assert_eq!(tile_cube_distance(a, a), 0);
    assert_eq!(tile_cube_distance(TilePos { x: 4, y: 1 }, TilePos { x: 1, y: 3 }), 3);
}
