//! Hexagonal grid geometry for a map of pointy-top hexagons stored in rows,
//! where every odd row is shifted half a tile to the right.
use vstd::prelude::*;

verus! {

/// Largest number of tiles along either side of a map.
pub const MAX_MAP_SIDE: u32 = 32768;

/// Position of a tile in the map: column `x`, row `y`.
#[derive(Copy, Clone, PartialEq, Eq, Structural, Debug, Hash)]
pub struct TilePos {
    pub x: u32,
    pub y: u32,
}

/// Number of columns (`x`) and rows (`y`) of a map.
#[derive(Copy, Clone, PartialEq, Eq, Structural, Debug, Hash)]
pub struct TilemapSize {
    pub x: u32,
    pub y: u32,
}

/// Axial hex coordinates: `r` is the row, `q` the column measured along the
/// axis that leans half a tile to the right for every row upwards.
#[derive(Copy, Clone, PartialEq, Eq, Structural, Debug, Hash)]
pub struct AxialPos {
    pub q: i32,
    pub r: i32,
}

/// The six directions from a tile to its neighbors, counter-clockwise
/// starting with east.
#[derive(Copy, Clone, PartialEq, Eq, Structural, Debug, Hash)]
pub enum HexDirection {
    Zero,
    One,
    Two,
    Three,
    Four,
    Five,
}

/// A map size whose tile coordinates fit the axial arithmetic.
pub open spec fn valid_size(size: TilemapSize) -> bool {
    0 < size.x <= MAX_MAP_SIDE && 0 < size.y <= MAX_MAP_SIDE
}

/// `pos` lies on a map of the given size.
pub open spec fn in_map(pos: TilePos, size: TilemapSize) -> bool {
    pos.x < size.x && pos.y < size.y
}

/// Index of a direction, counter-clockwise from east.
pub open spec fn dir_index(d: HexDirection) -> int {
    match d {
        HexDirection::Zero => 0,
        HexDirection::One => 1,
        HexDirection::Two => 2,
        HexDirection::Three => 3,
        HexDirection::Four => 4,
        HexDirection::Five => 5,
    }
}

/// The direction with the given index (taken modulo 6).
pub open spec fn dir_of(i: int) -> HexDirection {
    let m = i % 6;
    if m == 0 {
        HexDirection::Zero
    } else if m == 1 {
        HexDirection::One
    } else if m == 2 {
        HexDirection::Two
    } else if m == 3 {
        HexDirection::Three
    } else if m == 4 {
        HexDirection::Four
    } else {
        HexDirection::Five
    }
}

/// Axial offset `(q, r)` of the neighbor in direction `i`.
pub open spec fn spec_hex_offset(i: int) -> (int, int) {
    if i == 0 {
        (1, 0)
    } else if i == 1 {
        (0, 1)
    } else if i == 2 {
        (-1, 1)
    } else if i == 3 {
        (-1, 0)
    } else if i == 4 {
        (0, -1)
    } else {
        (1, -1)
    }
}

/// Axial coordinates of a tile position.
pub open spec fn spec_axial(pos: TilePos) -> (int, int) {
    (pos.x - pos.y / 2, pos.y as int)
}

/// The tile at axial coordinates `(q, r)`, if it lies on the map.
pub open spec fn spec_tile_at(q: int, r: int, size: TilemapSize) -> Option<TilePos> {
    if 0 <= r < size.y && 0 <= q + r / 2 < size.x {
        Some(TilePos { x: (q + r / 2) as u32, y: r as u32 })
    } else {
        None
    }
}

/// The neighbor of `pos` in direction `d`, if it lies on the map.
pub open spec fn spec_neighbor(pos: TilePos, d: HexDirection, size: TilemapSize) -> Option<
    TilePos,
> {
    let (q, r) = spec_axial(pos);
    let (dq, dr) = spec_hex_offset(dir_index(d));
    spec_tile_at(q + dq, r + dr, size)
}

/// Cube distance between two axial positions: the largest of the absolute
/// differences of the three cube coordinates.
pub open spec fn spec_hex_distance(a: (int, int), b: (int, int)) -> int {
    let dq = a.0 - b.0;
    let dr = a.1 - b.1;
    let ds = -dq - dr;
    max3(abs(dq), abs(dr), abs(ds))
}

pub open spec fn max3(a: int, b: int, c: int) -> int {
    if a >= b && a >= c {
        a
    } else if b >= c {
        b
    } else {
        c
    }
}

pub open spec fn abs(i: int) -> int {
    if i < 0 {
        -i
    } else {
        i
    }
}

impl HexDirection {
    /// All directions in counter-clockwise order, starting with east.
    pub fn all() -> (r: [HexDirection; 6])
        ensures
            forall|i: int| 0 <= i < 6 ==> dir_index(#[trigger] r[i]) == i,
    {
        [
            HexDirection::Zero,
            HexDirection::One,
            HexDirection::Two,
            HexDirection::Three,
            HexDirection::Four,
            HexDirection::Five,
        ]
    }

    /// Index of this direction, counter-clockwise from east.
    pub fn index(&self) -> (r: usize)
        ensures
            r == dir_index(*self),
            r < 6,
    {
        match self {
            HexDirection::Zero => 0,
            HexDirection::One => 1,
            HexDirection::Two => 2,
            HexDirection::Three => 3,
            HexDirection::Four => 4,
            HexDirection::Five => 5,
        }
    }

    /// The direction with the given index, taken modulo 6.
    pub fn from_index(i: usize) -> (r: HexDirection)
        ensures
            r == dir_of(i as int),
            dir_index(r) == i % 6,
    {
        let m = i % 6;
        if m == 0 {
            HexDirection::Zero
        } else if m == 1 {
            HexDirection::One
        } else if m == 2 {
            HexDirection::Two
        } else if m == 3 {
            HexDirection::Three
        } else if m == 4 {
            HexDirection::Four
        } else {
            HexDirection::Five
        }
    }

    /// The direction pointing the other way.
    pub fn opposite(&self) -> (r: HexDirection)
        ensures
            dir_index(r) == (dir_index(*self) + 3) % 6,
    {
        HexDirection::from_index(self.index() + 3)
    }

    /// Axial offset of the neighbor in this direction.
    pub fn offset(&self) -> (r: AxialPos)
        ensures
            (r.q as int, r.r as int) == spec_hex_offset(dir_index(*self)),
    {
        match self {
            HexDirection::Zero => AxialPos { q: 1, r: 0 },
            HexDirection::One => AxialPos { q: 0, r: 1 },
            HexDirection::Two => AxialPos { q: -1, r: 1 },
            HexDirection::Three => AxialPos { q: -1, r: 0 },
            HexDirection::Four => AxialPos { q: 0, r: -1 },
            HexDirection::Five => AxialPos { q: 1, r: -1 },
        }
    }
}

impl AxialPos {
    /// Axial coordinates of a tile position of a map in which odd rows are
    /// shifted to the right.
    pub fn from_tile_pos(pos: TilePos) -> (r: AxialPos)
        requires
            pos.x <= MAX_MAP_SIDE,
            pos.y <= MAX_MAP_SIDE,
        ensures
            (r.q as int, r.r as int) == spec_axial(pos),
    {
        let x = pos.x as i32;
        let y = pos.y as i32;
        AxialPos { q: x - y / 2, r: y }
    }

    /// The tile at these axial coordinates, if it lies on a map of the given
    /// size.
    pub fn as_tile_pos(&self, size: TilemapSize) -> (r: Option<TilePos>)
        requires
            valid_size(size),
        ensures
            r == spec_tile_at(self.q as int, self.r as int, size),
    {
        if self.r < 0 || self.r >= size.y as i32 {
            return None;
        }
        let x = self.q as i64 + (self.r / 2) as i64;
        if x < 0 || x >= size.x as i64 {
            return None;
        }
        Some(TilePos { x: x as u32, y: self.r as u32 })
    }

    /// Sum of two axial positions.
    pub fn add(&self, other: AxialPos) -> (r: AxialPos)
        requires
            -0x2000_0000 <= self.q <= 0x2000_0000,
            -0x2000_0000 <= self.r <= 0x2000_0000,
            -0x2000_0000 <= other.q <= 0x2000_0000,
            -0x2000_0000 <= other.r <= 0x2000_0000,
        ensures
            r.q == self.q + other.q,
            r.r == self.r + other.r,
    {
        AxialPos { q: self.q + other.q, r: self.r + other.r }
    }

    /// Difference of two axial positions.
    pub fn sub(&self, other: AxialPos) -> (r: AxialPos)
        requires
            -0x2000_0000 <= self.q <= 0x2000_0000,
            -0x2000_0000 <= self.r <= 0x2000_0000,
            -0x2000_0000 <= other.q <= 0x2000_0000,
            -0x2000_0000 <= other.r <= 0x2000_0000,
        ensures
            r.q == self.q - other.q,
            r.r == self.r - other.r,
    {
        AxialPos { q: self.q - other.q, r: self.r - other.r }
    }
}

/// The neighbor of `pos` in direction `d`, if it lies on the map.
pub fn neighbor(pos: TilePos, d: HexDirection, size: TilemapSize) -> (r: Option<TilePos>)
    requires
        valid_size(size),
        in_map(pos, size),
    ensures
        r == spec_neighbor(pos, d, size),
        r matches Some(n) ==> in_map(n, size),
{
    let a = AxialPos::from_tile_pos(pos);
    let b = a.add(d.offset());
    b.as_tile_pos(size)
}

/// The neighbors of `pos` that lie on the map, indexed by direction.
pub fn neighbors(pos: TilePos, size: TilemapSize) -> (r: [Option<TilePos>; 6])
    requires
        valid_size(size),
        in_map(pos, size),
    ensures
        forall|i: int| 0 <= i < 6 ==> #[trigger] r[i] == spec_neighbor(pos, dir_of(i), size),
{
    [
        neighbor(pos, HexDirection::Zero, size),
        neighbor(pos, HexDirection::One, size),
        neighbor(pos, HexDirection::Two, size),
        neighbor(pos, HexDirection::Three, size),
        neighbor(pos, HexDirection::Four, size),
        neighbor(pos, HexDirection::Five, size),
    ]
}

/// Distance used to estimate the remaining cost of a path: the cube
/// distance between the two positions, each read as axial coordinates
/// `(x, y)` directly.
pub fn tile_cube_distance(a: TilePos, b: TilePos) -> (r: u32)
    requires
        a.x <= MAX_MAP_SIDE,
        a.y <= MAX_MAP_SIDE,
        b.x <= MAX_MAP_SIDE,
        b.y <= MAX_MAP_SIDE,
    ensures
        r == spec_hex_distance((a.x as int, a.y as int), (b.x as int, b.y as int)),
{
    let dq = a.x as i64 - b.x as i64;
    let dr = a.y as i64 - b.y as i64;
    let ds = -dq - dr;
    let aq = if dq < 0 { -dq } else { dq };
    let ar = if dr < 0 { -dr } else { dr };
    let as_ = if ds < 0 { -ds } else { ds };
    let m = if aq >= ar { aq } else { ar };
    let m = if m >= as_ { m } else { as_ };
    m as u32
}

/// The axial coordinates of a tile name that tile back.
pub proof fn lemma_axial_round_trip(pos: TilePos, size: TilemapSize)
    requires
        in_map(pos, size),
    ensures
        spec_tile_at(spec_axial(pos).0, spec_axial(pos).1, size) == Some(pos),
{
}

/// Neighborhood is symmetric: if `n` is the neighbor of `p` in direction `d`,
/// then `p` is the neighbor of `n` in the opposite direction.
pub proof fn lemma_neighbor_symmetric(p: TilePos, d: HexDirection, size: TilemapSize)
    requires
        in_map(p, size),
        spec_neighbor(p, d, size) is Some,
    ensures
        spec_neighbor(spec_neighbor(p, d, size).unwrap(), dir_of(dir_index(d) + 3), size)
            == Some(p),
{
}

/// Hex distance is symmetric, and zero exactly between equal positions.
pub proof fn lemma_distance_symmetric(a: (int, int), b: (int, int))
    ensures
        spec_hex_distance(a, b) == spec_hex_distance(b, a),
        spec_hex_distance(a, b) == 0 <==> a == b,
{
}

} // verus!
