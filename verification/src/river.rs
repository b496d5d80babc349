//! Rivers: directed river edges between tile vertices, their stream orders,
//! and the river texture of each tile, a set of the tile's six edges.
use vstd::prelude::*;

use crate::hex::{
    dir_index, dir_of, in_map, neighbors, spec_axial, spec_hex_offset, spec_neighbor,
    spec_tile_at, valid_size, AxialPos, HexDirection, TilePos, TilemapSize, MAX_MAP_SIDE,
};
use crate::terrain::{
    lemma_tile_index_bound, lemma_tile_index_injective, lemma_variant_kind, spec_base_terrain_add,
    spec_hills, spec_is_flat_land, spec_is_water, spec_mountains, spec_tile_index, tile_index,
    BaseTerrain, BaseTerrainVariant, TerrainMap,
};

verus! {

/// Strahler number of a stream: where two streams of equal order meet, the
/// order grows by one; otherwise the larger order continues.
#[derive(Copy, Clone, PartialEq, Eq, Structural, Debug, Hash)]
pub struct StreamOrder(pub u8);

/// A river segment, from the vertex of tile `source` that points towards
/// tile `destination` to the far end of the tile edge that leads there.
#[derive(Copy, Clone, PartialEq, Eq, Structural, Debug, Hash)]
pub struct RiverEdge {
    pub source: AxialPos,
    pub destination: AxialPos,
    pub stream_order: StreamOrder,
}

/// A river.
#[derive(Copy, Clone, PartialEq, Eq, Structural, Debug, Hash)]
pub struct River;

/// The direction outwards from each vertex of a tile, counter-clockwise;
/// `Zero` is the north-east vertex, between the neighbors in hex directions
/// zero and one.
#[derive(Copy, Clone, PartialEq, Eq, Structural, Debug, Hash)]
pub enum HexVertexDirection {
    Zero,
    One,
    Two,
    Three,
    Four,
    Five,
}

/// The offset between two tiles matches no vertex direction.
#[derive(Copy, Clone, PartialEq, Eq, Structural, Debug, Hash)]
pub enum HexVertexDirectionError {
    InvalidOffset,
}

/// The set of a tile's six edges along which a river flows, bit `i` standing
/// for the edge towards the neighbor in hex direction `i`. The value of the
/// bits is the river texture index of the tile.
#[derive(Copy, Clone, PartialEq, Eq, Structural, Debug, Hash)]
pub struct RiverHexEdges {
    pub bits: u32,
}

pub open spec fn spec_vertex_index(d: HexVertexDirection) -> int {
    match d {
        HexVertexDirection::Zero => 0,
        HexVertexDirection::One => 1,
        HexVertexDirection::Two => 2,
        HexVertexDirection::Three => 3,
        HexVertexDirection::Four => 4,
        HexVertexDirection::Five => 5,
    }
}

/// Axial offset of the tile beyond vertex `i`: the sum of the offsets of the
/// two neighbors next to the vertex.
pub open spec fn spec_vertex_offset(i: int) -> (int, int) {
    let (q1, r1) = spec_hex_offset(i);
    let (q2, r2) = spec_hex_offset((i + 1) % 6);
    (q1 + q2, r1 + r2)
}

/// The vertex direction whose offset is `(dq, dr)`, or -1.
pub open spec fn spec_offset_vertex(dq: int, dr: int) -> int {
    if (dq, dr) == spec_vertex_offset(0) {
        0
    } else if (dq, dr) == spec_vertex_offset(1) {
        1
    } else if (dq, dr) == spec_vertex_offset(2) {
        2
    } else if (dq, dr) == spec_vertex_offset(3) {
        3
    } else if (dq, dr) == spec_vertex_offset(4) {
        4
    } else if (dq, dr) == spec_vertex_offset(5) {
        5
    } else {
        -1
    }
}

/// The vertex direction from `source` to `destination` of an edge, or -1.
pub open spec fn spec_edge_vertex(e: RiverEdge) -> int {
    spec_offset_vertex(e.destination.q - e.source.q, e.destination.r - e.source.r)
}

/// Order of two streams that meet.
pub open spec fn spec_stream_order_add(a: int, b: int) -> int {
    if a == b {
        a + 1
    } else if a >= b {
        a
    } else {
        b
    }
}

impl StreamOrder {
    /// Order of the stream below the confluence of two streams.
    pub fn add(self, rhs: StreamOrder) -> (r: StreamOrder)
        requires
            !(self.0 == rhs.0 && self.0 == 255),
        ensures
            r.0 == spec_stream_order_add(self.0 as int, rhs.0 as int),
    {
        if self.0 == rhs.0 {
            StreamOrder(self.0 + 1)
        } else if self.0 >= rhs.0 {
            self
        } else {
            rhs
        }
    }
}

/// Joining streams is symmetric, never lowers an order, and raises it only
/// where two streams of equal order meet.
pub proof fn lemma_stream_order_add(a: int, b: int)
    ensures
        spec_stream_order_add(a, b) == spec_stream_order_add(b, a),
        spec_stream_order_add(a, b) >= a,
        spec_stream_order_add(a, b) >= b,
        spec_stream_order_add(a, b) > a && spec_stream_order_add(a, b) > b <==> a == b,
{
}

impl River {
    /// Minimal number of edges of a river.
    pub const MIN_LEN: usize = 2;
}

impl HexVertexDirection {
    /// All vertex directions, counter-clockwise.
    pub fn variants() -> (r: [HexVertexDirection; 6])
        ensures
            forall|i: int| 0 <= i < 6 ==> spec_vertex_index(#[trigger] r[i]) == i,
    {
        [
            HexVertexDirection::Zero,
            HexVertexDirection::One,
            HexVertexDirection::Two,
            HexVertexDirection::Three,
            HexVertexDirection::Four,
            HexVertexDirection::Five,
        ]
    }

    /// Index of the vertex direction.
    pub fn index(&self) -> (r: usize)
        ensures
            r == spec_vertex_index(*self),
            r < 6,
    {
        match self {
            HexVertexDirection::Zero => 0,
            HexVertexDirection::One => 1,
            HexVertexDirection::Two => 2,
            HexVertexDirection::Three => 3,
            HexVertexDirection::Four => 4,
            HexVertexDirection::Five => 5,
        }
    }

    /// Axial offset of the tile beyond the vertex in direction `i`.
    pub fn offset(i: usize) -> (r: AxialPos)
        requires
            i < 6,
        ensures
            (r.q as int, r.r as int) == spec_vertex_offset(i as int),
    {
        if i == 0 {
            AxialPos { q: 1, r: 1 }
        } else if i == 1 {
            AxialPos { q: -1, r: 2 }
        } else if i == 2 {
            AxialPos { q: -2, r: 1 }
        } else if i == 3 {
            AxialPos { q: -1, r: -1 }
        } else if i == 4 {
            AxialPos { q: 1, r: -2 }
        } else {
            AxialPos { q: 2, r: -1 }
        }
    }

    /// The vertex direction from tile `a` to tile `b`, which must lie beyond
    /// one of the vertices of `a`.
    pub fn try_from_offset(a: AxialPos, b: AxialPos) -> (r: Result<
        HexVertexDirection,
        HexVertexDirectionError,
    >)
        ensures
            r is Err <==> spec_offset_vertex(b.q - a.q, b.r - a.r) == -1,
            r matches Ok(d) ==> spec_vertex_index(d) == spec_offset_vertex(
                b.q - a.q,
                b.r - a.r,
            ),
    {
        let dq = b.q as i64 - a.q as i64;
        let dr = b.r as i64 - a.r as i64;
        let variants = HexVertexDirection::variants();
        let mut i: usize = 0;
        while i < 6
            invariant
                0 <= i <= 6,
                dq == b.q - a.q,
                dr == b.r - a.r,
                forall|k: int| 0 <= k < 6 ==> spec_vertex_index(#[trigger] variants[k]) == k,
                forall|k: int| 0 <= k < i ==> (dq as int, dr as int) != spec_vertex_offset(k),
            decreases 6 - i,
        {
            let o = HexVertexDirection::offset(i);
            if o.q as i64 == dq && o.r as i64 == dr {
                return Ok(variants[i]);
            }
            i += 1;
        }
        Err(HexVertexDirectionError::InvalidOffset)
    }
}

impl RiverHexEdges {
    /// The empty set of edges.
    pub fn zero() -> (r: RiverHexEdges)
        ensures
            r.bits == 0,
    {
        RiverHexEdges { bits: 0 }
    }

    /// Whether edge `i` is in the set.
    pub fn get(&self, i: usize) -> (r: bool)
        requires
            i < 32,
        ensures
            r == spec_bit(self.bits, i as int),
    {
        (self.bits >> (i as u32)) & 1 == 1
    }

    /// Puts edge `i` into the set, or takes it out.
    pub fn set(&mut self, i: usize, v: bool)
        requires
            i < 32,
        ensures
            forall|j: int|
                0 <= j < 32 ==> spec_bit(final(self).bits, j) == if j == i {
                    v
                } else {
                    spec_bit(old(self).bits, j)
                },
    {
        let k = i as u32;
        let old_bits = self.bits;
        if v {
            self.bits = old_bits | (1u32 << k);
        } else {
            self.bits = old_bits & !(1u32 << k);
        }
        proof {
            let nb = self.bits;
            assert forall|j: int| 0 <= j < 32 implies spec_bit(nb, j) == if j == i {
                v
            } else {
                spec_bit(old_bits, j)
            } by {
                let jj = j as u32;
                if v {
                    assert(((old_bits | (1u32 << k)) >> jj) & 1 == if jj == k {
                        1u32
                    } else {
                        (old_bits >> jj) & 1
                    }) by (bit_vector)
                        requires
                            k < 32,
                            jj < 32,
                    ;
                } else {
                    assert(((old_bits & !(1u32 << k)) >> jj) & 1 == if jj == k {
                        0u32
                    } else {
                        (old_bits >> jj) & 1
                    }) by (bit_vector)
                        requires
                            k < 32,
                            jj < 32,
                    ;
                }
            }
        }
    }

    /// The set as an integer, bit `i` standing for edge `i`.
    pub fn load(&self) -> (r: u32)
        ensures
            r == self.bits,
    {
        self.bits
    }

    /// Replaces the set with the edges of the bits of `value`.
    pub fn store(&mut self, value: u32)
        ensures
            final(self).bits == value,
    {
        self.bits = value;
    }
}

/// Whether bit `i` of `bits` is set.
pub open spec fn spec_bit(bits: u32, i: int) -> bool {
    (bits >> (i as u32)) & 1 == 1
}

/// The label of edge `i` in a river texture's file name: the edge's number
/// where the river runs along it, else `x`.
pub open spec fn spec_edge_label(bits: u32, i: int) -> Seq<char> {
    if spec_bit(bits, i) {
        seq![seq!['0', '1', '2', '3', '4', '5'][i]]
    } else {
        seq!['x']
    }
}

/// The labels of the first `n` edges, in order.
pub open spec fn spec_edge_labels(bits: u32, n: int) -> Seq<char>
    decreases n,
{
    if n <= 0 {
        Seq::empty()
    } else {
        spec_edge_labels(bits, n - 1) + spec_edge_label(bits, n - 1)
    }
}

/// Path of the texture that draws a tile's river edges.
pub open spec fn spec_river_texture_path(bits: u32) -> Seq<char> {
    "tiles/river/river-"@ + spec_edge_labels(bits, 6) + ".png"@
}

fn edge_label(edges: RiverHexEdges, i: usize) -> (r: &'static str)
    requires
        i < 6,
    ensures
        r@ == spec_edge_label(edges.bits, i as int),
{
    if !edges.get(i) {
        proof {
            reveal_strlit("x");
        }
        return "x";
    }
    proof {
        reveal_strlit("0");
        reveal_strlit("1");
        reveal_strlit("2");
        reveal_strlit("3");
        reveal_strlit("4");
        reveal_strlit("5");
    }
    match i {
        0 => "0",
        1 => "1",
        2 => "2",
        3 => "3",
        4 => "4",
        _ => "5",
    }
}

/// Path of the texture that draws the river edges of a tile whose edges are
/// `edges`, such as `tiles/river/river-0xx3xx.png`.
pub fn river_texture_path(edges: RiverHexEdges) -> (r: String)
    ensures
        r@ == spec_river_texture_path(edges.bits),
{
    let mut r = String::from_str("tiles/river/river-");
    let mut i: usize = 0;
    while i < 6
        invariant
            i <= 6,
            r@ == "tiles/river/river-"@ + spec_edge_labels(edges.bits, i as int),
        decreases 6 - i,
    {
        let ghost before = r@;
        r.append(edge_label(edges, i));
        proof {
            assert(spec_edge_labels(edges.bits, i + 1) == spec_edge_labels(edges.bits, i as int)
                + spec_edge_label(edges.bits, i as int));
            assert(r@ =~= "tiles/river/river-"@ + spec_edge_labels(edges.bits, i + 1));
        }
        i += 1;
    }
    r.append(".png");
    r
}

/// The river textures, in the order of their indices: the texture at index
/// `k` draws the edges whose bits are `k`, for each of the 64 sets of edges.
pub fn river_texture_paths() -> (r: Vec<String>)
    ensures
        r@.len() == 64,
        forall|k: int| 0 <= k < 64 ==> (#[trigger] r@[k])@ == spec_river_texture_path(k as u32),
{
    let mut r: Vec<String> = Vec::new();
    let mut k: u32 = 0;
    while k < 64
        invariant
            k <= 64,
            r@.len() == k,
            forall|m: int| 0 <= m < k ==> (#[trigger] r@[m])@ == spec_river_texture_path(m as u32),
        decreases 64 - k,
    {
        r.push(river_texture_path(RiverHexEdges { bits: k }));
        k += 1;
    }
    r
}

// Choosing where a river starts.
/// Elevations, as order-preserving keys, at the six vertices of a tile and
/// at the nearest vertex of each tile beyond them; `None` where the terrain
/// has no elevation.
#[derive(Copy, Clone, Debug)]
pub struct VertexElevations {
    pub vertices: [Option<u64>; 6],
    pub beyond: [Option<u64>; 6],
}

/// Vertex `i` can start a river: both of its elevations are known and the
/// one beyond is lower, so that the river never runs to the same or a
/// higher elevation.
pub open spec fn spec_river_candidate(e: VertexElevations, i: int) -> bool {
    &&& e.vertices[i] is Some
    &&& e.beyond[i] is Some
    &&& e.beyond[i].unwrap() < e.vertices[i].unwrap()
}

/// The vertex from which a river leaves a tile: the candidate with the lowest
/// elevation, the last one among equally low candidates; `None` when no
/// vertex is a candidate.
pub open spec fn spec_river_vertex_ok(e: VertexElevations, r: Option<usize>) -> bool {
    match r {
        None => forall|j: int| 0 <= j < 6 ==> !spec_river_candidate(e, j),
        Some(i) => {
            &&& i < 6
            &&& spec_river_candidate(e, i as int)
            &&& forall|j: int|
                0 <= j < 6 && spec_river_candidate(e, j) ==> e.vertices[j].unwrap()
                    >= e.vertices[i as int].unwrap()
            &&& forall|j: int|
                i < j < 6 && spec_river_candidate(e, j) ==> e.vertices[j].unwrap()
                    > e.vertices[i as int].unwrap()
        },
    }
}

/// The vertex from which a river leaves a tile.
#[verifier::spinoff_prover]
pub fn river_vertex(e: &VertexElevations) -> (r: Option<usize>)
    ensures
        spec_river_vertex_ok(*e, r),
{
    let mut best: Option<(usize, u64)> = None;
    let mut i: usize = 0;
    while i < 6
        invariant
            0 <= i <= 6,
            match best {
                None => forall|j: int| 0 <= j < i ==> !spec_river_candidate(*e, j),
                Some((k, m)) => {
                    &&& k < i
                    &&& spec_river_candidate(*e, k as int)
                    &&& e.vertices[k as int].unwrap() == m
                    &&& forall|j: int|
                        0 <= j < i && spec_river_candidate(*e, j) ==> e.vertices[j].unwrap() >= m
                    &&& forall|j: int|
                        k < j < i && spec_river_candidate(*e, j) ==> e.vertices[j].unwrap() > m
                },
            },
        decreases 6 - i,
    {
        if let (Some(elevation), Some(dest)) = (e.vertices[i], e.beyond[i]) {
            if dest < elevation {
                best = match best {
                    None => Some((i, elevation)),
                    Some((k, m)) => {
                        let m2 = if m <= elevation {
                            m
                        } else {
                            elevation
                        };
                        let k2 = if m2 == elevation {
                            i
                        } else {
                            k
                        };
                        Some((k2, m2))
                    },
                };
            }
        }
        i += 1;
    }
    match best {
        None => None,
        Some((k, _)) => Some(k),
    }
}

// Building the river edges.
/// Base terrain from which rivers can spring: hills and mountains that are
/// not desert.
pub open spec fn spec_river_source_terrain(t: BaseTerrain) -> bool {
    !(spec_is_water(t) || t == BaseTerrain::Plains || t == BaseTerrain::Grassland || t
        == BaseTerrain::Desert || t == BaseTerrain::DesertHills || t
        == BaseTerrain::DesertMountains || t == BaseTerrain::Tundra || t == BaseTerrain::Snow)
}

/// Rivers spring exactly from hills and mountains other than desert ones:
/// the hills and mountains of every flat land but desert are sources, and
/// flat land, water and desert hills or mountains never are.
pub proof fn lemma_river_sources(t: BaseTerrain, b: BaseTerrain)
    requires
        spec_is_flat_land(b),
    ensures
        spec_river_source_terrain(t) == ((spec_hills().contains(t) || spec_mountains().contains(t))
            && t != BaseTerrain::DesertHills && t != BaseTerrain::DesertMountains),
        b != BaseTerrain::Desert ==> spec_river_source_terrain(
            spec_base_terrain_add(b, BaseTerrainVariant::Hills),
        ),
        b != BaseTerrain::Desert ==> spec_river_source_terrain(
            spec_base_terrain_add(b, BaseTerrainVariant::Mountains),
        ),
        !spec_river_source_terrain(b),
        !spec_river_source_terrain(BaseTerrain::Ocean),
        !spec_river_source_terrain(BaseTerrain::Coast),
{
    lemma_variant_kind(b);
    match t {
        BaseTerrain::PlainsHills => assert(spec_hills()[0] == t),
        BaseTerrain::GrasslandHills => assert(spec_hills()[1] == t),
        BaseTerrain::TundraHills => assert(spec_hills()[3] == t),
        BaseTerrain::SnowHills => assert(spec_hills()[4] == t),
        BaseTerrain::PlainsMountains => assert(spec_mountains()[0] == t),
        BaseTerrain::GrasslandMountains => assert(spec_mountains()[1] == t),
        BaseTerrain::TundraMountains => assert(spec_mountains()[3] == t),
        BaseTerrain::SnowMountains => assert(spec_mountains()[4] == t),
        _ => {},
    }
}


/// An edge starts at a tile of the map and leads towards a vertex.
pub open spec fn spec_edge_ok(e: RiverEdge, size: TilemapSize) -> bool {
    &&& spec_tile_at(e.source.q as int, e.source.r as int, size) is Some
    &&& 0 <= spec_edge_vertex(e)
    &&& e.stream_order.0 == 1
}

/// The edges lie on the map, lead towards vertices, and no two of them share
/// both source and destination.
pub open spec fn spec_edges_ok(edges: Seq<RiverEdge>, size: TilemapSize) -> bool {
    &&& forall|i: int| 0 <= i < edges.len() ==> spec_edge_ok(#[trigger] edges[i], size)
    &&& forall|i: int, j: int|
        0 <= i < j < edges.len() ==> (#[trigger] edges[i]).source != (#[trigger] edges[j]).source
            || edges[i].destination != edges[j].destination
}

/// Some edge goes from `source` to `destination`.
pub open spec fn spec_has_edge(edges: Seq<RiverEdge>, source: AxialPos, destination: AxialPos) -> bool {
    exists|i: int|
        0 <= i < edges.len() && (#[trigger] edges[i]).source == source && edges[i].destination
            == destination
}

/// The river edge that leaves tile `pos` from its vertex `v`.
pub open spec fn spec_new_edge(pos: TilePos, v: int) -> RiverEdge {
    let (q, r) = spec_axial(pos);
    let (dq, dr) = spec_vertex_offset(v);
    RiverEdge {
        source: AxialPos { q: q as i32, r: r as i32 },
        destination: AxialPos { q: (q + dq) as i32, r: (r + dr) as i32 },
        stream_order: StreamOrder(1),
    }
}

/// A river edge may leave tile `pos` from its vertex `v`: neither tile next
/// to the vertex is water, and at least one of them lies on the map.
pub open spec fn spec_edge_allowed(map: TerrainMap, pos: TilePos, v: int) -> bool {
    let a = spec_neighbor(pos, dir_of(v), map.size);
    let b = spec_neighbor(pos, dir_of((v + 1) % 6), map.size);
    &&& !(a matches Some(n) && spec_is_water(map.at(n)))
    &&& !(b matches Some(n) && spec_is_water(map.at(n)))
    &&& (a is Some || b is Some)
}

/// The first edge from `source` to `destination`.
pub fn find_edge(edges: &Vec<RiverEdge>, source: AxialPos, destination: AxialPos) -> (r: Option<
    usize,
>)
    ensures
        r is None <==> !spec_has_edge(edges@, source, destination),
        r matches Some(i) ==> i < edges@.len() && edges@[i as int].source == source
            && edges@[i as int].destination == destination,
{
    let mut i: usize = 0;
    while i < edges.len()
        invariant
            0 <= i <= edges@.len(),
            forall|k: int|
                0 <= k < i ==> !((#[trigger] edges@[k]).source == source && edges@[k].destination
                    == destination),
        decreases edges@.len() - i,
    {
        if edges[i].source == source && edges[i].destination == destination {
            return Some(i);
        }
        i += 1;
    }
    None
}

/// The tile at axial position `a`, which lies on the map.
fn tile_of_axial(a: AxialPos, size: TilemapSize) -> (r: TilePos)
    requires
        valid_size(size),
        spec_tile_at(a.q as int, a.r as int, size) is Some,
    ensures
        Some(r) == spec_tile_at(a.q as int, a.r as int, size),
        in_map(r, size),
{
    a.as_tile_pos(size).unwrap()
}

/// No confluence with a stream from two tiles away can be found: its offset
/// leads towards no vertex.
proof fn lemma_no_confluence(
    edges: Seq<RiverEdge>,
    size: TilemapSize,
    src: (int, int),
    k: int,
    far: AxialPos,
    dest: AxialPos,
)
    requires
        spec_edges_ok(edges, size),
        0 <= k < 6,
        (far.q as int, far.r as int) == (src.0 + 2 * spec_hex_offset(k).0, src.1 + 2
            * spec_hex_offset(k).1),
        (dest.q as int, dest.r as int) == (src.0 + spec_vertex_offset((k + 2) % 6).0, src.1
            + spec_vertex_offset((k + 2) % 6).1) || (dest.q as int, dest.r as int) == (src.0
            + spec_vertex_offset((k + 3) % 6).0, src.1 + spec_vertex_offset((k + 3) % 6).1),
    ensures
        !spec_has_edge(edges, far, dest),
{
    if spec_has_edge(edges, far, dest) {
        let i = choose|i: int|
            0 <= i < edges.len() && (#[trigger] edges[i]).source == far && edges[i].destination
                == dest;
        assert(spec_edge_ok(edges[i], size));
        assert(false);
    }
}

/// Adds the river edge that leaves tile `pos` from vertex `vertex`, unless
/// it would run along water, stick out of the map, or exist already; then
/// merges it with streams that it meets.
#[verifier::spinoff_prover]
pub fn add_tile_river_edge(
    map: &TerrainMap,
    pos: TilePos,
    vertex: usize,
    river_edges: &mut Vec<RiverEdge>,
)
    requires
        map.wf(),
        in_map(pos, map.size),
        vertex < 6,
        spec_edges_ok(old(river_edges)@, map.size),
    ensures
        spec_edges_ok(final(river_edges)@, map.size),
        final(river_edges)@ == if spec_edge_allowed(*map, pos, vertex as int) && !spec_has_edge(
            old(river_edges)@,
            spec_new_edge(pos, vertex as int).source,
            spec_new_edge(pos, vertex as int).destination,
        ) {
            old(river_edges)@.push(spec_new_edge(pos, vertex as int))
        } else {
            old(river_edges)@
        },
{
    let size = map.size;
    let edge_a = vertex;
    let edge_b = (edge_a + 1) % 6;
    let nb = neighbors(pos, size);
    if let Some(n) = nb[edge_a] {
        let t = map.get(n);
        if t.is_water() {
            // A river edge must not run along the shore.
            return;
        }
    }
    if let Some(n) = nb[edge_b] {
        let t = map.get(n);
        if t.is_water() {
            return;
        }
    }
    if nb[edge_a].is_none() && nb[edge_b].is_none() {
        // A river edge must not stick out of the map.
        return;
    }
    let source = AxialPos::from_tile_pos(pos);
    let destination = source.add(HexVertexDirection::offset(edge_a));
    if find_edge(river_edges, source, destination).is_some() {
        return;
    }
    let new_river_edge = RiverEdge { source, destination, stream_order: StreamOrder(1) };
    assert(new_river_edge == spec_new_edge(pos, vertex as int));
    proof {
        assert(spec_offset_vertex(destination.q - source.q, destination.r - source.r)
            == edge_a);
    }
    let ghost prev = river_edges@;
    river_edges.push(new_river_edge);
    proof {
        assert(spec_edge_ok(new_river_edge, size));
        assert forall|i: int, j: int|
            0 <= i < j < river_edges@.len() implies (#[trigger] river_edges@[i]).source != (
            #[trigger] river_edges@[j]).source || river_edges@[i].destination
            != river_edges@[j].destination by {
            if j == prev.len() {
                assert(river_edges@[i] == prev[i]);
            }
        }
    }
    // Merge streams where the new edge meets an existing one.
    let mut pending = Some(new_river_edge);
    while pending.is_some()
        invariant
            map.wf(),
            size == map.size,
            spec_edges_ok(river_edges@, size),
            river_edges@ == old(river_edges)@.push(new_river_edge),
            pending matches Some(e) ==> spec_edge_ok(e, size),
        decreases if pending is Some {
            1int
        } else {
            0int
        },
    {
        let edge = pending.unwrap();
        pending = None;
        let src = edge.source;
        let tile = tile_of_axial(src, size);
        let vertex_direction = HexVertexDirection::try_from_offset(src, edge.destination).unwrap();
        let ea = vertex_direction.index();
        let eb = (ea + 1) % 6;
        let (merged, stop) = merge_at_confluence(map, edge, tile, ea, 2, 1, river_edges);
        if stop {
            continue ;
        }
        if merged.is_some() {
            pending = merged;
        }
        let (merged, stop) = merge_at_confluence(map, edge, tile, eb, 3, 4, river_edges);
        if stop {
            continue ;
        }
        if merged.is_some() {
            pending = merged;
        }
    }
}

/// Looks for a stream that the river edge `edge`, leaving tile `tile`, meets
/// two tiles away in direction `k`, arriving at the vertex `k + conf`; where
/// one is found, adds the merged edge that leaves the neighbor in direction
/// `k` towards the vertex `k + merged` of `tile`. Returns the merged edge, and
/// whether an equal merged edge existed already. As every edge leads towards
/// a vertex of its own tile, and the stream looked for would not, none is
/// ever found.
#[verifier::rlimit(40)]
#[verifier::spinoff_prover]
fn merge_at_confluence(
    map: &TerrainMap,
    edge: RiverEdge,
    tile: TilePos,
    k: usize,
    conf: usize,
    merged: usize,
    river_edges: &mut Vec<RiverEdge>,
) -> (r: (Option<RiverEdge>, bool))
    requires
        map.wf(),
        in_map(tile, map.size),
        spec_tile_at(edge.source.q as int, edge.source.r as int, map.size) == Some(tile),
        spec_edges_ok(old(river_edges)@, map.size),
        k < 6,
        (conf == 2 && merged == 1) || (conf == 3 && merged == 4),
    ensures
        final(river_edges)@ == old(river_edges)@,
        r == (None::<RiverEdge>, false),
{
    let size = map.size;
    let src = edge.source;
    proof {
        lemma_axial_bounds(tile, size);
    }
    let nb = neighbors(tile, size);
    if let Some(tile_a) = nb[k] {
        let axial_a = AxialPos::from_tile_pos(tile_a);
        let nba = neighbors(tile_a, size);
        if let Some(tile_aa) = nba[k] {
            proof {
                lemma_axial_bounds(tile_a, size);
                lemma_axial_bounds(tile_aa, size);
            }
            let axial_aa = AxialPos::from_tile_pos(tile_aa);
            let confluence_destination = src.add(HexVertexDirection::offset((k + conf) % 6));
            proof {
                lemma_no_confluence(
                    river_edges@,
                    size,
                    (src.q as int, src.r as int),
                    k as int,
                    axial_aa,
                    confluence_destination,
                );
            }
            if let Some(ci) = find_edge(river_edges, axial_aa, confluence_destination) {
                let merged_destination = src.add(HexVertexDirection::offset((k + merged) % 6));
                if find_edge(river_edges, axial_a, merged_destination).is_some() {
                    return (None, true);
                }
                let merged_stream_order = edge.stream_order.add(river_edges[ci].stream_order);
                let river_edge = RiverEdge {
                    source: axial_a,
                    destination: merged_destination,
                    stream_order: merged_stream_order,
                };
                river_edges.push(river_edge);
                return (Some(river_edge), false);
            }
        }
    }
    (None, false)
}

/// The river vertex of a tile is unique.
pub proof fn lemma_river_vertex_unique(e: VertexElevations, a: Option<usize>, b: Option<usize>)
    requires
        spec_river_vertex_ok(e, a),
        spec_river_vertex_ok(e, b),
    ensures
        a == b,
{
    match (a, b) {
        (Some(i), Some(j)) => {
            if i < j {
                assert(spec_river_candidate(e, j as int));
            } else if j < i {
                assert(spec_river_candidate(e, i as int));
            }
        },
        (Some(i), None) => {
            assert(spec_river_candidate(e, i as int));
        },
        (None, Some(j)) => {
            assert(spec_river_candidate(e, j as int));
        },
        (None, None) => {},
    }
}

/// The river edge of an edge's source tile: the tile is a river source, the
/// edge leaves it from the tile's river vertex, and is allowed there.
pub open spec fn spec_edge_sound(map: TerrainMap, elevations: Seq<VertexElevations>, e: RiverEdge) -> bool {
    let p = spec_tile_at(e.source.q as int, e.source.r as int, map.size).unwrap();
    let v = spec_edge_vertex(e);
    &&& spec_tile_at(e.source.q as int, e.source.r as int, map.size) is Some
    &&& spec_river_source_terrain(map.at(p))
    &&& 0 <= v < 6
    &&& spec_river_vertex_ok(elevations[spec_tile_index(p, map.size)], Some(v as usize))
    &&& spec_edge_allowed(map, p, v)
    &&& e == spec_new_edge(p, v)
}

/// Tile `p` has a river edge: it is a river source, and the edge from its
/// river vertex is allowed.
pub open spec fn spec_tile_has_river(map: TerrainMap, elevations: Seq<VertexElevations>, p: TilePos) -> bool {
    &&& spec_river_source_terrain(map.at(p))
    &&& exists|v: usize|
        #![trigger spec_edge_allowed(map, p, v as int)]
        v < 6 && spec_river_vertex_ok(elevations[spec_tile_index(p, map.size)], Some(v))
            && spec_edge_allowed(map, p, v as int)
}

/// Tiles of a map with the same axial coordinates are the same tile.
proof fn lemma_axial_injective(a: TilePos, b: TilePos, size: TilemapSize)
    requires
        in_map(a, size),
        in_map(b, size),
        spec_axial(a) == spec_axial(b),
    ensures
        a == b,
{
}

/// The tile that a river edge leaves.
pub open spec fn spec_edge_tile(e: RiverEdge, size: TilemapSize) -> TilePos {
    spec_tile_at(e.source.q as int, e.source.r as int, size).unwrap()
}

/// Adds the river edge of tile `pos`, if the tile is a river source and its
/// river vertex allows one. No edge of another tile leaves the same tile, so
/// the edge is never found twice.
#[verifier::rlimit(40)]
#[verifier::spinoff_prover]
fn add_river_edge_of_tile(
    map: &TerrainMap,
    elevations: &Vec<VertexElevations>,
    pos: TilePos,
    river_edges: &mut Vec<RiverEdge>,
)
    requires
        map.wf(),
        elevations@.len() == map.size.x * map.size.y,
        in_map(pos, map.size),
        spec_edges_ok(old(river_edges)@, map.size),
        forall|i: int|
            0 <= i < old(river_edges)@.len() ==> spec_edge_sound(
                *map,
                elevations@,
                #[trigger] old(river_edges)@[i],
            ) && spec_edge_tile(old(river_edges)@[i], map.size) != pos,
    ensures
        spec_edges_ok(final(river_edges)@, map.size),
        final(river_edges)@.len() <= old(river_edges)@.len() + 1,
        final(river_edges)@.len() >= old(river_edges)@.len(),
        forall|i: int|
            0 <= i < old(river_edges)@.len() ==> #[trigger] final(river_edges)@[i] == old(river_edges)@[i],
        forall|i: int|
            old(river_edges)@.len() <= i < final(river_edges)@.len() ==> spec_edge_sound(
                *map,
                elevations@,
                #[trigger] final(river_edges)@[i],
            ) && spec_edge_tile(final(river_edges)@[i], map.size) == pos,
        spec_tile_has_river(*map, elevations@, pos) ==> exists|i: int|
            0 <= i < final(river_edges)@.len() && (#[trigger] final(river_edges)@[i]).source
                == spec_new_edge(pos, 0).source,
{
    let size = map.size;
    let t = map.get(pos);
    let source_terrain = match t {
        BaseTerrain::PlainsHills | BaseTerrain::GrasslandHills | BaseTerrain::TundraHills
        | BaseTerrain::SnowHills | BaseTerrain::PlainsMountains | BaseTerrain::GrasslandMountains
        | BaseTerrain::TundraMountains | BaseTerrain::SnowMountains => true,
        _ => false,
    };
    let ghost prev = river_edges@;
    proof {
        lemma_tile_index_bound(pos, size);
    }
    if !source_terrain {
        return;
    }
    let vertex = river_vertex(&elevations[tile_index(pos, size)]);
    if let Some(v) = vertex {
        proof {
            let e = spec_new_edge(pos, v as int);
            if spec_has_edge(prev, e.source, e.destination) {
                let i = choose|i: int|
                    0 <= i < prev.len() && (#[trigger] prev[i]).source == e.source
                        && prev[i].destination == e.destination;
                let t = spec_edge_tile(prev[i], size);
                assert(spec_edge_sound(*map, elevations@, prev[i]));
                lemma_axial_injective(t, pos, size);
                assert(false);
            }
        }
        add_tile_river_edge(map, pos, v, river_edges);
        proof {
            let e = spec_new_edge(pos, v as int);
            assert(spec_offset_vertex(e.destination.q - e.source.q, e.destination.r - e.source.r)
                == v);
            if spec_edge_allowed(*map, pos, v as int) {
                assert(river_edges@[prev.len() as int] == e);
            }
            if spec_tile_has_river(*map, elevations@, pos) {
                let w = choose|w: usize|
                    #![trigger spec_edge_allowed(*map, pos, w as int)]
                    w < 6 && spec_river_vertex_ok(
                        elevations@[spec_tile_index(pos, map.size)],
                        Some(w),
                    ) && spec_edge_allowed(*map, pos, w as int);
                lemma_river_vertex_unique(
                    elevations@[spec_tile_index(pos, map.size)],
                    Some(w),
                    vertex,
                );
                assert(river_edges@[prev.len() as int].source == spec_new_edge(pos, 0).source);
            }
        }
    } else {
        proof {
            if spec_tile_has_river(*map, elevations@, pos) {
                let w = choose|w: usize|
                    #![trigger spec_edge_allowed(*map, pos, w as int)]
                    w < 6 && spec_river_vertex_ok(
                        elevations@[spec_tile_index(pos, map.size)],
                        Some(w),
                    ) && spec_edge_allowed(*map, pos, w as int);
                lemma_river_vertex_unique(
                    elevations@[spec_tile_index(pos, map.size)],
                    Some(w),
                    vertex,
                );
            }
        }
    }
}

/// Tile `a` comes before tile `b` when the map is visited column by column.
pub open spec fn spec_tile_before(a: TilePos, b: TilePos) -> bool {
    a.x < b.x || (a.x == b.x && a.y < b.y)
}

/// The edges leave their tiles in the order in which the map is visited.
pub open spec fn spec_edges_in_visit_order(edges: Seq<RiverEdge>, size: TilemapSize) -> bool {
    forall|i: int, j: int|
        0 <= i < j < edges.len() ==> spec_tile_before(
            spec_edge_tile(#[trigger] edges[i], size),
            spec_edge_tile(#[trigger] edges[j], size),
        )
}

/// Generates the river edges of a map, visiting its tiles column by column:
/// every tile of hills or mountains other than desert sends a river edge from
/// its river vertex, where the edge is allowed. Each tile sends at most one
/// edge, so no edge is found twice.
#[verifier::spinoff_prover]
pub fn generate_river_edges(map: &TerrainMap, elevations: &Vec<VertexElevations>) -> (r: Vec<
    RiverEdge,
>)
    requires
        map.wf(),
        elevations@.len() == map.size.x * map.size.y,
    ensures
        spec_edges_ok(r@, map.size),
        spec_edges_in_visit_order(r@, map.size),
        forall|i: int| 0 <= i < r@.len() ==> spec_edge_sound(*map, elevations@, #[trigger] r@[i]),
        forall|p: TilePos|
            in_map(p, map.size) && spec_tile_has_river(*map, elevations@, p) ==> exists|i: int|
                0 <= i < r@.len() && (#[trigger] r@[i]).source == spec_new_edge(p, 0).source,
{
    let size = map.size;
    let mut river_edges: Vec<RiverEdge> = Vec::new();
    let mut x: u32 = 0;
    while x < size.x
        invariant
            map.wf(),
            size == map.size,
            elevations@.len() == size.x * size.y,
            x <= size.x,
            spec_edges_ok(river_edges@, size),
            spec_edges_in_visit_order(river_edges@, size),
            forall|i: int|
                0 <= i < river_edges@.len() ==> spec_edge_sound(
                    *map,
                    elevations@,
                    #[trigger] river_edges@[i],
                ) && spec_edge_tile(river_edges@[i], size).x < x,
            forall|p: TilePos|
                in_map(p, size) && p.x < x && spec_tile_has_river(*map, elevations@, p)
                    ==> exists|i: int|
                    0 <= i < river_edges@.len() && (#[trigger] river_edges@[i]).source
                        == spec_new_edge(p, 0).source,
        decreases size.x - x,
    {
        let mut y: u32 = 0;
        while y < size.y
            invariant
                map.wf(),
                size == map.size,
                elevations@.len() == size.x * size.y,
                x < size.x,
                y <= size.y,
                spec_edges_ok(river_edges@, size),
                spec_edges_in_visit_order(river_edges@, size),
                forall|i: int|
                    0 <= i < river_edges@.len() ==> spec_edge_sound(
                        *map,
                        elevations@,
                        #[trigger] river_edges@[i],
                    ) && ({
                        let t = spec_edge_tile(river_edges@[i], size);
                        t.x < x || (t.x == x && t.y < y)
                    }),
                forall|p: TilePos|
                    in_map(p, size) && (p.x < x || (p.x == x && p.y < y)) && spec_tile_has_river(
                        *map,
                        elevations@,
                        p,
                    ) ==> exists|i: int|
                        0 <= i < river_edges@.len() && (#[trigger] river_edges@[i]).source
                            == spec_new_edge(p, 0).source,
            decreases size.y - y,
        {
            let pos = TilePos { x, y };
            let ghost prev = river_edges@;
            add_river_edge_of_tile(map, elevations, pos, &mut river_edges);
            proof {
                assert forall|i: int, j: int|
                    0 <= i < j < river_edges@.len() implies spec_tile_before(
                    spec_edge_tile(#[trigger] river_edges@[i], size),
                    spec_edge_tile(#[trigger] river_edges@[j], size),
                ) by {
                    assert(river_edges@[i] == prev[i]);
                    if j < prev.len() {
                        assert(river_edges@[j] == prev[j]);
                    }
                }
                assert forall|i: int| 0 <= i < river_edges@.len() implies spec_edge_sound(
                    *map,
                    elevations@,
                    #[trigger] river_edges@[i],
                ) && ({
                    let t = spec_edge_tile(river_edges@[i], size);
                    t.x < x || (t.x == x && t.y < y + 1)
                }) by {
                    if i < prev.len() {
                        assert(river_edges@[i] == prev[i]);
                    }
                }
                assert forall|p: TilePos|
                    in_map(p, size) && (p.x < x || (p.x == x && p.y < y + 1)) && spec_tile_has_river(
                        *map,
                        elevations@,
                        p,
                    ) implies exists|i: int|
                    0 <= i < river_edges@.len() && (#[trigger] river_edges@[i]).source
                        == spec_new_edge(p, 0).source by {
                    if p != pos {
                        let i = choose|i: int|
                            0 <= i < prev.len() && (#[trigger] prev[i]).source == spec_new_edge(
                                p,
                                0,
                            ).source;
                        assert(river_edges@[i] == prev[i]);
                    }
                }
            }
            y += 1;
        }
        x += 1;
    }
    river_edges
}

/// River edge `e` runs along edge `k` of tile `p`: `p` is one of the two
/// tiles next to the vertex that `e` leaves from, and `k` its edge towards
/// the other one.
pub open spec fn spec_edge_marks(e: RiverEdge, p: TilePos, k: int, size: TilemapSize) -> bool {
    let t = spec_tile_at(e.source.q as int, e.source.r as int, size).unwrap();
    let a = spec_edge_vertex(e);
    let b = (a + 1) % 6;
    ||| spec_neighbor(t, dir_of(a), size) == Some(p) && k == (a + 2) % 6
    ||| spec_neighbor(t, dir_of(b), size) == Some(p) && k == (b + 4) % 6
}

/// Some edge of `edges` runs along edge `k` of tile `p`.
pub open spec fn spec_river_along(edges: Seq<RiverEdge>, p: TilePos, k: int, size: TilemapSize) -> bool {
    exists|i: int| 0 <= i < edges.len() && spec_edge_marks(#[trigger] edges[i], p, k, size)
}

/// The two tiles next to a vertex of a tile share an edge: the edge of the
/// first tile that a river edge marks, seen from the second tile, is the
/// edge that it marks there, so both tiles draw the same stretch of river.
#[verifier::spinoff_prover]
pub proof fn lemma_marked_edges_meet(t: TilePos, v: int, size: TilemapSize)
    requires
        valid_size(size),
        in_map(t, size),
        0 <= v < 6,
        spec_neighbor(t, dir_of(v), size) is Some,
        spec_neighbor(t, dir_of((v + 1) % 6), size) is Some,
    ensures
        spec_neighbor(spec_neighbor(t, dir_of(v), size).unwrap(), dir_of((v + 2) % 6), size)
            == spec_neighbor(t, dir_of((v + 1) % 6), size),
        spec_neighbor(spec_neighbor(t, dir_of((v + 1) % 6), size).unwrap(), dir_of(((v + 1) % 6 + 4) % 6), size)
            == spec_neighbor(t, dir_of(v), size),
{
    let (q, r) = spec_axial(t);
    let a_off = spec_hex_offset(v);
    let b_off = spec_hex_offset((v + 1) % 6);
    let c_off = spec_hex_offset((v + 2) % 6);
    let d_off = spec_hex_offset(((v + 1) % 6 + 4) % 6);
    assert(a_off.0 + c_off.0 == b_off.0 && a_off.1 + c_off.1 == b_off.1) by {
        lemma_offsets_turn(v);
    }
    assert(b_off.0 + d_off.0 == a_off.0 && b_off.1 + d_off.1 == a_off.1) by {
        lemma_offsets_turn(v);
    }
    assert(dir_index(dir_of(v)) == v);
    assert(dir_index(dir_of((v + 1) % 6)) == (v + 1) % 6);
    assert(dir_index(dir_of((v + 2) % 6)) == (v + 2) % 6);
    assert(dir_index(dir_of(((v + 1) % 6 + 4) % 6)) == ((v + 1) % 6 + 4) % 6);
    let a = spec_tile_at(q + a_off.0, r + a_off.1, size);
    let b = spec_tile_at(q + b_off.0, r + b_off.1, size);
    assert(spec_neighbor(t, dir_of(v), size) == a);
    assert(spec_neighbor(t, dir_of((v + 1) % 6), size) == b);
    lemma_axial_of_tile_at(q + a_off.0, r + a_off.1, size);
    lemma_axial_of_tile_at(q + b_off.0, r + b_off.1, size);
    assert(spec_neighbor(a.unwrap(), dir_of((v + 2) % 6), size) == spec_tile_at(
        q + a_off.0 + c_off.0,
        r + a_off.1 + c_off.1,
        size,
    ));
    assert(spec_neighbor(b.unwrap(), dir_of(((v + 1) % 6 + 4) % 6), size) == spec_tile_at(
        q + b_off.0 + d_off.0,
        r + b_off.1 + d_off.1,
        size,
    ));
}

/// Turning from one neighbor of a tile to the next: the offset of the
/// second neighbor is that of the first plus the offset two directions on,
/// and the offset of the first is that of the second plus the offset four
/// directions on.
proof fn lemma_offsets_turn(v: int)
    requires
        0 <= v < 6,
    ensures
        spec_hex_offset(v).0 + spec_hex_offset((v + 2) % 6).0 == spec_hex_offset((v + 1) % 6).0,
        spec_hex_offset(v).1 + spec_hex_offset((v + 2) % 6).1 == spec_hex_offset((v + 1) % 6).1,
        spec_hex_offset((v + 1) % 6).0 + spec_hex_offset(((v + 1) % 6 + 4) % 6).0 == spec_hex_offset(v).0,
        spec_hex_offset((v + 1) % 6).1 + spec_hex_offset(((v + 1) % 6 + 4) % 6).1 == spec_hex_offset(v).1,
{
}

/// The axial coordinates of the tile at `(q, r)` are `(q, r)`.
proof fn lemma_axial_of_tile_at(q: int, r: int, size: TilemapSize)
    requires
        spec_tile_at(q, r, size) is Some,
    ensures
        spec_axial(spec_tile_at(q, r, size).unwrap()) == (q, r),
{
}

/// Every vertex direction is found again from its offset.
pub proof fn lemma_vertex_offset_round_trip(i: int)
    requires
        0 <= i < 6,
    ensures
        spec_offset_vertex(spec_vertex_offset(i).0, spec_vertex_offset(i).1) == i,
{
}

/// The river texture of every tile of the map, stored column by column: the
/// set of the tile's edges along which some river edge runs.
#[verifier::rlimit(40)]
#[verifier::spinoff_prover]
pub fn river_hex_edges(edges: &Vec<RiverEdge>, size: TilemapSize) -> (r: Vec<RiverHexEdges>)
    requires
        valid_size(size),
        forall|i: int| 0 <= i < edges@.len() ==> spec_edge_ok(#[trigger] edges@[i], size),
    ensures
        r@.len() == size.x * size.y,
        forall|p: TilePos, k: int|
            in_map(p, size) && 0 <= k < 32 ==> #[trigger] spec_bit(r@[spec_tile_index(p, size)].bits, k) == spec_river_along(edges@, p, k, size),
{
    proof {
        lemma_tile_index_bound(TilePos { x: 0, y: 0 }, size);
    }
    let n = (size.x as usize) * (size.y as usize);
    let mut masks: Vec<RiverHexEdges> = Vec::new();
    let mut i: usize = 0;
    while i < n
        invariant
            n == size.x * size.y,
            i <= n,
            masks@.len() == i,
            forall|j: int| 0 <= j < i ==> (#[trigger] masks@[j]).bits == 0,
        decreases n - i,
    {
        masks.push(RiverHexEdges::zero());
        i += 1;
    }
    proof {
        assert forall|p: TilePos, k: int| in_map(p, size) && 0 <= k < 32 implies #[trigger] spec_bit(masks@[spec_tile_index(p, size)].bits, k) == spec_river_along(edges@.subrange(0, 0), p, k, size) by {
            lemma_tile_index_bound(p, size);
            let z = masks@[spec_tile_index(p, size)].bits;
            let kk = k as u32;
            assert((0u32 >> kk) & 1 == 0u32) by (bit_vector);
        }
    }
    let mut e: usize = 0;
    while e < edges.len()
        invariant
            valid_size(size),
            forall|i: int| 0 <= i < edges@.len() ==> spec_edge_ok(#[trigger] edges@[i], size),
            e <= edges@.len(),
            masks@.len() == size.x * size.y,
            forall|p: TilePos, k: int|
                in_map(p, size) && 0 <= k < 32 ==> #[trigger] spec_bit(masks@[spec_tile_index(p, size)].bits, k) == spec_river_along(edges@.subrange(0, e as int), p, k, size),
        decreases edges@.len() - e,
    {
        let edge = edges[e];
        assert(spec_edge_ok(edge, size));
        let tile = tile_of_axial(edge.source, size);
        proof {
            lemma_axial_bounds(tile, size);
        }
        let vertex_direction = HexVertexDirection::try_from_offset(
            edge.source,
            edge.destination,
        ).unwrap();
        let nb = neighbors(tile, size);
        let edge_a = vertex_direction.index();
        let edge_b = (edge_a + 1) % 6;
        let ghost before = masks@;
        if let Some(a) = nb[edge_a] {
            let idx = tile_index(a, size);
            let mut m = masks[idx];
            m.set((edge_a + 2) % 6, true);
            masks.set(idx, m);
        }
        let ghost middle = masks@;
        if let Some(b) = nb[edge_b] {
            let idx = tile_index(b, size);
            let mut m = masks[idx];
            m.set((edge_b + 4) % 6, true);
            masks.set(idx, m);
        }
        proof {
            let prefix = edges@.subrange(0, e as int);
            let next = edges@.subrange(0, e as int + 1);
            assert forall|p: TilePos, k: int| in_map(p, size) && 0 <= k < 32 implies #[trigger] spec_bit(masks@[spec_tile_index(p, size)].bits, k) == spec_river_along(next, p, k, size) by {
                lemma_tile_index_bound(p, size);
                let ip = spec_tile_index(p, size);
                if let Some(a) = nb[edge_a as int] {
                    if a != p {
                        lemma_tile_index_bound(a, size);
                        if spec_tile_index(a, size) == ip {
                            lemma_tile_index_injective(a, p, size);
                        }
                    }
                }
                if let Some(b) = nb[edge_b as int] {
                    if b != p {
                        lemma_tile_index_bound(b, size);
                        if spec_tile_index(b, size) == ip {
                            lemma_tile_index_injective(b, p, size);
                        }
                    }
                }
                assert(next[e as int] == edge);
                if spec_river_along(next, p, k, size) {
                    let i = choose|i: int|
                        0 <= i < next.len() && spec_edge_marks(#[trigger] next[i], p, k, size);
                    if i < e {
                        assert(prefix[i] == next[i]);
                    }
                }
                if spec_river_along(prefix, p, k, size) {
                    let i = choose|i: int|
                        0 <= i < prefix.len() && spec_edge_marks(#[trigger] prefix[i], p, k, size);
                    assert(prefix[i] == next[i]);
                }
            }
        }
        e += 1;
    }
    proof {
        assert(edges@.subrange(0, edges@.len() as int) =~= edges@);
    }
    masks
}

/// Axial coordinates of tiles of a map are small.
proof fn lemma_axial_bounds(p: TilePos, size: TilemapSize)
    requires
        valid_size(size),
        in_map(p, size),
    ensures
        -0x2000_0000 <= spec_axial(p).0 <= 0x2000_0000,
        0 <= spec_axial(p).1 <= MAX_MAP_SIDE,
{
}

} // verus!
