//! Terrain of the map: base terrain, its hills and mountains variants,
//! climate zones by latitude, random choice of terrain and terrain features,
//! and the conversion of shallow ocean into coast.
use vstd::prelude::*;

use crate::hex::{
    dir_index, dir_of, in_map, neighbor, spec_neighbor, valid_size, HexDirection, TilePos, TilemapSize,
    MAX_MAP_SIDE,
};
use crate::random::{choose_index, pick_bool, spec_draw_index, spec_pick_bool, RngState};

verus! {

/// Number of columns of the game map. Both sides must be even.
pub const MAP_SIDE_LENGTH_X: u32 = 74;

/// Number of rows of the game map. Both sides must be even.
pub const MAP_SIDE_LENGTH_Y: u32 = 46;

/// Base terrain of a tile. Its index is the texture index of the tile.
#[derive(Copy, Clone, PartialEq, Eq, Structural, Debug, Hash)]
pub enum BaseTerrain {
    Plains,
    Grassland,
    Desert,
    Tundra,
    Snow,
    PlainsHills,
    GrasslandHills,
    DesertHills,
    TundraHills,
    SnowHills,
    PlainsMountains,
    GrasslandMountains,
    DesertMountains,
    TundraMountains,
    SnowMountains,
    Coast,
    Ocean,
}

/// Variant of a flat land base terrain. Its index is the distance between the
/// indices of a flat base terrain and of that terrain's variant.
#[derive(Copy, Clone, PartialEq, Eq, Structural, Debug, Hash)]
pub enum BaseTerrainVariant {
    Hills,
    Mountains,
}

/// Feature on top of the base terrain of a tile. Its index is the texture
/// index of the feature.
#[derive(Copy, Clone, PartialEq, Eq, Structural, Debug, Hash)]
pub enum TerrainFeatures {
    Woods,
    Rainforest,
    Marsh,
    Floodplains,
    Oasis,
    Cliffs,
    Ice,
}

/// Climate zone of a latitude: beyond the polar circles (66.57 degrees),
/// beyond 35 degrees, beyond the tropics (23.43 degrees), or within the
/// tropics.
#[derive(Copy, Clone, PartialEq, Eq, Structural, Debug, Hash)]
pub enum ClimateZone {
    Frigid,
    Temperate,
    Subtropics,
    Tropics,
}

/// Elevation band of a tile, from its mean elevation.
#[derive(Copy, Clone, PartialEq, Eq, Structural, Debug, Hash)]
pub enum ElevationBand {
    /// Below sea level.
    Sea,
    Lowland,
    Hills,
    Mountains,
}

pub open spec fn spec_base_terrain_index(t: BaseTerrain) -> int {
    match t {
        BaseTerrain::Plains => 0,
        BaseTerrain::Grassland => 1,
        BaseTerrain::Desert => 2,
        BaseTerrain::Tundra => 3,
        BaseTerrain::Snow => 4,
        BaseTerrain::PlainsHills => 5,
        BaseTerrain::GrasslandHills => 6,
        BaseTerrain::DesertHills => 7,
        BaseTerrain::TundraHills => 8,
        BaseTerrain::SnowHills => 9,
        BaseTerrain::PlainsMountains => 10,
        BaseTerrain::GrasslandMountains => 11,
        BaseTerrain::DesertMountains => 12,
        BaseTerrain::TundraMountains => 13,
        BaseTerrain::SnowMountains => 14,
        BaseTerrain::Coast => 15,
        BaseTerrain::Ocean => 16,
    }
}

pub open spec fn spec_variant_index(v: BaseTerrainVariant) -> int {
    match v {
        BaseTerrainVariant::Hills => 5,
        BaseTerrainVariant::Mountains => 10,
    }
}

pub open spec fn spec_feature_index(f: TerrainFeatures) -> int {
    match f {
        TerrainFeatures::Woods => 0,
        TerrainFeatures::Rainforest => 1,
        TerrainFeatures::Marsh => 2,
        TerrainFeatures::Floodplains => 3,
        TerrainFeatures::Oasis => 4,
        TerrainFeatures::Cliffs => 5,
        TerrainFeatures::Ice => 6,
    }
}

/// The hills base terrains.
pub open spec fn spec_hills() -> Seq<BaseTerrain> {
    seq![
        BaseTerrain::PlainsHills,
        BaseTerrain::GrasslandHills,
        BaseTerrain::DesertHills,
        BaseTerrain::TundraHills,
        BaseTerrain::SnowHills,
    ]
}

/// The mountains base terrains.
pub open spec fn spec_mountains() -> Seq<BaseTerrain> {
    seq![
        BaseTerrain::PlainsMountains,
        BaseTerrain::GrasslandMountains,
        BaseTerrain::DesertMountains,
        BaseTerrain::TundraMountains,
        BaseTerrain::SnowMountains,
    ]
}

/// Flat land: the base terrains that have hills and mountains variants.
pub open spec fn spec_is_flat_land(t: BaseTerrain) -> bool {
    spec_base_terrain_index(t) < 5
}

pub open spec fn spec_is_water(t: BaseTerrain) -> bool {
    t == BaseTerrain::Ocean || t == BaseTerrain::Coast
}

/// Latitude of the center of row `y` of a map with `h` rows, in degrees,
/// multiplied by `200 * h`: the latitude is `-90 + 180 * (y + 1/2) / h`.
pub open spec fn spec_scaled_latitude(y: int, h: int) -> int {
    18000 * (2 * y + 1) - 18000 * h
}

/// Climate zone of row `y` of a map with `h` rows.
pub open spec fn spec_climate_zone(y: int, h: int) -> ClimateZone {
    let s = spec_scaled_latitude(y, h);
    if s >= 13314 * h || s <= -13314 * h {
        ClimateZone::Frigid
    } else if s >= 7000 * h || s <= -7000 * h {
        ClimateZone::Temperate
    } else if s >= 4686 * h || s <= -4686 * h {
        ClimateZone::Subtropics
    } else {
        ClimateZone::Tropics
    }
}

/// The base terrains from which flat land in a climate zone is drawn, each
/// as often as it is listed.
pub open spec fn spec_base_terrain_choices(zone: ClimateZone) -> Seq<BaseTerrain> {
    match zone {
        ClimateZone::Frigid => seq![BaseTerrain::Tundra, BaseTerrain::Snow],
        ClimateZone::Temperate => seq![
            BaseTerrain::Plains,
            BaseTerrain::Plains,
            BaseTerrain::Plains,
            BaseTerrain::Grassland,
        ],
        ClimateZone::Subtropics => seq![
            BaseTerrain::Plains,
            BaseTerrain::Plains,
            BaseTerrain::Plains,
            BaseTerrain::Grassland,
            BaseTerrain::Grassland,
            BaseTerrain::Desert,
            BaseTerrain::Desert,
        ],
        ClimateZone::Tropics => seq![
            BaseTerrain::Plains,
            BaseTerrain::Plains,
            BaseTerrain::Grassland,
            BaseTerrain::Grassland,
            BaseTerrain::Grassland,
            BaseTerrain::Grassland,
            BaseTerrain::Desert,
        ],
    }
}

/// Base terrain of a tile in an elevation band whose flat land would be
/// `base`.
pub open spec fn spec_tile_base_terrain(band: ElevationBand, base: BaseTerrain) -> BaseTerrain {
    match band {
        ElevationBand::Sea => BaseTerrain::Ocean,
        ElevationBand::Lowland => base,
        ElevationBand::Hills => spec_base_terrain_add(base, BaseTerrainVariant::Hills),
        ElevationBand::Mountains => spec_base_terrain_add(base, BaseTerrainVariant::Mountains),
    }
}

/// The base terrain whose index is `i`.
pub open spec fn spec_base_terrain_of(i: int) -> BaseTerrain {
    if i == 0 {
        BaseTerrain::Plains
    } else if i == 1 {
        BaseTerrain::Grassland
    } else if i == 2 {
        BaseTerrain::Desert
    } else if i == 3 {
        BaseTerrain::Tundra
    } else if i == 4 {
        BaseTerrain::Snow
    } else if i == 5 {
        BaseTerrain::PlainsHills
    } else if i == 6 {
        BaseTerrain::GrasslandHills
    } else if i == 7 {
        BaseTerrain::DesertHills
    } else if i == 8 {
        BaseTerrain::TundraHills
    } else if i == 9 {
        BaseTerrain::SnowHills
    } else if i == 10 {
        BaseTerrain::PlainsMountains
    } else if i == 11 {
        BaseTerrain::GrasslandMountains
    } else if i == 12 {
        BaseTerrain::DesertMountains
    } else if i == 13 {
        BaseTerrain::TundraMountains
    } else if i == 14 {
        BaseTerrain::SnowMountains
    } else if i == 15 {
        BaseTerrain::Coast
    } else {
        BaseTerrain::Ocean
    }
}

/// The variant of a flat base terrain.
pub open spec fn spec_base_terrain_add(t: BaseTerrain, v: BaseTerrainVariant) -> BaseTerrain {
    spec_base_terrain_of(spec_base_terrain_index(t) + spec_variant_index(v))
}

impl BaseTerrain {
    /// Index of the base terrain, which is also its texture index.
    pub fn to_index(&self) -> (r: u32)
        ensures
            r == spec_base_terrain_index(*self),
    {
        match self {
            BaseTerrain::Plains => 0,
            BaseTerrain::Grassland => 1,
            BaseTerrain::Desert => 2,
            BaseTerrain::Tundra => 3,
            BaseTerrain::Snow => 4,
            BaseTerrain::PlainsHills => 5,
            BaseTerrain::GrasslandHills => 6,
            BaseTerrain::DesertHills => 7,
            BaseTerrain::TundraHills => 8,
            BaseTerrain::SnowHills => 9,
            BaseTerrain::PlainsMountains => 10,
            BaseTerrain::GrasslandMountains => 11,
            BaseTerrain::DesertMountains => 12,
            BaseTerrain::TundraMountains => 13,
            BaseTerrain::SnowMountains => 14,
            BaseTerrain::Coast => 15,
            BaseTerrain::Ocean => 16,
        }
    }

    /// The base terrain with the given index, if there is one.
    pub fn try_from_index(i: u32) -> (r: Option<BaseTerrain>)
        ensures
            r is Some <==> i <= 16,
            r matches Some(t) ==> spec_base_terrain_index(t) == i && t == spec_base_terrain_of(
                i as int,
            ),
    {
        if i == 0 {
            Some(BaseTerrain::Plains)
        } else if i == 1 {
            Some(BaseTerrain::Grassland)
        } else if i == 2 {
            Some(BaseTerrain::Desert)
        } else if i == 3 {
            Some(BaseTerrain::Tundra)
        } else if i == 4 {
            Some(BaseTerrain::Snow)
        } else if i == 5 {
            Some(BaseTerrain::PlainsHills)
        } else if i == 6 {
            Some(BaseTerrain::GrasslandHills)
        } else if i == 7 {
            Some(BaseTerrain::DesertHills)
        } else if i == 8 {
            Some(BaseTerrain::TundraHills)
        } else if i == 9 {
            Some(BaseTerrain::SnowHills)
        } else if i == 10 {
            Some(BaseTerrain::PlainsMountains)
        } else if i == 11 {
            Some(BaseTerrain::GrasslandMountains)
        } else if i == 12 {
            Some(BaseTerrain::DesertMountains)
        } else if i == 13 {
            Some(BaseTerrain::TundraMountains)
        } else if i == 14 {
            Some(BaseTerrain::SnowMountains)
        } else if i == 15 {
            Some(BaseTerrain::Coast)
        } else if i == 16 {
            Some(BaseTerrain::Ocean)
        } else {
            None
        }
    }

    /// The hills base terrains.
    pub fn hills() -> (r: [BaseTerrain; 5])
        ensures
            r@ == spec_hills(),
    {
        let r = [
            BaseTerrain::PlainsHills,
            BaseTerrain::GrasslandHills,
            BaseTerrain::DesertHills,
            BaseTerrain::TundraHills,
            BaseTerrain::SnowHills,
        ];
        assert(r@ =~= spec_hills());
        r
    }

    /// The mountains base terrains.
    pub fn mountains() -> (r: [BaseTerrain; 5])
        ensures
            r@ == spec_mountains(),
    {
        let r = [
            BaseTerrain::PlainsMountains,
            BaseTerrain::GrasslandMountains,
            BaseTerrain::DesertMountains,
            BaseTerrain::TundraMountains,
            BaseTerrain::SnowMountains,
        ];
        assert(r@ =~= spec_mountains());
        r
    }

    /// Whether this is one of the hills base terrains.
    pub fn is_hills(&self) -> (r: bool)
        ensures
            r == spec_hills().contains(*self),
    {
        proof {
            lemma_hills_mountains_index(*self);
        }
        let i = self.to_index();
        5 <= i && i <= 9
    }

    /// Whether this is one of the mountains base terrains.
    pub fn is_mountains(&self) -> (r: bool)
        ensures
            r == spec_mountains().contains(*self),
    {
        proof {
            lemma_hills_mountains_index(*self);
        }
        let i = self.to_index();
        10 <= i && i <= 14
    }

    /// Whether this is ocean or coast.
    pub fn is_water(&self) -> (r: bool)
        ensures
            r == spec_is_water(*self),
    {
        match self {
            BaseTerrain::Ocean | BaseTerrain::Coast => true,
            _ => false,
        }
    }

    /// The hills or mountains variant of a flat land base terrain. Variants
    /// of hills, mountains, coast and ocean do not exist.
    pub fn add(self, rhs: BaseTerrainVariant) -> (r: BaseTerrain)
        requires
            spec_is_flat_land(self),
        ensures
            r == spec_base_terrain_add(self, rhs),
            spec_base_terrain_index(r) == spec_base_terrain_index(self) + spec_variant_index(rhs),
    {
        let base = self.to_index();
        let variant = rhs.to_index();
        BaseTerrain::try_from_index(base + variant).unwrap()
    }
}

impl BaseTerrainVariant {
    /// Index of the variant.
    pub fn to_index(&self) -> (r: u32)
        ensures
            r == spec_variant_index(*self),
    {
        match self {
            BaseTerrainVariant::Hills => 5,
            BaseTerrainVariant::Mountains => 10,
        }
    }
}

impl TerrainFeatures {
    /// Index of the terrain feature, which is also its texture index.
    pub fn to_index(&self) -> (r: u32)
        ensures
            r == spec_feature_index(*self),
    {
        match self {
            TerrainFeatures::Woods => 0,
            TerrainFeatures::Rainforest => 1,
            TerrainFeatures::Marsh => 2,
            TerrainFeatures::Floodplains => 3,
            TerrainFeatures::Oasis => 4,
            TerrainFeatures::Cliffs => 5,
            TerrainFeatures::Ice => 6,
        }
    }

    /// The terrain feature with the given index, if there is one.
    pub fn try_from_index(i: u32) -> (r: Option<TerrainFeatures>)
        ensures
            r is Some <==> i <= 6,
            r matches Some(f) ==> spec_feature_index(f) == i,
    {
        if i == 0 {
            Some(TerrainFeatures::Woods)
        } else if i == 1 {
            Some(TerrainFeatures::Rainforest)
        } else if i == 2 {
            Some(TerrainFeatures::Marsh)
        } else if i == 3 {
            Some(TerrainFeatures::Floodplains)
        } else if i == 4 {
            Some(TerrainFeatures::Oasis)
        } else if i == 5 {
            Some(TerrainFeatures::Cliffs)
        } else if i == 6 {
            Some(TerrainFeatures::Ice)
        } else {
            None
        }
    }
}

/// Hills are the base terrains with indices 5 to 9, mountains those with
/// indices 10 to 14.
pub proof fn lemma_hills_mountains_index(t: BaseTerrain)
    ensures
        spec_hills().contains(t) <==> 5 <= spec_base_terrain_index(t) <= 9,
        spec_mountains().contains(t) <==> 10 <= spec_base_terrain_index(t) <= 14,
{
    let h = spec_hills();
    let m = spec_mountains();
    if 5 <= spec_base_terrain_index(t) <= 9 {
        assert(h[spec_base_terrain_index(t) - 5] == t);
    }
    if 10 <= spec_base_terrain_index(t) <= 14 {
        assert(m[spec_base_terrain_index(t) - 10] == t);
    }
}

/// The index of a base terrain names that base terrain back, and no two base
/// terrains share an index.
pub proof fn lemma_base_terrain_index_round_trip(t: BaseTerrain, u: BaseTerrain)
    ensures
        spec_base_terrain_of(spec_base_terrain_index(t)) == t,
        0 <= spec_base_terrain_index(t) <= 16,
        spec_base_terrain_index(t) == spec_base_terrain_index(u) ==> t == u,
{
}

/// The hills variant of flat land is hills and the mountains variant is
/// mountains.
pub proof fn lemma_variant_kind(t: BaseTerrain)
    requires
        spec_is_flat_land(t),
    ensures
        spec_hills().contains(spec_base_terrain_add(t, BaseTerrainVariant::Hills)),
        spec_mountains().contains(spec_base_terrain_add(t, BaseTerrainVariant::Mountains)),
        !spec_hills().contains(t),
        !spec_mountains().contains(t),
        !spec_is_water(t),
{
    lemma_hills_mountains_index(t);
    lemma_hills_mountains_index(spec_base_terrain_add(t, BaseTerrainVariant::Hills));
    lemma_hills_mountains_index(spec_base_terrain_add(t, BaseTerrainVariant::Mountains));
}

/// Climate zone of row `y` of a map with `h` rows. The latitude of the row's
/// center is `-90 + 180 * (y + 1/2) / h` degrees.
pub fn climate_zone(y: u32, h: u32) -> (r: ClimateZone)
    requires
        y < h <= MAX_MAP_SIDE,
    ensures
        r == spec_climate_zone(y as int, h as int),
{
    let s: i64 = 18000 * (2 * y as i64 + 1) - 18000 * h as i64;
    let hh = h as i64;
    if s >= 13314 * hh || s <= -13314 * hh {
        ClimateZone::Frigid
    } else if s >= 7000 * hh || s <= -7000 * hh {
        ClimateZone::Temperate
    } else if s >= 4686 * hh || s <= -4686 * hh {
        ClimateZone::Subtropics
    } else {
        ClimateZone::Tropics
    }
}

/// The base terrains from which flat land in a climate zone is drawn.
pub fn base_terrain_choices(zone: ClimateZone) -> (r: Vec<BaseTerrain>)
    ensures
        r@ == spec_base_terrain_choices(zone),
        r@.len() > 0,
{
    let r = match zone {
        ClimateZone::Frigid => vec![BaseTerrain::Tundra, BaseTerrain::Snow],
        ClimateZone::Temperate => vec![
            BaseTerrain::Plains,
            BaseTerrain::Plains,
            BaseTerrain::Plains,
            BaseTerrain::Grassland,
        ],
        ClimateZone::Subtropics => vec![
            BaseTerrain::Plains,
            BaseTerrain::Plains,
            BaseTerrain::Plains,
            BaseTerrain::Grassland,
            BaseTerrain::Grassland,
            BaseTerrain::Desert,
            BaseTerrain::Desert,
        ],
        ClimateZone::Tropics => vec![
            BaseTerrain::Plains,
            BaseTerrain::Plains,
            BaseTerrain::Grassland,
            BaseTerrain::Grassland,
            BaseTerrain::Grassland,
            BaseTerrain::Grassland,
            BaseTerrain::Desert,
        ],
    };
    assert(r@ =~= spec_base_terrain_choices(zone));
    r
}

/// The flat base terrain at position `index` of the choices of a climate zone.
pub fn base_terrain_choice(zone: ClimateZone, index: usize) -> (r: BaseTerrain)
    requires
        index < spec_base_terrain_choices(zone).len(),
    ensures
        r == spec_base_terrain_choices(zone)[index as int],
        spec_is_flat_land(r),
{
    let choices = base_terrain_choices(zone);
    choices[index]
}

/// The flat base terrain drawn in a climate zone from generator state
/// `seed`: the choice at the index drawn below the number of the zone's
/// choices, with the state after the draw.
pub open spec fn spec_choose_base_terrain(seed: u64, zone: ClimateZone) -> (BaseTerrain, u64) {
    let choices = spec_base_terrain_choices(zone);
    let (i, next) = spec_draw_index(seed, choices.len() as int);
    (choices[i.unwrap() as int], next)
}

/// Draws the flat base terrain of a tile in a climate zone.
pub fn choose_base_terrain_by_latitude(rng: &mut RngState, zone: ClimateZone) -> (r: BaseTerrain)
    ensures
        (r, final(rng).0) == spec_choose_base_terrain(old(rng).0, zone),
        spec_base_terrain_choices(zone).contains(r),
        spec_is_flat_land(r),
{
    let len = base_terrain_choices(zone).len();
    let index = choose_index(rng, len, usize::BITS).unwrap();
    let r = base_terrain_choice(zone, index);
    assert(spec_base_terrain_choices(zone)[index as int] == r);
    r
}

/// Base terrain of a tile in an elevation band whose flat land would be
/// `base`: ocean below sea level, otherwise `base` or its hills or mountains
/// variant.
pub fn tile_base_terrain(band: ElevationBand, base: BaseTerrain) -> (r: BaseTerrain)
    requires
        spec_is_flat_land(base),
    ensures
        r == spec_tile_base_terrain(band, base),
{
    match band {
        ElevationBand::Sea => BaseTerrain::Ocean,
        ElevationBand::Lowland => base,
        ElevationBand::Hills => base.add(BaseTerrainVariant::Hills),
        ElevationBand::Mountains => base.add(BaseTerrainVariant::Mountains),
    }
}

/// The base terrain drawn for a tile of the given elevation band and climate
/// zone from generator state `seed`, with the state after the draw: ocean
/// below sea level, where nothing is drawn; otherwise the drawn flat land or
/// its hills or mountains variant.
pub open spec fn spec_choose_tile_base_terrain(seed: u64, band: ElevationBand, zone: ClimateZone) -> (
    BaseTerrain,
    u64,
) {
    if band == ElevationBand::Sea {
        (BaseTerrain::Ocean, seed)
    } else {
        let (b, next) = spec_choose_base_terrain(seed, zone);
        (spec_tile_base_terrain(band, b), next)
    }
}

/// Draws the base terrain of a tile of the given elevation band and climate
/// zone. Below sea level the tile is ocean and nothing is drawn.
pub fn choose_tile_base_terrain(rng: &mut RngState, band: ElevationBand, zone: ClimateZone) -> (r:
    BaseTerrain)
    ensures
        (r, final(rng).0) == spec_choose_tile_base_terrain(old(rng).0, band, zone),
        band == ElevationBand::Sea ==> r == BaseTerrain::Ocean,
        band != ElevationBand::Sea ==> exists|b: BaseTerrain|
            #![trigger spec_tile_base_terrain(band, b)]
            spec_base_terrain_choices(zone).contains(b) && r == spec_tile_base_terrain(band, b),
{
    match band {
        ElevationBand::Sea => BaseTerrain::Ocean,
        _ => {
            let base = choose_base_terrain_by_latitude(rng, zone);
            let r = tile_base_terrain(band, base);
            assert(spec_tile_base_terrain(band, base) == r);
            r
        },
    }
}

// Terrain features.
/// Base terrains on which woods may grow.
pub open spec fn spec_woods_terrain(t: BaseTerrain) -> bool {
    t == BaseTerrain::Plains || t == BaseTerrain::PlainsHills || t == BaseTerrain::Grassland
        || t == BaseTerrain::GrasslandHills || t == BaseTerrain::Tundra || t
        == BaseTerrain::TundraHills
}

/// Base terrains on which rainforest may grow.
pub open spec fn spec_rainforest_terrain(t: BaseTerrain) -> bool {
    t == BaseTerrain::Plains || t == BaseTerrain::PlainsHills
}

/// The terrain feature of a tile, given the outcome of each draw that the
/// tile's terrain and climate zone call for: woods on woods terrain when
/// `woods` is drawn, otherwise rainforest on rainforest terrain outside the
/// frigid zone when `rainforest` is drawn, oasis on desert when `oasis` is
/// drawn, and ice on water in the frigid zone when `ice` is drawn.
pub open spec fn spec_terrain_feature(
    t: BaseTerrain,
    zone: ClimateZone,
    woods: bool,
    rainforest: bool,
    oasis: bool,
    ice: bool,
) -> Option<TerrainFeatures> {
    if spec_woods_terrain(t) && woods {
        Some(TerrainFeatures::Woods)
    } else if spec_rainforest_terrain(t) && zone != ClimateZone::Frigid && rainforest {
        Some(TerrainFeatures::Rainforest)
    } else if t == BaseTerrain::Desert && oasis {
        Some(TerrainFeatures::Oasis)
    } else if spec_is_water(t) && zone == ClimateZone::Frigid && ice {
        Some(TerrainFeatures::Ice)
    } else {
        None
    }
}

/// The terrain features that can grow on a tile.
pub open spec fn spec_feature_possible(
    t: BaseTerrain,
    zone: ClimateZone,
    f: Option<TerrainFeatures>,
) -> bool {
    match f {
        None => true,
        Some(TerrainFeatures::Woods) => spec_woods_terrain(t),
        Some(TerrainFeatures::Rainforest) => spec_rainforest_terrain(t) && zone
            != ClimateZone::Frigid,
        Some(TerrainFeatures::Oasis) => t == BaseTerrain::Desert,
        Some(TerrainFeatures::Ice) => spec_is_water(t) && zone == ClimateZone::Frigid,
        _ => false,
    }
}

/// The terrain feature of a tile, given the outcome of each draw.
pub fn terrain_feature(
    t: BaseTerrain,
    zone: ClimateZone,
    woods: bool,
    rainforest: bool,
    oasis: bool,
    ice: bool,
) -> (r: Option<TerrainFeatures>)
    ensures
        r == spec_terrain_feature(t, zone, woods, rainforest, oasis, ice),
        spec_feature_possible(t, zone, r),
{
    let woods_terrain = match t {
        BaseTerrain::Plains | BaseTerrain::PlainsHills | BaseTerrain::Grassland
        | BaseTerrain::GrasslandHills | BaseTerrain::Tundra | BaseTerrain::TundraHills => true,
        _ => false,
    };
    let rainforest_terrain = match t {
        BaseTerrain::Plains | BaseTerrain::PlainsHills => true,
        _ => false,
    };
    let frigid = match zone {
        ClimateZone::Frigid => true,
        _ => false,
    };
    if woods_terrain && woods {
        Some(TerrainFeatures::Woods)
    } else if rainforest_terrain && !frigid && rainforest {
        Some(TerrainFeatures::Rainforest)
    } else if t == BaseTerrain::Desert && oasis {
        Some(TerrainFeatures::Oasis)
    } else if t.is_water() && frigid && ice {
        Some(TerrainFeatures::Ice)
    } else {
        None
    }
}

/// A draw that decides whether a terrain feature grows on a tile.
#[derive(Copy, Clone, PartialEq, Eq, Structural, Debug, Hash)]
pub enum FeatureDraw {
    Woods,
    Rainforest,
    Oasis,
    Ice,
}

/// The outcomes among which a draw picks one at random: woods grow on a
/// fifth of their terrain; rainforest on a fifth in the temperate zone, a
/// tenth in the subtropics, a third in the tropics, and never in the frigid
/// zone; oasis on a fifth of desert; ice on three quarters of the water.
pub open spec fn spec_feature_choices(draw: FeatureDraw, zone: ClimateZone) -> Seq<bool> {
    match draw {
        FeatureDraw::Woods => seq![true, false, false, false, false],
        FeatureDraw::Rainforest => match zone {
            ClimateZone::Frigid => Seq::empty(),
            ClimateZone::Temperate => seq![true, false, false, false, false],
            ClimateZone::Subtropics => seq![
                true,
                false,
                false,
                false,
                false,
                false,
                false,
                false,
                false,
                false,
            ],
            ClimateZone::Tropics => seq![true, false, false],
        },
        FeatureDraw::Oasis => seq![true, false, false, false, false],
        FeatureDraw::Ice => seq![true, true, true, false],
    }
}

/// The outcomes among which a draw picks one at random.
pub fn feature_choices(draw: FeatureDraw, zone: ClimateZone) -> (r: Vec<bool>)
    ensures
        r@ == spec_feature_choices(draw, zone),
{
    let r = match draw {
        FeatureDraw::Woods => vec![true, false, false, false, false],
        FeatureDraw::Rainforest => match zone {
            ClimateZone::Frigid => Vec::new(),
            ClimateZone::Temperate => vec![true, false, false, false, false],
            ClimateZone::Subtropics => vec![
                true,
                false,
                false,
                false,
                false,
                false,
                false,
                false,
                false,
                false,
            ],
            ClimateZone::Tropics => vec![true, false, false],
        },
        FeatureDraw::Oasis => vec![true, false, false, false, false],
        FeatureDraw::Ice => vec![true, true, true, false],
    };
    assert(r@ =~= spec_feature_choices(draw, zone));
    r
}

/// The terrain feature drawn for a tile with base terrain `t` in a climate
/// zone from generator state `seed`, with the state after the draws. Each
/// draw picks among the `spec_feature_choices` of its feature and is made
/// only where the terrain and zone allow that feature: woods first, then,
/// where no woods grew, rainforest, then oasis, then ice.
pub open spec fn spec_choose_terrain_feature(seed: u64, t: BaseTerrain, zone: ClimateZone) -> (
    Option<TerrainFeatures>,
    u64,
) {
    let (woods, s1) = if spec_woods_terrain(t) {
        spec_pick_bool(seed, spec_feature_choices(FeatureDraw::Woods, zone))
    } else {
        (false, seed)
    };
    let (rainforest, s2) = if !woods && spec_rainforest_terrain(t) && zone != ClimateZone::Frigid {
        spec_pick_bool(s1, spec_feature_choices(FeatureDraw::Rainforest, zone))
    } else {
        (false, s1)
    };
    let (oasis, s3) = if t == BaseTerrain::Desert {
        spec_pick_bool(s2, spec_feature_choices(FeatureDraw::Oasis, zone))
    } else {
        (false, s2)
    };
    let (ice, s4) = if spec_is_water(t) && zone == ClimateZone::Frigid {
        spec_pick_bool(s3, spec_feature_choices(FeatureDraw::Ice, zone))
    } else {
        (false, s3)
    };
    (spec_terrain_feature(t, zone, woods, rainforest, oasis, ice), s4)
}

/// Draws the terrain feature of a tile with base terrain `t` in a climate
/// zone, each draw picking among `feature_choices`. A draw is made only
/// where its terrain and zone allow the feature: woods first, then, where
/// no woods grow, rainforest, then oasis, then ice.
#[verifier::spinoff_prover]
pub fn choose_terrain_feature(rng: &mut RngState, t: BaseTerrain, zone: ClimateZone) -> (r: Option<
    TerrainFeatures,
>)
    ensures
        (r, final(rng).0) == spec_choose_terrain_feature(old(rng).0, t, zone),
        spec_feature_possible(t, zone, r),
{
    let woods_terrain = match t {
        BaseTerrain::Plains | BaseTerrain::PlainsHills | BaseTerrain::Grassland
        | BaseTerrain::GrasslandHills | BaseTerrain::Tundra | BaseTerrain::TundraHills => true,
        _ => false,
    };
    let rainforest_terrain = match t {
        BaseTerrain::Plains | BaseTerrain::PlainsHills => true,
        _ => false,
    };
    let frigid = zone == ClimateZone::Frigid;
    let woods = woods_terrain && pick_bool(rng, feature_choices(FeatureDraw::Woods, zone).as_slice());
    let rainforest = !woods && rainforest_terrain && !frigid && pick_bool(
        rng,
        feature_choices(FeatureDraw::Rainforest, zone).as_slice(),
    );
    let oasis = t == BaseTerrain::Desert && pick_bool(
        rng,
        feature_choices(FeatureDraw::Oasis, zone).as_slice(),
    );
    let ice = t.is_water() && frigid && pick_bool(
        rng,
        feature_choices(FeatureDraw::Ice, zone).as_slice(),
    );
    terrain_feature(t, zone, woods, rainforest, oasis, ice)
}

// The map of base terrain.
/// Base terrain of every tile of a map, stored column by column.
pub struct TerrainMap {
    pub size: TilemapSize,
    pub tiles: Vec<BaseTerrain>,
}

/// Position in the tile vector of the tile at `pos`.
pub open spec fn spec_tile_index(pos: TilePos, size: TilemapSize) -> int {
    pos.x * size.y + pos.y
}

/// Position in the tile vector of the tile at `pos`.
pub fn tile_index(pos: TilePos, size: TilemapSize) -> (r: usize)
    requires
        valid_size(size),
        in_map(pos, size),
    ensures
        r == spec_tile_index(pos, size),
        r < size.x * size.y,
{
    proof {
        lemma_tile_index_bound(pos, size);
    }
    (pos.x as usize) * (size.y as usize) + pos.y as usize
}

/// Tile indices of the tiles of a map are distinct and lie within the tile
/// vector.
pub proof fn lemma_tile_index_bound(pos: TilePos, size: TilemapSize)
    requires
        valid_size(size),
        in_map(pos, size),
    ensures
        0 <= spec_tile_index(pos, size) < size.x * size.y,
        size.x * size.y <= MAX_MAP_SIDE * MAX_MAP_SIDE,
{
    assert(pos.x * size.y + pos.y < size.x * size.y) by (nonlinear_arith)
        requires
            pos.x < size.x,
            pos.y < size.y,
    ;
    assert(size.x * size.y <= MAX_MAP_SIDE * MAX_MAP_SIDE) by (nonlinear_arith)
        requires
            size.x <= MAX_MAP_SIDE,
            size.y <= MAX_MAP_SIDE,
    ;
}

/// Distinct positions of a map have distinct tile indices.
pub proof fn lemma_tile_index_injective(a: TilePos, b: TilePos, size: TilemapSize)
    requires
        valid_size(size),
        in_map(a, size),
        in_map(b, size),
        spec_tile_index(a, size) == spec_tile_index(b, size),
    ensures
        a == b,
{
    assert(a.x == b.x) by (nonlinear_arith)
        requires
            a.x * size.y + a.y == b.x * size.y + b.y,
            a.y < size.y,
            b.y < size.y,
            0 <= a.y,
            0 <= b.y,
    ;
}

/// The position whose tile index is `i`.
pub open spec fn spec_tile_pos_of(i: int, size: TilemapSize) -> TilePos {
    TilePos { x: (i / size.y as int) as u32, y: (i % size.y as int) as u32 }
}

/// Every index of the tile vector is the index of a position of the map.
pub proof fn lemma_tile_pos_of(i: int, size: TilemapSize)
    requires
        valid_size(size),
        0 <= i < size.x * size.y,
    ensures
        in_map(spec_tile_pos_of(i, size), size),
        spec_tile_index(spec_tile_pos_of(i, size), size) == i,
{
    let y = size.y as int;
    let x = size.x as int;
    assert(i / y < x && i % y < y && (i / y) * y + i % y == i && 0 <= i / y && 0 <= i % y) by (nonlinear_arith)
        requires
            0 <= i < x * y,
            y > 0,
            x > 0,
    ;
}

impl TerrainMap {
    /// The map holds one base terrain for every tile.
    pub open spec fn wf(&self) -> bool {
        valid_size(self.size) && self.tiles@.len() == self.size.x * self.size.y
    }

    /// Base terrain at `pos`.
    pub open spec fn at(&self, pos: TilePos) -> BaseTerrain {
        self.tiles@[spec_tile_index(pos, self.size)]
    }

    /// Base terrain at `pos`.
    pub fn get(&self, pos: TilePos) -> (r: BaseTerrain)
        requires
            self.wf(),
            in_map(pos, self.size),
        ensures
            r == self.at(pos),
    {
        self.tiles[tile_index(pos, self.size)]
    }
}

/// The neighbor of `pos` in direction `i` lies on the map and is land.
pub open spec fn spec_land_in_dir(m: TerrainMap, pos: TilePos, i: int) -> bool {
    match spec_neighbor(pos, dir_of(i), m.size) {
        Some(n) => !spec_is_water(m.at(n)),
        None => false,
    }
}

/// Some neighbor of `pos` on the map is land.
pub open spec fn spec_has_land_neighbor(m: TerrainMap, pos: TilePos) -> bool {
    exists|i: int| 0 <= i < 6 && #[trigger] spec_land_in_dir(m, pos, i)
}

/// Base terrain of a tile after conversion of shallow ocean: ocean next to
/// land becomes coast.
pub open spec fn spec_coast_tile(m: TerrainMap, pos: TilePos) -> BaseTerrain {
    if m.at(pos) == BaseTerrain::Ocean && spec_has_land_neighbor(m, pos) {
        BaseTerrain::Coast
    } else {
        m.at(pos)
    }
}

/// Whether a tile has a land neighbor depends only on which tiles are water.
proof fn lemma_land_neighbor_same_water(a: TerrainMap, b: TerrainMap, pos: TilePos)
    requires
        a.wf(),
        b.wf(),
        a.size == b.size,
        in_map(pos, a.size),
        forall|i: int|
            0 <= i < a.size.x * a.size.y ==> spec_is_water(#[trigger] a.tiles@[i])
                == spec_is_water(b.tiles@[i]),
    ensures
        spec_has_land_neighbor(a, pos) == spec_has_land_neighbor(b, pos),
{
    assert forall|i: int| 0 <= i < 6 implies #[trigger] spec_land_in_dir(a, pos, i)
        == spec_land_in_dir(b, pos, i) by {
        if let Some(n) = spec_neighbor(pos, dir_of(i), a.size) {
            lemma_tile_index_bound(n, a.size);
            let k = spec_tile_index(n, a.size);
            assert(spec_is_water(a.tiles@[k]) == spec_is_water(b.tiles@[k]));
        }
    }
    if spec_has_land_neighbor(a, pos) {
        let i = choose|i: int| 0 <= i < 6 && #[trigger] spec_land_in_dir(a, pos, i);
        assert(spec_land_in_dir(b, pos, i));
    }
    if spec_has_land_neighbor(b, pos) {
        let i = choose|i: int| 0 <= i < 6 && #[trigger] spec_land_in_dir(b, pos, i);
        assert(spec_land_in_dir(a, pos, i));
    }
}

/// Converting coasts a second time changes nothing: coast never touches
/// land that was not there before, and ocean left over has no land
/// neighbor.
pub proof fn lemma_coasts_idempotent(m: TerrainMap, c: TerrainMap, pos: TilePos)
    requires
        m.wf(),
        c.wf(),
        c.size == m.size,
        forall|p: TilePos| in_map(p, m.size) ==> #[trigger] c.at(p) == spec_coast_tile(m, p),
        in_map(pos, m.size),
    ensures
        spec_coast_tile(c, pos) == c.at(pos),
{
    assert forall|i: int|
        0 <= i < c.size.x * c.size.y implies spec_is_water(#[trigger] c.tiles@[i]) == spec_is_water(
        m.tiles@[i],
    ) by {
        lemma_tile_pos_of(i, m.size);
        let p = spec_tile_pos_of(i, m.size);
        assert(c.at(p) == spec_coast_tile(m, p));
    }
    lemma_land_neighbor_same_water(c, m, pos);
}

/// Whether `pos` has a land neighbor, looking at the base terrain in `tiles`.
fn has_land_neighbor(tiles: &Vec<BaseTerrain>, size: TilemapSize, pos: TilePos) -> (r: bool)
    requires
        valid_size(size),
        in_map(pos, size),
        tiles@.len() == size.x * size.y,
    ensures
        r == spec_has_land_neighbor(TerrainMap { size, tiles: *tiles }, pos),
{
    let ghost m = TerrainMap { size, tiles: *tiles };
    let dirs = HexDirection::all();
    let mut i: usize = 0;
    while i < 6
        invariant
            0 <= i <= 6,
            valid_size(size),
            in_map(pos, size),
            tiles@.len() == size.x * size.y,
            m == (TerrainMap { size, tiles: *tiles }),
            forall|k: int| 0 <= k < 6 ==> dir_index(#[trigger] dirs[k]) == k,
            forall|j: int| 0 <= j < i ==> !#[trigger] spec_land_in_dir(m, pos, j),
        decreases 6 - i,
    {
        let d = dirs[i];
        assert(d == dir_of(i as int));
        if let Some(n) = neighbor(pos, d, size) {
            let t = tiles[tile_index(n, size)];
            if !t.is_water() {
                assert(spec_land_in_dir(m, pos, i as int));
                return true;
            }
        }
        i += 1;
    }
    false
}

/// Converts shallow ocean into coast: every ocean tile next to land becomes
/// coast. Tiles are visited column by column and changed in place; as only
/// ocean turns into coast, and both count as water, the order of the visits
/// does not change the result, which is stated over the map as it was before.
#[verifier::spinoff_prover]
pub fn convert_coasts(m: &mut TerrainMap)
    requires
        old(m).wf(),
    ensures
        final(m).wf(),
        final(m).size == old(m).size,
        forall|pos: TilePos|
            in_map(pos, old(m).size) ==> #[trigger] final(m).at(pos) == spec_coast_tile(
                *old(m),
                pos,
            ),
{
    let ghost orig = *m;
    let size = m.size;
    proof {
        lemma_tile_index_bound(TilePos { x: 0, y: 0 }, size);
    }
    let mut x: u32 = 0;
    while x < size.x
        invariant
            valid_size(size),
            m.size == size,
            orig.wf(),
            orig.size == size,
            m.tiles@.len() == size.x * size.y,
            x <= size.x,
            forall|i: int|
                0 <= i < size.x * size.y ==> spec_is_water(#[trigger] m.tiles@[i])
                    == spec_is_water(orig.tiles@[i]),
            forall|p: TilePos|
                in_map(p, size) && p.x < x ==> #[trigger] m.at(p) == spec_coast_tile(orig, p),
            forall|p: TilePos| in_map(p, size) && p.x >= x ==> #[trigger] m.at(p) == orig.at(p),
        decreases size.x - x,
    {
        let mut y: u32 = 0;
        while y < size.y
            invariant
                valid_size(size),
                m.size == size,
                orig.wf(),
                orig.size == size,
                m.tiles@.len() == size.x * size.y,
                x < size.x,
                y <= size.y,
                forall|i: int|
                    0 <= i < size.x * size.y ==> spec_is_water(#[trigger] m.tiles@[i])
                        == spec_is_water(orig.tiles@[i]),
                forall|p: TilePos|
                    in_map(p, size) && (p.x < x || (p.x == x && p.y < y)) ==> #[trigger] m.at(p)
                        == spec_coast_tile(orig, p),
                forall|p: TilePos|
                    in_map(p, size) && (p.x > x || (p.x == x && p.y >= y)) ==> #[trigger] m.at(p)
                        == orig.at(p),
            decreases size.y - y,
        {
            let pos = TilePos { x, y };
            let idx = tile_index(pos, size);
            let t = m.tiles[idx];
            let land = has_land_neighbor(&m.tiles, size, pos);
            proof {
                let cur = TerrainMap { size, tiles: m.tiles };
                lemma_land_neighbor_same_water(cur, orig, pos);
            }
            let ghost prev = m.tiles@;
            let ghost prev_m = *m;
            if t == BaseTerrain::Ocean && land {
                m.tiles.set(idx, BaseTerrain::Coast);
            }
            proof {
                assert forall|p: TilePos| in_map(p, size) && p != pos implies #[trigger] m.tiles@[
                    spec_tile_index(p, size)] == prev[spec_tile_index(p, size)] by {
                    lemma_tile_index_bound(p, size);
                    if spec_tile_index(p, size) == spec_tile_index(pos, size) {
                        lemma_tile_index_injective(p, pos, size);
                    }
                }
                assert forall|p: TilePos|
                    in_map(p, size) && (p.x > x || (p.x == x && p.y >= y + 1)) implies #[trigger] m.at(p)
                        == orig.at(p) by {
                    lemma_tile_index_bound(p, size);
                    assert(prev_m.at(p) == orig.at(p));
                    assert(m.tiles@[spec_tile_index(p, size)] == prev[spec_tile_index(p, size)]);
                }
                assert forall|p: TilePos|
                    in_map(p, size) && (p.x < x || (p.x == x && p.y < y + 1)) implies #[trigger] m.at(p)
                        == spec_coast_tile(orig, p) by {
                    if p != pos {
                        lemma_tile_index_bound(p, size);
                        assert(prev_m.at(p) == spec_coast_tile(orig, p));
                        assert(m.tiles@[spec_tile_index(p, size)] == prev[spec_tile_index(p, size)]);
                    }
                }
            }
            y += 1;
        }
        x += 1;
    }
}

// Drawing the terrain of a whole map.
/// The base terrain drawn for the first `n` tiles, column by column, of a
/// map of size `size` whose tiles lie in the elevation bands `bands`, from
/// generator state `seed`, with the state after the draws. Each tile's
/// climate zone is that of its row.
pub open spec fn spec_choose_base_terrain_tiles(
    seed: u64,
    size: TilemapSize,
    bands: Seq<ElevationBand>,
    n: int,
) -> (Seq<BaseTerrain>, u64)
    decreases n,
{
    if n <= 0 {
        (Seq::empty(), seed)
    } else {
        let (prev, s) = spec_choose_base_terrain_tiles(seed, size, bands, n - 1);
        let (t, next) = spec_choose_tile_base_terrain(
            s,
            bands[n - 1],
            spec_climate_zone((n - 1) % (size.y as int), size.y as int),
        );
        (prev.push(t), next)
    }
}

/// Draws the base terrain of every tile of a map of size `size`, column by
/// column, from the elevation band of each tile (stored column by column).
pub fn choose_base_terrain_map(rng: &mut RngState, size: TilemapSize, bands: &Vec<ElevationBand>) -> (r:
    TerrainMap)
    requires
        valid_size(size),
        bands@.len() == size.x * size.y,
    ensures
        r.size == size,
        r.wf(),
        (r.tiles@, final(rng).0) == spec_choose_base_terrain_tiles(
            old(rng).0,
            size,
            bands@,
            bands@.len() as int,
        ),
{
    let mut tiles: Vec<BaseTerrain> = Vec::new();
    let h = size.y as usize;
    let mut k: usize = 0;
    while k < bands.len()
        invariant
            valid_size(size),
            h == size.y,
            k <= bands@.len(),
            tiles@.len() == k,
            (tiles@, rng.0) == spec_choose_base_terrain_tiles(old(rng).0, size, bands@, k as int),
        decreases bands@.len() - k,
    {
        let y = (k % h) as u32;
        let zone = climate_zone(y, size.y);
        let t = choose_tile_base_terrain(rng, bands[k], zone);
        tiles.push(t);
        k += 1;
    }
    TerrainMap { size, tiles }
}

/// The terrain features drawn for the first `n` tiles, column by column, of
/// a map whose base terrain is `tiles` and which has `h` rows, from
/// generator state `seed`, with the state after the draws. Each tile's
/// climate zone is that of its row.
pub open spec fn spec_choose_terrain_features(seed: u64, tiles: Seq<BaseTerrain>, h: int, n: int) -> (
    Seq<Option<TerrainFeatures>>,
    u64,
)
    decreases n,
{
    if n <= 0 {
        (Seq::empty(), seed)
    } else {
        let (prev, s) = spec_choose_terrain_features(seed, tiles, h, n - 1);
        let (f, next) = spec_choose_terrain_feature(
            s,
            tiles[n - 1],
            spec_climate_zone((n - 1) % h, h),
        );
        (prev.push(f), next)
    }
}

/// Draws the terrain feature of every tile of a map, column by column.
pub fn choose_terrain_features(rng: &mut RngState, map: &TerrainMap) -> (r: Vec<
    Option<TerrainFeatures>,
>)
    requires
        map.wf(),
    ensures
        (r@, final(rng).0) == spec_choose_terrain_features(
            old(rng).0,
            map.tiles@,
            map.size.y as int,
            map.tiles@.len() as int,
        ),
{
    let mut features: Vec<Option<TerrainFeatures>> = Vec::new();
    let h = map.size.y as usize;
    let mut k: usize = 0;
    while k < map.tiles.len()
        invariant
            map.wf(),
            h == map.size.y,
            k <= map.tiles@.len(),
            (features@, rng.0) == spec_choose_terrain_features(
                old(rng).0,
                map.tiles@,
                map.size.y as int,
                k as int,
            ),
        decreases map.tiles@.len() - k,
    {
        let y = (k % h) as u32;
        let zone = climate_zone(y, map.size.y);
        let f = choose_terrain_feature(rng, map.tiles[k], zone);
        features.push(f);
        k += 1;
    }
    features
}

/// Generators in equal states draw the same base terrain from the same
/// elevation bands and the same features on the same base terrain, and end
/// in equal states: the map that the host draws from the map seed is the map
/// that every other player draws from it.
pub proof fn lemma_map_draws_deterministic(
    a: RngState,
    b: RngState,
    size: TilemapSize,
    bands: Seq<ElevationBand>,
    tiles: Seq<BaseTerrain>,
)
    requires
        a == b,
    ensures
        spec_choose_base_terrain_tiles(a.0, size, bands, bands.len() as int)
            == spec_choose_base_terrain_tiles(b.0, size, bands, bands.len() as int),
        spec_choose_terrain_features(a.0, tiles, size.y as int, tiles.len() as int)
            == spec_choose_terrain_features(b.0, tiles, size.y as int, tiles.len() as int),
{
}

/// Rows that lie as far north of the equator as the other lies south of it
/// are in the same climate zone, so a generator draws the same base terrain
/// for either from the same state.
pub proof fn lemma_climate_zone_mirrored(seed: u64, y: int, h: int)
    requires
        0 <= y < h,
    ensures
        spec_climate_zone(y, h) == spec_climate_zone(h - 1 - y, h),
        spec_choose_base_terrain(seed, spec_climate_zone(y, h)) == spec_choose_base_terrain(
            seed,
            spec_climate_zone(h - 1 - y, h),
        ),
{
    assert(spec_scaled_latitude(h - 1 - y, h) == -spec_scaled_latitude(y, h));
}

// Laws of terrain generation.
/// How many of the first `n` items of `s` are `t`.
pub open spec fn spec_count_upto(s: Seq<BaseTerrain>, t: BaseTerrain, n: int) -> int
    decreases n,
{
    if n <= 0 {
        0
    } else {
        spec_count_upto(s, t, n - 1) + if s[n - 1] == t {
            1int
        } else {
            0int
        }
    }
}

/// How many items of `s` are `t`.
pub open spec fn spec_count(s: Seq<BaseTerrain>, t: BaseTerrain) -> int {
    spec_count_upto(s, t, s.len() as int)
}

/// The odds of each flat land in each climate zone, as counts among the
/// zone's choices: tundra and snow alike beyond the polar circles; three
/// plains to one grassland in the temperate zone; three plains, two
/// grassland and two desert in the subtropics; two plains, four grassland
/// and one desert in the tropics. Nothing else is ever drawn, so no desert
/// in the temperate zone and none beyond the polar circles.
pub proof fn lemma_base_terrain_odds()
    ensures
        spec_base_terrain_choices(ClimateZone::Frigid).len() == 2,
        spec_count(spec_base_terrain_choices(ClimateZone::Frigid), BaseTerrain::Tundra) == 1,
        spec_count(spec_base_terrain_choices(ClimateZone::Frigid), BaseTerrain::Snow) == 1,
        spec_base_terrain_choices(ClimateZone::Temperate).len() == 4,
        spec_count(spec_base_terrain_choices(ClimateZone::Temperate), BaseTerrain::Plains) == 3,
        spec_count(spec_base_terrain_choices(ClimateZone::Temperate), BaseTerrain::Grassland) == 1,
        spec_base_terrain_choices(ClimateZone::Subtropics).len() == 7,
        spec_count(spec_base_terrain_choices(ClimateZone::Subtropics), BaseTerrain::Plains) == 3,
        spec_count(spec_base_terrain_choices(ClimateZone::Subtropics), BaseTerrain::Grassland) == 2,
        spec_count(spec_base_terrain_choices(ClimateZone::Subtropics), BaseTerrain::Desert) == 2,
        spec_base_terrain_choices(ClimateZone::Tropics).len() == 7,
        spec_count(spec_base_terrain_choices(ClimateZone::Tropics), BaseTerrain::Plains) == 2,
        spec_count(spec_base_terrain_choices(ClimateZone::Tropics), BaseTerrain::Grassland) == 4,
        spec_count(spec_base_terrain_choices(ClimateZone::Tropics), BaseTerrain::Desert) == 1,
{
    reveal_with_fuel(spec_count_upto, 8);
}

/// Whatever index is drawn, temperate land is plains or grassland, and land
/// beyond the polar circles is tundra or snow.
pub proof fn lemma_zone_draws_no_desert(i: int)
    ensures
        0 <= i < spec_base_terrain_choices(ClimateZone::Temperate).len() ==> {
            let b = spec_base_terrain_choices(ClimateZone::Temperate)[i];
            b == BaseTerrain::Plains || b == BaseTerrain::Grassland
        },
        0 <= i < spec_base_terrain_choices(ClimateZone::Frigid).len() ==> {
            let b = spec_base_terrain_choices(ClimateZone::Frigid)[i];
            b == BaseTerrain::Tundra || b == BaseTerrain::Snow
        },
{
}

/// Terrain on which woods can grow: plains, grassland and tundra, and their
/// hills.
pub open spec fn spec_woodland(t: BaseTerrain) -> bool {
    ||| t == BaseTerrain::Plains
    ||| t == BaseTerrain::Grassland
    ||| t == BaseTerrain::Tundra
    ||| t == spec_base_terrain_add(BaseTerrain::Plains, BaseTerrainVariant::Hills)
    ||| t == spec_base_terrain_add(BaseTerrain::Grassland, BaseTerrainVariant::Hills)
    ||| t == spec_base_terrain_add(BaseTerrain::Tundra, BaseTerrainVariant::Hills)
}

/// A tile grows woods exactly when it is woodland and woods are drawn,
/// whatever the other draws and the zone; and drawing a tile's feature
/// gives woods exactly when the tile is woodland and the first draw, among
/// the woods choices, says so.
pub proof fn lemma_woods_grow_on_woodland(
    seed: u64,
    t: BaseTerrain,
    zone: ClimateZone,
    woods: bool,
    rainforest: bool,
    oasis: bool,
    ice: bool,
)
    ensures
        (spec_terrain_feature(t, zone, woods, rainforest, oasis, ice) == Some(
            TerrainFeatures::Woods,
        )) == (woods && spec_woodland(t)),
        (spec_choose_terrain_feature(seed, t, zone).0 == Some(TerrainFeatures::Woods)) == (
        spec_woodland(t) && spec_pick_bool(seed, spec_feature_choices(FeatureDraw::Woods, zone)).0),
{
}

/// Every feature grows where its terrain, zone and draw allow it, woods
/// taking precedence: rainforest on plains and their hills outside the
/// frigid zone where no woods grew; oasis only on desert; ice only on water
/// in the frigid zone; nothing else ever grows.
pub proof fn lemma_features_grow_where_allowed(
    t: BaseTerrain,
    zone: ClimateZone,
    woods: bool,
    rainforest: bool,
    oasis: bool,
    ice: bool,
)
    ensures
        (spec_terrain_feature(t, zone, woods, rainforest, oasis, ice) == Some(
            TerrainFeatures::Rainforest,
        )) == (!(woods && spec_woodland(t)) && rainforest && zone != ClimateZone::Frigid && (t
            == BaseTerrain::Plains || t == spec_base_terrain_add(
            BaseTerrain::Plains,
            BaseTerrainVariant::Hills,
        ))),
        (spec_terrain_feature(t, zone, woods, rainforest, oasis, ice) == Some(
            TerrainFeatures::Oasis,
        )) == (oasis && t == BaseTerrain::Desert),
        (spec_terrain_feature(t, zone, woods, rainforest, oasis, ice) == Some(TerrainFeatures::Ice))
            == (ice && zone == ClimateZone::Frigid && (t == BaseTerrain::Ocean || t
            == BaseTerrain::Coast)),
        spec_terrain_feature(t, zone, woods, rainforest, oasis, ice) is None || spec_terrain_feature(
            t,
            zone,
            woods,
            rainforest,
            oasis,
            ice,
        ) == Some(TerrainFeatures::Woods) || spec_terrain_feature(
            t,
            zone,
            woods,
            rainforest,
            oasis,
            ice,
        ) == Some(TerrainFeatures::Rainforest) || spec_terrain_feature(
            t,
            zone,
            woods,
            rainforest,
            oasis,
            ice,
        ) == Some(TerrainFeatures::Oasis) || spec_terrain_feature(t, zone, woods, rainforest, oasis, ice)
            == Some(TerrainFeatures::Ice),
{
}

/// How many of `s` are `true`.
pub open spec fn spec_count_true(s: Seq<bool>, n: int) -> int
    decreases n,
{
    if n <= 0 {
        0
    } else {
        spec_count_true(s, n - 1) + if s[n - 1] {
            1int
        } else {
            0int
        }
    }
}

/// The odds of each feature draw, as the number of successes among its
/// choices: woods and oasis one in five; rainforest one in five in the
/// temperate zone, one in ten in the subtropics, one in three in the
/// tropics; ice three in four.
pub proof fn lemma_feature_odds()
    ensures
        spec_feature_choices(FeatureDraw::Woods, ClimateZone::Temperate).len() == 5,
        spec_count_true(spec_feature_choices(FeatureDraw::Woods, ClimateZone::Temperate), 5) == 1,
        spec_feature_choices(FeatureDraw::Woods, ClimateZone::Frigid) == spec_feature_choices(
            FeatureDraw::Woods,
            ClimateZone::Temperate,
        ),
        spec_feature_choices(FeatureDraw::Woods, ClimateZone::Subtropics) == spec_feature_choices(
            FeatureDraw::Woods,
            ClimateZone::Temperate,
        ),
        spec_feature_choices(FeatureDraw::Woods, ClimateZone::Tropics) == spec_feature_choices(
            FeatureDraw::Woods,
            ClimateZone::Temperate,
        ),
        spec_feature_choices(FeatureDraw::Oasis, ClimateZone::Subtropics).len() == 5,
        spec_count_true(spec_feature_choices(FeatureDraw::Oasis, ClimateZone::Subtropics), 5) == 1,
        spec_feature_choices(FeatureDraw::Rainforest, ClimateZone::Temperate).len() == 5,
        spec_count_true(spec_feature_choices(FeatureDraw::Rainforest, ClimateZone::Temperate), 5)
            == 1,
        spec_feature_choices(FeatureDraw::Rainforest, ClimateZone::Subtropics).len() == 10,
        spec_count_true(spec_feature_choices(FeatureDraw::Rainforest, ClimateZone::Subtropics), 10)
            == 1,
        spec_feature_choices(FeatureDraw::Rainforest, ClimateZone::Tropics).len() == 3,
        spec_count_true(spec_feature_choices(FeatureDraw::Rainforest, ClimateZone::Tropics), 3)
            == 1,
        spec_feature_choices(FeatureDraw::Ice, ClimateZone::Frigid).len() == 4,
        spec_count_true(spec_feature_choices(FeatureDraw::Ice, ClimateZone::Frigid), 4) == 3,
{
    reveal_with_fuel(spec_count_true, 11);
}

} // verus!
