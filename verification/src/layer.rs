//! The layers of the map, from the terrain at the bottom to the units on
//! top, each drawn as its own tilemap.
use vstd::prelude::*;

verus! {

/// Layer of base terrain.
pub struct BaseTerrainLayer;

/// Layer of rivers.
pub struct RiverLayer;

/// Layer of terrain features.
pub struct TerrainFeaturesLayer;

/// Layer that marks the active unit.
pub struct UnitSelectionLayer;

/// Layer of unit states.
pub struct UnitStateLayer;

/// Layer of civilian units.
pub struct CivilianUnitLayer;

/// Layer of land military units.
pub struct LandMilitaryUnitLayer;

/// Drawing order of a layer: layers with a higher index are drawn on top.
pub trait LayerZIndex {
    fn z_index() -> u8;
}

impl LayerZIndex for BaseTerrainLayer {
    fn z_index() -> (r: u8)
        ensures
            r == 0,
    {
        0
    }
}

impl LayerZIndex for RiverLayer {
    fn z_index() -> (r: u8)
        ensures
            r == 1,
    {
        1
    }
}

impl LayerZIndex for TerrainFeaturesLayer {
    fn z_index() -> (r: u8)
        ensures
            r == 2,
    {
        2
    }
}

impl LayerZIndex for UnitSelectionLayer {
    fn z_index() -> (r: u8)
        ensures
            r == 4,
    {
        4
    }
}

impl LayerZIndex for UnitStateLayer {
    fn z_index() -> (r: u8)
        ensures
            r == 5,
    {
        5
    }
}

impl LayerZIndex for CivilianUnitLayer {
    fn z_index() -> (r: u8)
        ensures
            r == 6,
    {
        6
    }
}

impl LayerZIndex for LandMilitaryUnitLayer {
    fn z_index() -> (r: u8)
        ensures
            r == 6,
    {
        6
    }
}

} // verus!
