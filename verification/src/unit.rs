//! Units: their kinds, movement points and states, the tiles that show them,
//! and the rules for selecting, ordering and moving them.
use vstd::prelude::*;

use crate::civilization::{spec_colors, Civilization};
use crate::hex::TilePos;
use crate::state::TurnState;

verus! {

/// Identity of a unit, shared by all players (a UUID as an integer).
#[derive(Copy, Clone, PartialEq, Eq, Structural, Debug, Hash)]
pub struct UnitId(pub u128);

/// Kind of a unit.
#[derive(Copy, Clone, PartialEq, Eq, Structural, Debug, Hash)]
pub enum UnitType {
    Civilian(CivilianUnit),
    LandMilitary(LandMilitaryUnit),
}

/// Civilian unit kind; its index is its texture index.
#[derive(Copy, Clone, PartialEq, Eq, Structural, Debug, Hash)]
pub enum CivilianUnit {
    Settler,
}

/// Land military unit kind; its index is its texture index.
#[derive(Copy, Clone, PartialEq, Eq, Structural, Debug, Hash)]
pub enum LandMilitaryUnit {
    Warrior,
}

/// Movement points a unit has left this turn. It can fall below zero when a
/// unit with full movement points makes a move that costs more.
#[derive(Copy, Clone, PartialEq, Eq, Structural, Debug, Hash)]
pub struct MovementPoints(pub i32);

/// Movement points of a unit at the start of a turn.
#[derive(Copy, Clone, PartialEq, Eq, Structural, Debug, Hash)]
pub struct FullMovementPoints(pub i32);

/// The civilization that controls a unit.
#[derive(Copy, Clone, PartialEq, Eq, Structural, Debug, Hash)]
pub struct Civ(pub Civilization);

/// State of a unit, shown by the unit state tile; its index is the texture
/// index of that tile.
#[derive(Copy, Clone, PartialEq, Eq, Structural, Debug, Hash)]
pub enum UnitState {
    CivilianReady,
    LandMilitaryReady,
    LandMilitaryFortified,
    CivilianReadyOutOfOrders,
    LandMilitaryReadyOutOfOrders,
    LandMilitaryFortifiedOutOfOrders,
    CivilianOutOfMoves,
    LandMilitaryOutOfMoves,
}

/// Modifier of a ready or fortified unit state: the unit has no orders
/// left this turn. Its index is the distance between the indices of the
/// plain and the modified state.
#[derive(Copy, Clone, PartialEq, Eq, Structural, Debug, Hash)]
pub enum UnitStateModifier {
    OutOfOrders,
}

/// Texture of the unit selection tile.
#[derive(Copy, Clone, PartialEq, Eq, Structural, Debug, Hash)]
pub enum UnitSelection {
    Active,
}

pub open spec fn spec_unit_state_index(s: UnitState) -> int {
    match s {
        UnitState::CivilianReady => 0,
        UnitState::LandMilitaryReady => 1,
        UnitState::LandMilitaryFortified => 2,
        UnitState::CivilianReadyOutOfOrders => 3,
        UnitState::LandMilitaryReadyOutOfOrders => 4,
        UnitState::LandMilitaryFortifiedOutOfOrders => 5,
        UnitState::CivilianOutOfMoves => 6,
        UnitState::LandMilitaryOutOfMoves => 7,
    }
}

pub open spec fn spec_unit_state_of(i: int) -> UnitState {
    if i == 0 {
        UnitState::CivilianReady
    } else if i == 1 {
        UnitState::LandMilitaryReady
    } else if i == 2 {
        UnitState::LandMilitaryFortified
    } else if i == 3 {
        UnitState::CivilianReadyOutOfOrders
    } else if i == 4 {
        UnitState::LandMilitaryReadyOutOfOrders
    } else if i == 5 {
        UnitState::LandMilitaryFortifiedOutOfOrders
    } else if i == 6 {
        UnitState::CivilianOutOfMoves
    } else {
        UnitState::LandMilitaryOutOfMoves
    }
}

/// A unit state that the out-of-orders modifier applies to.
pub open spec fn spec_is_plain_state(s: UnitState) -> bool {
    spec_unit_state_index(s) < 3
}

/// A unit that has orders left and movement points: ready, not fortified.
pub open spec fn spec_is_ready(s: UnitState) -> bool {
    s == UnitState::CivilianReady || s == UnitState::LandMilitaryReady
}

/// A unit with no movement points left.
pub open spec fn spec_is_out_of_moves(s: UnitState) -> bool {
    s == UnitState::CivilianOutOfMoves || s == UnitState::LandMilitaryOutOfMoves
}

pub open spec fn spec_movement_points(t: UnitType) -> int {
    match t {
        UnitType::Civilian(CivilianUnit::Settler) => 2,
        UnitType::LandMilitary(LandMilitaryUnit::Warrior) => 2,
    }
}

/// The state a unit takes when it is told to skip its turn: ready units
/// and fortified units become ready without orders; other states stay.
pub open spec fn spec_out_of_orders_state(s: UnitState) -> UnitState {
    match s {
        UnitState::CivilianReady => UnitState::CivilianReadyOutOfOrders,
        UnitState::LandMilitaryReady => UnitState::LandMilitaryReadyOutOfOrders,
        UnitState::LandMilitaryFortified => UnitState::LandMilitaryReadyOutOfOrders,
        UnitState::LandMilitaryFortifiedOutOfOrders => UnitState::LandMilitaryReadyOutOfOrders,
        _ => s,
    }
}

/// The state of a unit that has used up its movement points.
pub open spec fn spec_out_of_moves_state(s: UnitState) -> UnitState {
    match s {
        UnitState::CivilianReady | UnitState::CivilianReadyOutOfOrders => {
            UnitState::CivilianOutOfMoves
        },
        _ => UnitState::LandMilitaryOutOfMoves,
    }
}

impl UnitState {
    /// Index of the state, which is also the texture index of its tile.
    pub fn to_index(&self) -> (r: u32)
        ensures
            r == spec_unit_state_index(*self),
    {
        match self {
            UnitState::CivilianReady => 0,
            UnitState::LandMilitaryReady => 1,
            UnitState::LandMilitaryFortified => 2,
            UnitState::CivilianReadyOutOfOrders => 3,
            UnitState::LandMilitaryReadyOutOfOrders => 4,
            UnitState::LandMilitaryFortifiedOutOfOrders => 5,
            UnitState::CivilianOutOfMoves => 6,
            UnitState::LandMilitaryOutOfMoves => 7,
        }
    }

    /// The state with the given index, if there is one.
    pub fn try_from_index(i: u32) -> (r: Option<UnitState>)
        ensures
            r is Some <==> i < 8,
            r matches Some(s) ==> spec_unit_state_index(s) == i && s == spec_unit_state_of(
                i as int,
            ),
    {
        if i == 0 {
            Some(UnitState::CivilianReady)
        } else if i == 1 {
            Some(UnitState::LandMilitaryReady)
        } else if i == 2 {
            Some(UnitState::LandMilitaryFortified)
        } else if i == 3 {
            Some(UnitState::CivilianReadyOutOfOrders)
        } else if i == 4 {
            Some(UnitState::LandMilitaryReadyOutOfOrders)
        } else if i == 5 {
            Some(UnitState::LandMilitaryFortifiedOutOfOrders)
        } else if i == 6 {
            Some(UnitState::CivilianOutOfMoves)
        } else if i == 7 {
            Some(UnitState::LandMilitaryOutOfMoves)
        } else {
            None
        }
    }

    /// The state with a modifier applied. Modifiers do not stack, and
    /// out-of-moves states take none.
    pub fn add(self, rhs: UnitStateModifier) -> (r: UnitState)
        requires
            spec_is_plain_state(self),
        ensures
            spec_unit_state_index(r) == spec_unit_state_index(self) + spec_modifier_index(rhs),
    {
        let state = self.to_index();
        let modifier = rhs.to_index();
        UnitState::try_from_index(state + modifier).unwrap()
    }

    /// Whether the unit is ready: it has orders and movement points left and
    /// is not fortified.
    pub fn is_ready(&self) -> (r: bool)
        ensures
            r == spec_is_ready(*self),
    {
        match self {
            UnitState::CivilianReady | UnitState::LandMilitaryReady => true,
            _ => false,
        }
    }
}

pub open spec fn spec_modifier_index(m: UnitStateModifier) -> int {
    match m {
        UnitStateModifier::OutOfOrders => 3,
    }
}

impl UnitStateModifier {
    /// Index of the modifier.
    pub fn to_index(&self) -> (r: u32)
        ensures
            r == spec_modifier_index(*self),
    {
        match self {
            UnitStateModifier::OutOfOrders => 3,
        }
    }
}

impl UnitSelection {
    /// Index of the selection, which is also its texture index.
    pub fn to_index(&self) -> (r: u32)
        ensures
            r == 0,
    {
        match self {
            UnitSelection::Active => 0,
        }
    }
}

impl CivilianUnit {
    /// Index of the unit kind, which is also its texture index.
    pub fn to_index(&self) -> (r: u32)
        ensures
            r == 0,
    {
        match self {
            CivilianUnit::Settler => 0,
        }
    }

    /// Movement points of this kind of unit at the start of a turn.
    pub fn movement_points(&self) -> (r: u32)
        ensures
            r == spec_movement_points(UnitType::Civilian(*self)),
    {
        match self {
            CivilianUnit::Settler => 2,
        }
    }
}

impl LandMilitaryUnit {
    /// Index of the unit kind, which is also its texture index.
    pub fn to_index(&self) -> (r: u32)
        ensures
            r == 0,
    {
        match self {
            LandMilitaryUnit::Warrior => 0,
        }
    }

    /// Movement points of this kind of unit at the start of a turn.
    pub fn movement_points(&self) -> (r: u32)
        ensures
            r == spec_movement_points(UnitType::LandMilitary(*self)),
    {
        match self {
            LandMilitaryUnit::Warrior => 2,
        }
    }
}

impl From<CivilianUnit> for UnitType {
    fn from(inner: CivilianUnit) -> (r: UnitType) {
        UnitType::Civilian(inner)
    }
}

impl vstd::std_specs::convert::FromSpecImpl<CivilianUnit> for UnitType {
    open spec fn obeys_from_spec() -> bool {
        true
    }

    open spec fn from_spec(inner: CivilianUnit) -> UnitType {
        UnitType::Civilian(inner)
    }
}

impl From<LandMilitaryUnit> for UnitType {
    fn from(inner: LandMilitaryUnit) -> (r: UnitType) {
        UnitType::LandMilitary(inner)
    }
}

impl vstd::std_specs::convert::FromSpecImpl<LandMilitaryUnit> for UnitType {
    open spec fn obeys_from_spec() -> bool {
        true
    }

    open spec fn from_spec(inner: LandMilitaryUnit) -> UnitType {
        UnitType::LandMilitary(inner)
    }
}

impl From<u128> for UnitId {
    fn from(inner: u128) -> (r: UnitId) {
        UnitId(inner)
    }
}

impl vstd::std_specs::convert::FromSpecImpl<u128> for UnitId {
    open spec fn obeys_from_spec() -> bool {
        true
    }

    open spec fn from_spec(inner: u128) -> UnitId {
        UnitId(inner)
    }
}

/// The state a unit takes when it is told to skip its turn; `None` where the
/// state stays as it is.
pub fn out_of_orders_state(s: UnitState) -> (r: Option<UnitState>)
    ensures
        r matches Some(n) ==> n == spec_out_of_orders_state(s) && n != s,
        r is None ==> spec_out_of_orders_state(s) == s,
{
    match s {
        UnitState::CivilianReady => Some(UnitState::CivilianReady.add(UnitStateModifier::OutOfOrders)),
        UnitState::LandMilitaryReady => Some(
            UnitState::LandMilitaryReady.add(UnitStateModifier::OutOfOrders),
        ),
        UnitState::LandMilitaryFortified => Some(
            UnitState::LandMilitaryReady.add(UnitStateModifier::OutOfOrders),
        ),
        UnitState::LandMilitaryFortifiedOutOfOrders => Some(
            UnitState::LandMilitaryReady.add(UnitStateModifier::OutOfOrders),
        ),
        _ => None,
    }
}

/// The state a land military unit takes when it is told to fortify.
pub fn fortified_state() -> (r: UnitState)
    ensures
        r == UnitState::LandMilitaryFortifiedOutOfOrders,
{
    UnitState::LandMilitaryFortified.add(UnitStateModifier::OutOfOrders)
}

/// Skipping a turn twice is the same as skipping it once.
pub proof fn lemma_out_of_orders_idempotent(s: UnitState)
    ensures
        spec_out_of_orders_state(spec_out_of_orders_state(s)) == spec_out_of_orders_state(s),
        !spec_is_ready(spec_out_of_orders_state(s)),
{
}

/// A unit state that the modifier applies to takes its out-of-orders form,
/// which is never ready and never plain.
pub proof fn lemma_modifier_leaves_ready(s: UnitState)
    requires
        spec_is_plain_state(s),
    ensures
        !spec_is_plain_state(spec_unit_state_of(spec_unit_state_index(s) + 3)),
        !spec_is_ready(spec_unit_state_of(spec_unit_state_index(s) + 3)),
        !spec_is_out_of_moves(spec_unit_state_of(spec_unit_state_index(s) + 3)),
{
}

/// A state of a civilian unit.
pub open spec fn spec_is_civilian_state(s: UnitState) -> bool {
    s == UnitState::CivilianReady || s == UnitState::CivilianReadyOutOfOrders || s
        == UnitState::CivilianOutOfMoves
}

/// A unit that runs out of moves is out of moves and keeps its kind: a
/// civilian state becomes a civilian state, a land military state a land
/// military state. Skipping the turn first makes no difference to the state
/// it ends in.
pub proof fn lemma_out_of_moves_keeps_kind(s: UnitState)
    requires
        !spec_is_out_of_moves(s),
    ensures
        spec_is_out_of_moves(spec_out_of_moves_state(s)),
        spec_is_civilian_state(spec_out_of_moves_state(s)) == spec_is_civilian_state(s),
        spec_out_of_moves_state(spec_out_of_orders_state(s)) == spec_out_of_moves_state(s),
{
}

/// A fresh unit's state is civilian exactly when the unit is civilian.
pub proof fn lemma_new_unit_state_kind(
    unit_id: UnitId,
    position: TilePos,
    civ: Civilization,
    unit_type: UnitType,
)
    ensures
        spec_is_civilian_state(spec_new_unit(unit_id, position, civ, unit_type).unit_state)
            == (unit_type is Civilian),
        !spec_is_out_of_moves(spec_new_unit(unit_id, position, civ, unit_type).unit_state),
{
}

// Components of a unit.
/// The components of a unit.
#[derive(Copy, Clone, PartialEq, Eq, Structural, Debug, Hash)]
pub struct UnitBundle {
    pub unit_id: UnitId,
    pub position: TilePos,
    pub unit_type: UnitType,
    pub civ: Civilization,
    pub movement_points: MovementPoints,
    pub full_movement_points: FullMovementPoints,
    pub unit_state: UnitState,
}

/// The components of a civilian unit.
#[derive(Copy, Clone, PartialEq, Eq, Structural, Debug, Hash)]
pub struct CivilianUnitBundle {
    pub unit_bundle: UnitBundle,
}

/// The components of a land military unit.
#[derive(Copy, Clone, PartialEq, Eq, Structural, Debug, Hash)]
pub struct LandMilitaryUnitBundle {
    pub unit_bundle: UnitBundle,
}

impl UnitBundle {
    fn new(
        unit_id: UnitId,
        position: TilePos,
        unit_type: UnitType,
        civ: Civilization,
        movement_points: MovementPoints,
        full_movement_points: FullMovementPoints,
        unit_state: UnitState,
    ) -> (r: UnitBundle)
        ensures
            r == (UnitBundle {
                unit_id,
                position,
                unit_type,
                civ,
                movement_points,
                full_movement_points,
                unit_state,
            }),
    {
        UnitBundle {
            unit_id,
            position,
            unit_type,
            civ,
            movement_points,
            full_movement_points,
            unit_state,
        }
    }
}

/// A fresh unit of the given kind: full movement points, and ready.
pub open spec fn spec_new_unit(
    unit_id: UnitId,
    position: TilePos,
    civ: Civilization,
    unit_type: UnitType,
) -> UnitBundle {
    UnitBundle {
        unit_id,
        position,
        unit_type,
        civ,
        movement_points: MovementPoints(spec_movement_points(unit_type) as i32),
        full_movement_points: FullMovementPoints(spec_movement_points(unit_type) as i32),
        unit_state: match unit_type {
            UnitType::Civilian(_) => UnitState::CivilianReady,
            UnitType::LandMilitary(_) => UnitState::LandMilitaryReady,
        },
    }
}

impl CivilianUnitBundle {
    /// A fresh civilian unit: full movement points, and ready.
    pub fn new(unit_id: UnitId, position: TilePos, civ: Civilization, civilian_unit: CivilianUnit) -> (r:
        CivilianUnitBundle)
        ensures
            r.unit_bundle == spec_new_unit(unit_id, position, civ, UnitType::Civilian(civilian_unit)),
    {
        let points = civilian_unit.movement_points() as i32;
        let unit_state = UnitState::CivilianReady;
        CivilianUnitBundle {
            unit_bundle: UnitBundle::new(
                unit_id,
                position,
                UnitType::Civilian(civilian_unit),
                civ,
                MovementPoints(points),
                FullMovementPoints(points),
                unit_state,
            ),
        }
    }
}

impl LandMilitaryUnitBundle {
    /// A fresh land military unit: full movement points, and ready.
    pub fn new(
        unit_id: UnitId,
        position: TilePos,
        civ: Civilization,
        land_military_unit: LandMilitaryUnit,
    ) -> (r: LandMilitaryUnitBundle)
        ensures
            r.unit_bundle == spec_new_unit(
                unit_id,
                position,
                civ,
                UnitType::LandMilitary(land_military_unit),
            ),
    {
        let points = land_military_unit.movement_points() as i32;
        let unit_state = UnitState::LandMilitaryReady;
        LandMilitaryUnitBundle {
            unit_bundle: UnitBundle::new(
                unit_id,
                position,
                UnitType::LandMilitary(land_military_unit),
                civ,
                MovementPoints(points),
                FullMovementPoints(points),
                unit_state,
            ),
        }
    }
}

// Tiles that show units.
/// A tile of one of the unit layers: position, texture index, and tint
/// (`0xRRGGBB`, `None` for no tint).
#[derive(Copy, Clone, PartialEq, Eq, Structural, Debug, Hash)]
pub struct TileSpec {
    pub position: TilePos,
    pub texture_index: u32,
    pub color: Option<u32>,
}

/// The tile that marks the active unit.
#[derive(Copy, Clone, PartialEq, Eq, Structural, Debug, Hash)]
pub struct UnitSelectionTileBundle {
    pub tile_bundle: TileSpec,
    pub unit_id: UnitId,
}

/// The tile that shows the state of the unit shown at a position.
#[derive(Copy, Clone, PartialEq, Eq, Structural, Debug, Hash)]
pub struct UnitStateTileBundle {
    pub tile_bundle: TileSpec,
    pub unit_id: UnitId,
}

/// The tile that shows a civilian unit.
#[derive(Copy, Clone, PartialEq, Eq, Structural, Debug, Hash)]
pub struct CivilianUnitTileBundle {
    pub tile_bundle: TileSpec,
    pub unit_id: UnitId,
}

/// The tile that shows a land military unit.
#[derive(Copy, Clone, PartialEq, Eq, Structural, Debug, Hash)]
pub struct LandMilitaryUnitTileBundle {
    pub tile_bundle: TileSpec,
    pub unit_id: UnitId,
}

/// The tile that shows a unit, in the layer of its kind.
#[derive(Copy, Clone, PartialEq, Eq, Structural, Debug, Hash)]
pub enum UnitTileBundle {
    Civilian(CivilianUnitTileBundle),
    LandMilitary(LandMilitaryUnitTileBundle),
}

impl UnitSelectionTileBundle {
    /// The tile that marks `unit_id` as the active unit.
    pub fn new(tile_pos: TilePos, unit_id: UnitId) -> (r: UnitSelectionTileBundle)
        ensures
            r == (UnitSelectionTileBundle {
                tile_bundle: TileSpec { position: tile_pos, texture_index: 0, color: None },
                unit_id,
            }),
    {
        UnitSelectionTileBundle {
            tile_bundle: TileSpec {
                position: tile_pos,
                texture_index: UnitSelection::Active.to_index(),
                color: None,
            },
            unit_id,
        }
    }
}

impl UnitStateTileBundle {
    /// The state tile of a fresh unit: ready, tinted in the primary color of
    /// its civilization.
    pub fn new(tile_pos: TilePos, unit_type: UnitType, civ: Civilization, unit_id: UnitId) -> (r:
        UnitStateTileBundle)
        ensures
            r == (UnitStateTileBundle {
                tile_bundle: TileSpec {
                    position: tile_pos,
                    texture_index: spec_unit_state_index(
                        spec_new_unit(unit_id, tile_pos, civ, unit_type).unit_state,
                    ) as u32,
                    color: Some(spec_colors(civ).0),
                },
                unit_id,
            }),
    {
        let unit_state = match unit_type {
            UnitType::Civilian(_civilian_unit) => UnitState::CivilianReady,
            UnitType::LandMilitary(_land_military_unit) => UnitState::LandMilitaryReady,
        };
        UnitStateTileBundle {
            tile_bundle: TileSpec {
                position: tile_pos,
                texture_index: unit_state.to_index(),
                color: Some(civ.colors()[0]),
            },
            unit_id,
        }
    }
}

impl CivilianUnitTileBundle {
    /// The tile of a civilian unit, tinted in the secondary color of its
    /// civilization.
    pub fn new(tile_pos: TilePos, civilian_unit: CivilianUnit, civ: Civilization, unit_id: UnitId) -> (r:
        CivilianUnitTileBundle)
        ensures
            r == (CivilianUnitTileBundle {
                tile_bundle: TileSpec {
                    position: tile_pos,
                    texture_index: 0,
                    color: Some(spec_colors(civ).1),
                },
                unit_id,
            }),
    {
        CivilianUnitTileBundle {
            tile_bundle: TileSpec {
                position: tile_pos,
                texture_index: civilian_unit.to_index(),
                color: Some(civ.colors()[1]),
            },
            unit_id,
        }
    }
}

impl LandMilitaryUnitTileBundle {
    /// The tile of a land military unit, tinted in the secondary color of its
    /// civilization.
    pub fn new(
        tile_pos: TilePos,
        land_military_unit: LandMilitaryUnit,
        civ: Civilization,
        unit_id: UnitId,
    ) -> (r: LandMilitaryUnitTileBundle)
        ensures
            r == (LandMilitaryUnitTileBundle {
                tile_bundle: TileSpec {
                    position: tile_pos,
                    texture_index: 0,
                    color: Some(spec_colors(civ).1),
                },
                unit_id,
            }),
    {
        LandMilitaryUnitTileBundle {
            tile_bundle: TileSpec {
                position: tile_pos,
                texture_index: land_military_unit.to_index(),
                color: Some(civ.colors()[1]),
            },
            unit_id,
        }
    }
}

/// The tile that shows a unit of the given kind.
pub fn unit_tile_bundle(tile_pos: TilePos, unit_type: UnitType, civ: Civilization, unit_id: UnitId) -> (r:
    UnitTileBundle)
    ensures
        match (unit_type, r) {
            (UnitType::Civilian(_), UnitTileBundle::Civilian(b)) => b.tile_bundle
                == (TileSpec {
                position: tile_pos,
                texture_index: 0,
                color: Some(spec_colors(civ).1),
            }) && b.unit_id == unit_id,
            (UnitType::LandMilitary(_), UnitTileBundle::LandMilitary(b)) => b.tile_bundle
                == (TileSpec {
                position: tile_pos,
                texture_index: 0,
                color: Some(spec_colors(civ).1),
            }) && b.unit_id == unit_id,
            _ => false,
        },
{
    match unit_type {
        UnitType::Civilian(c) => UnitTileBundle::Civilian(
            CivilianUnitTileBundle::new(tile_pos, c, civ, unit_id),
        ),
        UnitType::LandMilitary(m) => UnitTileBundle::LandMilitary(
            LandMilitaryUnitTileBundle::new(tile_pos, m, civ, unit_id),
        ),
    }
}

// Events about units.
/// A unit was created.
#[derive(Copy, Clone, PartialEq, Eq, Structural, Debug, Hash)]
pub struct UnitSpawned {
    pub unit_id: UnitId,
    pub position: TilePos,
    pub unit_type: UnitType,
    pub civ: Civilization,
}

/// A unit was chosen as the active unit.
#[derive(Copy, Clone, PartialEq, Eq, Structural, Debug, Hash)]
pub struct UnitSelected {
    pub unit_id: UnitId,
    pub position: TilePos,
}

/// A unit moved one step.
#[derive(Copy, Clone, PartialEq, Eq, Structural, Debug, Hash)]
pub struct UnitMoved {
    pub unit_id: UnitId,
    pub from_pos: TilePos,
    pub to_pos: TilePos,
    pub movement_cost: u32,
}

/// The components of the unit that a spawn event creates.
pub fn spawned_unit(unit_spawned: UnitSpawned) -> (r: UnitBundle)
    ensures
        r == spec_new_unit(
            unit_spawned.unit_id,
            unit_spawned.position,
            unit_spawned.civ,
            unit_spawned.unit_type,
        ),
{
    match unit_spawned.unit_type {
        UnitType::Civilian(c) => CivilianUnitBundle::new(
            unit_spawned.unit_id,
            unit_spawned.position,
            unit_spawned.civ,
            c,
        ).unit_bundle,
        UnitType::LandMilitary(m) => LandMilitaryUnitBundle::new(
            unit_spawned.unit_id,
            unit_spawned.position,
            unit_spawned.civ,
            m,
        ).unit_bundle,
    }
}

/// The keys offered for the selected unit: fortifying for a land military
/// unit and skipping its turn, each only while the turn is in progress.
pub open spec fn spec_unit_actions_legend(unit_type: UnitType, turn_state: TurnState) -> Seq<char> {
    if turn_state == TurnState::InProgress {
        if unit_type is LandMilitary {
            "[F] Fortify\n"@ + "[Space] Skip Turn\n"@
        } else {
            "[Space] Skip Turn\n"@
        }
    } else {
        Seq::empty()
    }
}

/// The text of the actions legend for the selected unit.
pub fn unit_actions_legend(unit_type: UnitType, turn_state: TurnState) -> (r: String)
    ensures
        r@ == spec_unit_actions_legend(unit_type, turn_state),
{
    let mut msg = String::new();
    let in_progress = turn_state == TurnState::InProgress;
    proof {
        assert(msg@ =~= Seq::<char>::empty());
    }
    if in_progress {
        if let UnitType::LandMilitary(_) = unit_type {
            msg.append("[F] Fortify\n");
        }
        msg.append("[Space] Skip Turn\n");
    }
    proof {
        if in_progress && unit_type is LandMilitary {
            assert(msg@ =~= "[F] Fortify\n"@ + "[Space] Skip Turn\n"@);
        }
    }
    msg
}

/// Applies a move to the unit that made it: the unit stands on the new tile,
/// pays the cost, and runs out of moves when exactly none are left.
pub fn apply_unit_moved(unit: &mut UnitBundle, unit_moved: UnitMoved)
    requires
        old(unit).position == unit_moved.from_pos,
        old(unit).movement_points.0 - unit_moved.movement_cost == 0 ==> !spec_is_out_of_moves(
            old(unit).unit_state,
        ),
        old(unit).movement_points.0 - unit_moved.movement_cost >= i32::MIN,
    ensures
        final(unit).position == unit_moved.to_pos,
        final(unit).movement_points.0 == old(unit).movement_points.0 - unit_moved.movement_cost,
        final(unit).unit_state == if final(unit).movement_points.0 == 0 {
            spec_out_of_moves_state(old(unit).unit_state)
        } else {
            old(unit).unit_state
        },
        final(unit).unit_id == old(unit).unit_id,
        final(unit).unit_type == old(unit).unit_type,
        final(unit).civ == old(unit).civ,
        final(unit).full_movement_points == old(unit).full_movement_points,
{
    unit.position = unit_moved.to_pos;
    let cost = unit_moved.movement_cost as i64;
    unit.movement_points = MovementPoints((unit.movement_points.0 as i64 - cost) as i32);
    if unit.movement_points.0 == 0 {
        let next_unit_state = match unit.unit_state {
            UnitState::CivilianReady | UnitState::CivilianReadyOutOfOrders => {
                UnitState::CivilianOutOfMoves
            },
            _ => UnitState::LandMilitaryOutOfMoves,
        };
        unit.unit_state = next_unit_state;
    }
}

/// Gives a unit its full movement points back.
pub fn reset_movement_points(unit: &mut UnitBundle)
    ensures
        *final(unit) == (UnitBundle {
            movement_points: MovementPoints(old(unit).full_movement_points.0),
            ..*old(unit)
        }),
{
    unit.movement_points = MovementPoints(unit.full_movement_points.0);
}

} // verus!
