//! Moving units over the map: the cost of each step, path finding with the
//! A* search of the `pathfinding` crate, and spending movement points.
use vstd::prelude::*;

use crate::hex::{
    dir_of, in_map, neighbor, spec_hex_distance, spec_neighbor, tile_cube_distance,
    valid_size, HexDirection, TilePos, TilemapSize,
};
use crate::river::{spec_bit, RiverHexEdges};
use crate::terrain::{
    lemma_tile_index_bound, lemma_variant_kind, spec_base_terrain_add, spec_is_flat_land,
    spec_is_water, spec_hills, spec_mountains, spec_tile_index, tile_index, BaseTerrain,
    BaseTerrainVariant, TerrainFeatures, TerrainMap,
};
use crate::unit::{FullMovementPoints, MovementPoints, UnitId, UnitMoved};

verus! {

/// What decides the cost of moving between tiles: base terrain, terrain
/// features and rivers of every tile, each stored column by column.
pub struct MoveWorld {
    pub map: TerrainMap,
    pub features: Vec<Option<TerrainFeatures>>,
    pub rivers: Vec<RiverHexEdges>,
}

impl MoveWorld {
    pub open spec fn wf(&self) -> bool {
        &&& self.map.wf()
        &&& self.features@.len() == self.map.size.x * self.map.size.y
        &&& self.rivers@.len() == self.map.size.x * self.map.size.y
    }

    pub open spec fn size(&self) -> TilemapSize {
        self.map.size
    }

    pub open spec fn feature_at(&self, p: TilePos) -> Option<TerrainFeatures> {
        self.features@[spec_tile_index(p, self.map.size)]
    }

    pub open spec fn river_at(&self, p: TilePos) -> RiverHexEdges {
        self.rivers@[spec_tile_index(p, self.map.size)]
    }
}

/// Cost of entering a tile of base terrain `t` with feature `f`: mountains
/// and water cannot be entered; hills cost 2, or 3 under woods or
/// rainforest; other land costs 1, or 2 under woods, rainforest or marsh.
pub open spec fn spec_enter_cost(t: crate::terrain::BaseTerrain, f: Option<TerrainFeatures>) -> Option<int> {
    if spec_mountains().contains(t) || spec_is_water(t) {
        None
    } else if spec_hills().contains(t) {
        match f {
            Some(TerrainFeatures::Woods) | Some(TerrainFeatures::Rainforest) => Some(3),
            _ => Some(2),
        }
    } else {
        match f {
            Some(TerrainFeatures::Woods) | Some(TerrainFeatures::Rainforest) | Some(
                TerrainFeatures::Marsh,
            ) => Some(2),
            _ => Some(1),
        }
    }
}

/// Cost of the step from `p` to its neighbor in direction `i`: the cost of
/// entering the neighbor, plus 3 for crossing a river; `None` where there is
/// no neighbor or it cannot be entered.
#[verifier::opaque]
pub open spec fn spec_step_cost(w: MoveWorld, p: TilePos, i: int) -> Option<int> {
    match spec_neighbor(p, dir_of(i), w.size()) {
        None => None,
        Some(n) => match spec_enter_cost(w.map.at(n), w.feature_at(n)) {
            None => None,
            Some(c) => Some(
                if spec_bit(w.river_at(p).bits, i) {
                    c + 3
                } else {
                    c
                },
            ),
        },
    }
}

/// A step from `a` to its neighbor `b`, in direction `i`, that a unit can make.
pub open spec fn spec_step_in(w: MoveWorld, a: TilePos, b: TilePos, i: int) -> bool {
    0 <= i < 6 && spec_neighbor(a, dir_of(i), w.size()) == Some(b) && spec_step_cost(w, a, i) is Some
}

/// What entering a tile costs, for every flat land terrain `t`: 1 movement
/// point bare or with an oasis, 2 under woods, rainforest or marsh; on its
/// hills one point more bare or under woods or rainforest, and 2 under
/// marsh; its mountains and water cannot be entered at all.
pub proof fn lemma_enter_cost_by_terrain(t: BaseTerrain, f: Option<TerrainFeatures>)
    requires
        spec_is_flat_land(t),
    ensures
        spec_enter_cost(t, None) == Some(1int),
        spec_enter_cost(t, Some(TerrainFeatures::Oasis)) == Some(1int),
        spec_enter_cost(t, Some(TerrainFeatures::Woods)) == Some(2int),
        spec_enter_cost(t, Some(TerrainFeatures::Rainforest)) == Some(2int),
        spec_enter_cost(t, Some(TerrainFeatures::Marsh)) == Some(2int),
        spec_enter_cost(spec_base_terrain_add(t, BaseTerrainVariant::Hills), None) == Some(2int),
        spec_enter_cost(spec_base_terrain_add(t, BaseTerrainVariant::Hills), Some(TerrainFeatures::Woods))
            == Some(3int),
        spec_enter_cost(
            spec_base_terrain_add(t, BaseTerrainVariant::Hills),
            Some(TerrainFeatures::Rainforest),
        ) == Some(3int),
        spec_enter_cost(spec_base_terrain_add(t, BaseTerrainVariant::Hills), Some(TerrainFeatures::Marsh))
            == Some(2int),
        spec_enter_cost(spec_base_terrain_add(t, BaseTerrainVariant::Mountains), f) is None,
        spec_enter_cost(BaseTerrain::Ocean, f) is None,
        spec_enter_cost(BaseTerrain::Coast, f) is None,
{
    lemma_variant_kind(t);
}


/// A unit can step from `a` to `b`.
pub open spec fn spec_is_step(w: MoveWorld, a: TilePos, b: TilePos) -> bool {
    exists|i: int| #[trigger] spec_step_in(w, a, b, i)
}

/// `path` leads from `start` to `goal` in steps that a unit can make.
#[verifier::opaque]
pub open spec fn spec_is_path(w: MoveWorld, path: Seq<TilePos>, start: TilePos, goal: TilePos) -> bool {
    &&& path.len() >= 1
    &&& path[0] == start
    &&& path.last() == goal
    &&& forall|k: int| 0 <= k < path.len() - 1 ==> spec_is_step(w, #[trigger] path[k], path[k + 1])
}

/// Some path leads from `start` to `goal`.
#[verifier::opaque]
pub open spec fn spec_reachable(w: MoveWorld, start: TilePos, goal: TilePos) -> bool {
    exists|path: Seq<TilePos>| #[trigger] spec_is_path(w, path, start, goal)
}

/// `s` is a step that a unit can make from `p`, with its cost.
pub open spec fn spec_successor_ok(w: MoveWorld, p: TilePos, s: (TilePos, u64)) -> bool {
    exists|i: int| #[trigger] spec_step_in(w, p, s.0, i) && spec_step_cost(w, p, i) == Some(s.1 as int)
}

/// Cost of entering a tile of base terrain `t` with feature `f`, if it can
/// be entered.
pub fn enter_cost(t: crate::terrain::BaseTerrain, f: Option<TerrainFeatures>) -> (r: Option<u64>)
    ensures
        match (r, spec_enter_cost(t, f)) {
            (Some(a), Some(b)) => a == b,
            (None, None) => true,
            _ => false,
        },
{
    if t.is_mountains() || t.is_water() {
        return None;
    }
    if t.is_hills() {
        match f {
            Some(TerrainFeatures::Woods) | Some(TerrainFeatures::Rainforest) => Some(3),
            _ => Some(2),
        }
    } else {
        match f {
            Some(TerrainFeatures::Woods) | Some(TerrainFeatures::Rainforest) | Some(
                TerrainFeatures::Marsh,
            ) => Some(2),
            _ => Some(1),
        }
    }
}

/// Cost of the step from `p` in direction `d`, with the neighbor it leads to.
pub fn step_cost(w: &MoveWorld, p: TilePos, d: HexDirection) -> (r: Option<(TilePos, u64)>)
    requires
        w.wf(),
        in_map(p, w.size()),
    ensures
        match r {
            Some((n, c)) => spec_neighbor(p, d, w.size()) == Some(n) && spec_step_cost(
                *w,
                p,
                crate::hex::dir_index(d),
            ) == Some(c as int) && 1 <= c <= 6,
            None => spec_step_cost(*w, p, crate::hex::dir_index(d)) is None,
        },
{
    reveal(spec_step_cost);
    let size = w.map.size;
    assert(dir_of(crate::hex::dir_index(d)) == d);
    match neighbor(p, d, size) {
        None => None,
        Some(n) => {
            proof {
                lemma_tile_index_bound(n, size);
                lemma_tile_index_bound(p, size);
            }
            let t = w.map.get(n);
            let f = w.features[tile_index(n, size)];
            match enter_cost(t, f) {
                None => None,
                Some(c) => {
                    let river = w.rivers[tile_index(p, size)];
                    let c = if river.get(d.index()) {
                        c + 3
                    } else {
                        c
                    };
                    Some((n, c))
                },
            }
        },
    }
}

/// The steps a unit can make from `p` in the first `n` hex directions, with
/// their costs, in the order of the directions.
pub open spec fn spec_successors_upto(w: MoveWorld, p: TilePos, n: int) -> Seq<(TilePos, u64)>
    decreases n,
{
    if n <= 0 {
        Seq::empty()
    } else {
        let prev = spec_successors_upto(w, p, n - 1);
        match spec_step_cost(w, p, n - 1) {
            Some(c) => prev.push((spec_neighbor(p, dir_of(n - 1), w.size()).unwrap(), c as u64)),
            None => prev,
        }
    }
}

/// The steps a unit can make from `p`, with their costs, in the order of
/// the hex directions.
#[verifier::spinoff_prover]
pub fn successors(w: &MoveWorld, p: &TilePos) -> (r: Vec<(TilePos, u64)>)
    requires
        w.wf(),
        in_map(*p, w.size()),
    ensures
        r@ == spec_successors_upto(*w, *p, 6),
        forall|k: int| 0 <= k < r@.len() ==> spec_successor_ok(*w, *p, #[trigger] r@[k]),
        forall|i: int|
            0 <= i < 6 && spec_step_cost(*w, *p, i) is Some ==> exists|k: int|
                0 <= k < r@.len() && #[trigger] r@[k].0 == spec_neighbor(
                    *p,
                    dir_of(i),
                    w.size(),
                ).unwrap(),
{
    let dirs = HexDirection::all();
    let mut r: Vec<(TilePos, u64)> = Vec::new();
    let mut i: usize = 0;
    while i < 6
        invariant
            w.wf(),
            in_map(*p, w.size()),
            0 <= i <= 6,
            forall|k: int| 0 <= k < 6 ==> crate::hex::dir_index(#[trigger] dirs[k]) == k,
            r@ == spec_successors_upto(*w, *p, i as int),
            forall|k: int| 0 <= k < r@.len() ==> spec_successor_ok(*w, *p, #[trigger] r@[k]),
            forall|j: int|
                0 <= j < i && spec_step_cost(*w, *p, j) is Some ==> exists|k: int|
                    0 <= k < r@.len() && #[trigger] r@[k].0 == spec_neighbor(
                        *p,
                        dir_of(j),
                        w.size(),
                    ).unwrap(),
        decreases 6 - i,
    {
        let d = dirs[i];
        assert(dir_of(i as int) == d);
        let ghost prev = r@;
        if let Some((n, c)) = step_cost(w, *p, d) {
            r.push((n, c));
            proof {
                assert(spec_step_in(*w, *p, n, i as int));
                assert forall|k: int| 0 <= k < r@.len() implies spec_successor_ok(*w, *p, #[trigger] r@[k]) by {
                    if k < prev.len() {
                        assert(r@[k] == prev[k]);
                    } else {
                        assert(spec_step_in(*w, *p, r@[k].0, i as int));
                    }
                }
                assert forall|j: int|
                    0 <= j < i + 1 && spec_step_cost(*w, *p, j) is Some implies exists|k: int|
                    0 <= k < r@.len() && #[trigger] r@[k].0 == spec_neighbor(
                        *p,
                        dir_of(j),
                        w.size(),
                    ).unwrap() by {
                    if j < i {
                        let k = choose|k: int|
                            0 <= k < prev.len() && #[trigger] prev[k].0 == spec_neighbor(
                                *p,
                                dir_of(j),
                                w.size(),
                            ).unwrap();
                        assert(r@[k] == prev[k]);
                    } else {
                        assert(r@[prev.len() as int].0 == n);
                    }
                }
            }
        }
        i += 1;
    }
    r
}

/// Estimate of the remaining cost from `p` to `goal` used by the path search.
pub fn path_cost_estimate(p: &TilePos, goal: TilePos) -> (r: u64)
    requires
        p.x <= crate::hex::MAX_MAP_SIDE,
        p.y <= crate::hex::MAX_MAP_SIDE,
        goal.x <= crate::hex::MAX_MAP_SIDE,
        goal.y <= crate::hex::MAX_MAP_SIDE,
    ensures
        r == spec_hex_distance((p.x as int, p.y as int), (goal.x as int, goal.y as int)),
{
    tile_cube_distance(*p, goal) as u64
}

/// Whether `p` is the goal of the path search.
pub fn is_goal(p: &TilePos, goal: TilePos) -> (r: bool)
    ensures
        r == (*p == goal),
{
    p.x == goal.x && p.y == goal.y
}

/// The path that `pathfinding::directed::astar::astar` returns from `start`
/// to `goal` on the map of the given size, base terrain, terrain features
/// and rivers (each stored column by column), searching over the steps of
/// `successors` with `path_cost_estimate` as its estimate; `None` where it
/// returns none.
pub uninterp spec fn astar_path(
    size: TilemapSize,
    tiles: Seq<BaseTerrain>,
    features: Seq<Option<TerrainFeatures>>,
    rivers: Seq<RiverHexEdges>,
    start: TilePos,
    goal: TilePos,
) -> Option<Seq<TilePos>>;

/// The path that the A* search returns from `start` to `goal` on `w`.
pub open spec fn spec_astar_path(w: MoveWorld, start: TilePos, goal: TilePos) -> Option<Seq<TilePos>> {
    astar_path(w.map.size, w.map.tiles@, w.features@, w.rivers@, start, goal)
}

/// A path from `start` to `goal`, found with `pathfinding::directed::astar::astar`
/// over the steps of `successors`, estimating remaining costs with
/// `path_cost_estimate`. The result is named by `astar_path`: the search
/// depends on nothing but its arguments (the crate keeps its queue in a
/// `BinaryHeap` and its visited nodes in an `FxIndexMap`, whose order and
/// hashing are fixed). The crate's source returns the path from the start to
/// the first node it takes from its queue that is the goal, each node reached
/// from the one before as one of its successors; it returns `None` only once
/// every node reachable from the start has been taken from the queue without
/// meeting the goal. As the estimate can exceed the true remaining cost, the
/// path need not be a cheapest one.
#[verifier::external_body]
fn shortest_path(w: &MoveWorld, start: TilePos, goal: TilePos) -> (r: Option<Vec<TilePos>>)
    requires
        w.wf(),
        in_map(start, w.size()),
        in_map(goal, w.size()),
    ensures
        r matches Some(path) ==> astar_path(
            w.map.size,
            w.map.tiles@,
            w.features@,
            w.rivers@,
            start,
            goal,
        ) == Some(path@),
        r is None ==> astar_path(
            w.map.size,
            w.map.tiles@,
            w.features@,
            w.rivers@,
            start,
            goal,
        ) is None,
        r matches Some(path) ==> spec_is_path(*w, path@, start, goal),
        r is None ==> !spec_reachable(*w, start, goal),
{
    pathfinding::directed::astar::astar(
        &start,
        |p| successors(w, p),
        |p| path_cost_estimate(p, goal),
        |p| is_goal(p, goal),
    ).map(|(path, _cost)| path)
}

/// Cost of the step from `a` to `b` in the first direction from the `i`-th
/// on in which `b` is the neighbor of `a` that a unit can step to.
pub open spec fn spec_cost_to_from(w: MoveWorld, a: TilePos, b: TilePos, i: int) -> Option<int>
    decreases 6 - i,
{
    if i < 0 || i >= 6 {
        None
    } else if spec_step_in(w, a, b, i) {
        spec_step_cost(w, a, i)
    } else {
        spec_cost_to_from(w, a, b, i + 1)
    }
}

/// Cost of the step from `a` to its neighbor `b`, if a unit can make it.
pub open spec fn spec_cost_to(w: MoveWorld, a: TilePos, b: TilePos) -> Option<int> {
    spec_cost_to_from(w, a, b, 0)
}

/// A step costs from 1 to 6 movement points.
pub proof fn lemma_step_cost_range(w: MoveWorld, p: TilePos, i: int)
    ensures
        spec_step_cost(w, p, i) matches Some(c) ==> 1 <= c <= 6,
{
    reveal(spec_step_cost);
}

/// A step costs from 1 to 6 movement points.
pub proof fn lemma_cost_to_from_range(w: MoveWorld, a: TilePos, b: TilePos, i: int)
    ensures
        spec_cost_to_from(w, a, b, i) matches Some(c) ==> 1 <= c <= 6,
    decreases 6 - i,
{
    if 0 <= i < 6 {
        lemma_step_cost_range(w, a, i);
        lemma_cost_to_from_range(w, a, b, i + 1);
    }
}

/// Cost of the step from `a` to its neighbor `b`, if a unit can make it.
#[verifier::spinoff_prover]
pub fn step_cost_to(w: &MoveWorld, a: TilePos, b: TilePos) -> (r: Option<u64>)
    requires
        w.wf(),
        in_map(a, w.size()),
    ensures
        r matches Some(c) ==> exists|i: int|
            #![trigger spec_step_in(*w, a, b, i)]
            spec_step_in(*w, a, b, i) && spec_step_cost(*w, a, i) == Some(c as int),
        r matches Some(c) ==> 1 <= c <= 6,
        r is None ==> !spec_is_step(*w, a, b),
        r matches Some(c) ==> spec_cost_to(*w, a, b) == Some(c as int),
        r is None ==> spec_cost_to(*w, a, b) is None,
{
    let dirs = HexDirection::all();
    let mut i: usize = 0;
    while i < 6
        invariant
            w.wf(),
            in_map(a, w.size()),
            0 <= i <= 6,
            forall|k: int| 0 <= k < 6 ==> crate::hex::dir_index(#[trigger] dirs[k]) == k,
            forall|j: int| 0 <= j < i ==> !#[trigger] spec_step_in(*w, a, b, j),
            spec_cost_to(*w, a, b) == spec_cost_to_from(*w, a, b, i as int),
        decreases 6 - i,
    {
        let d = dirs[i];
        assert(dir_of(i as int) == d);
        if let Some((n, c)) = step_cost(w, a, d) {
            if n.x == b.x && n.y == b.y {
                assert(spec_step_in(*w, a, b, i as int));
                return Some(c);
            }
        }
        i += 1;
    }
    None
}

/// Movement points left after paying for steps of the given costs, one by
/// one: a step costing no more than the points left takes its cost; a step
/// costing more can be made only with full movement points, and takes them
/// all; `None` once a step cannot be made.
pub open spec fn spec_points_after(points: int, full: int, costs: Seq<int>) -> Option<int>
    decreases costs.len(),
{
    if costs.len() == 0 {
        Some(points)
    } else {
        match spec_points_after(points, full, costs.drop_last()) {
            None => None,
            Some(q) => {
                let c = costs.last();
                if c <= q {
                    Some(q - c)
                } else if q == full {
                    Some(0)
                } else {
                    None
                }
            },
        }
    }
}

/// Costs of a sequence of moves.
pub open spec fn spec_move_costs(moves: Seq<UnitMoved>) -> Seq<int> {
    moves.map_values(|m: UnitMoved| m.movement_cost as int)
}

/// `m` is a step of unit `unit_id` that a unit can make, at the cost it
/// states.
pub open spec fn spec_move_ok(w: MoveWorld, unit_id: UnitId, m: UnitMoved) -> bool {
    &&& m.unit_id == unit_id
    &&& exists|i: int|
        #[trigger] spec_step_in(w, m.from_pos, m.to_pos, i) && spec_step_cost(w, m.from_pos, i)
            == Some(m.movement_cost as int)
}

/// The moves form a walk from `start`, each a step a unit can make at the
/// cost it states.
#[verifier::opaque]
pub open spec fn spec_is_walk(w: MoveWorld, moves: Seq<UnitMoved>, unit_id: UnitId, start: TilePos) -> bool {
    &&& moves.len() > 0 ==> moves[0].from_pos == start
    &&& forall|k: int| 0 <= k < moves.len() - 1 ==> #[trigger] moves[k].to_pos == moves[k + 1].from_pos
    &&& forall|k: int| 0 <= k < moves.len() ==> spec_move_ok(w, unit_id, #[trigger] moves[k])
}

/// Movement points left after paying for a step of cost `cost` with
/// `points` left: the cost where it is no more than the points, all points
/// where they are full; `None` where the step cannot be paid for.
pub fn pay_step(points: i32, full: i32, cost: u64) -> (r: Option<i32>)
    requires
        1 <= cost <= 6,
    ensures
        r == (if cost <= points {
            Some((points - cost) as i32)
        } else if points == full {
            Some(0i32)
        } else {
            None::<i32>
        }),
{
    if (cost as i64) <= points as i64 {
        Some(points - cost as i32)
    } else if points == full {
        Some(0)
    } else {
        None
    }
}

/// Paying for one more step continues from what the earlier steps left.
proof fn lemma_points_after_push(points: int, full: int, costs: Seq<int>, c: int)
    ensures
        spec_points_after(points, full, costs.push(c)) == match spec_points_after(
            points,
            full,
            costs,
        ) {
            None => None,
            Some(q) => if c <= q {
                Some(q - c)
            } else if q == full {
                Some(0)
            } else {
                None
            },
        },
{
    assert(costs.push(c).drop_last() =~= costs);
}

/// A walk continues with a step from where it ends.
proof fn lemma_walk_push(
    w: MoveWorld,
    moves: Seq<UnitMoved>,
    unit_id: UnitId,
    start: TilePos,
    m: UnitMoved,
)
    requires
        spec_is_walk(w, moves, unit_id, start),
        moves.len() > 0 ==> moves.last().to_pos == m.from_pos,
        moves.len() == 0 ==> m.from_pos == start,
        spec_move_ok(w, unit_id, m),
    ensures
        spec_is_walk(w, moves.push(m), unit_id, start),
        spec_move_costs(moves.push(m)) == spec_move_costs(moves).push(m.movement_cost as int),
{
    reveal(spec_is_walk);
    let n = moves.push(m);
    assert forall|k: int| 0 <= k < n.len() implies spec_move_ok(w, unit_id, #[trigger] n[k]) by {
        if k < moves.len() {
            assert(n[k] == moves[k]);
        }
    }
    assert forall|k: int| 0 <= k < n.len() - 1 implies #[trigger] n[k].to_pos == n[k
        + 1].from_pos by {
        assert(n[k] == moves[k]);
        if k < moves.len() - 1 {
            assert(n[k + 1] == moves[k + 1]);
        }
    }
    assert(spec_move_costs(n) =~= spec_move_costs(moves).push(m.movement_cost as int));
}

/// The step of unit `unit_id` at `current` to the second tile of `path`,
/// with the movement points it leaves, given `points` left of `full`: at the
/// cost of that step, if the unit can make it and pay for it (see
/// `pay_step`); `None` otherwise.
pub open spec fn spec_step_along(
    w: MoveWorld,
    unit_id: UnitId,
    points: int,
    full: int,
    current: TilePos,
    path: Seq<TilePos>,
) -> Option<(UnitMoved, int)> {
    if path.len() < 2 {
        None
    } else {
        match spec_cost_to(w, current, path[1]) {
            None => None,
            Some(c) => {
                let m = UnitMoved {
                    unit_id,
                    from_pos: current,
                    to_pos: path[1],
                    movement_cost: c as u32,
                };
                if c <= points {
                    Some((m, points - c))
                } else if points == full {
                    Some((m, 0))
                } else {
                    None
                }
            },
        }
    }
}

/// The next step of unit `unit_id` at `current` on its way to `goal`, with
/// the movement points it leaves, given `points` left of `full`: the step
/// along the path that the A* search returns. `None` at the goal, where the
/// search returns no path, or where the step cannot be made or paid for.
pub open spec fn spec_walk_step(
    w: MoveWorld,
    unit_id: UnitId,
    points: int,
    full: int,
    current: TilePos,
    goal: TilePos,
) -> Option<(UnitMoved, int)> {
    if current == goal {
        None
    } else {
        match spec_astar_path(w, current, goal) {
            None => None,
            Some(path) => spec_step_along(w, unit_id, points, full, current, path),
        }
    }
}

/// What is left to spend of `points` movement points, out of `full`: it
/// falls with every step taken.
pub open spec fn spec_walk_measure(points: int, full: int) -> int {
    if points >= 0 {
        2 * points + if points == full {
            1int
        } else {
            0int
        }
    } else {
        0int
    }
}

/// Every step leaves less to spend.
pub proof fn lemma_walk_step_measure(
    w: MoveWorld,
    unit_id: UnitId,
    points: int,
    full: int,
    current: TilePos,
    goal: TilePos,
)
    requires
        full > 0,
    ensures
        spec_walk_step(w, unit_id, points, full, current, goal) matches Some((m, left)) ==> 0
            <= spec_walk_measure(left, full) < spec_walk_measure(points, full),
{
    if let Some(path) = spec_astar_path(w, current, goal) {
        if path.len() >= 2 {
            lemma_cost_to_from_range(w, current, path[1], 0);
        }
    }
}

/// The moves of unit `unit_id` from `current` towards `goal` with `points`
/// movement points left of `full`: the next step while there is one (see
/// `spec_walk_step`), then the moves from where it leads with what it
/// leaves.
pub open spec fn spec_move_walk(
    w: MoveWorld,
    unit_id: UnitId,
    points: int,
    full: int,
    current: TilePos,
    goal: TilePos,
) -> Seq<UnitMoved>
    decreases spec_walk_measure(points, full),
{
    if full <= 0 {
        Seq::empty()
    } else {
        match spec_walk_step(w, unit_id, points, full, current, goal) {
            None => Seq::empty(),
            Some((m, left)) => {
                proof {
                    lemma_walk_step_measure(w, unit_id, points, full, current, goal);
                }
                seq![m] + spec_move_walk(w, unit_id, left, full, m.to_pos, goal)
            },
        }
    }
}

/// The step of unit `unit_id` at `current` to the second tile of `path`,
/// with the movement points it leaves, given `points` left of `full`; `None`
/// where `path` has no second tile, the unit cannot step there, or it cannot
/// pay for the step.
#[verifier::spinoff_prover]
pub fn step_along(
    w: &MoveWorld,
    unit_id: UnitId,
    points: i32,
    full: i32,
    current: TilePos,
    path: &Vec<TilePos>,
) -> (r: Option<(UnitMoved, i32)>)
    requires
        w.wf(),
        in_map(current, w.size()),
    ensures
        r matches Some((m, left)) ==> spec_step_along(
            *w,
            unit_id,
            points as int,
            full as int,
            current,
            path@,
        ) == Some((m, left as int)),
        r is None ==> spec_step_along(*w, unit_id, points as int, full as int, current, path@) is None,
        r matches Some((m, left)) ==> {
            &&& m.from_pos == current
            &&& in_map(m.to_pos, w.size())
            &&& spec_move_ok(*w, unit_id, m)
            &&& 1 <= m.movement_cost <= 6
            &&& left == (if m.movement_cost <= points {
                points - m.movement_cost
            } else {
                0
            })
            &&& (m.movement_cost <= points || points == full)
        },
        r is None && path@.len() >= 2 && spec_is_step(*w, current, path@[1]) ==> points != full,
{
    if path.len() < 2 {
        return None;
    }
    let next = path[1];
    let cost = match step_cost_to(w, current, next) {
        None => {
            return None;
        },
        Some(cost) => cost,
    };
    match pay_step(points, full, cost) {
        None => None,
        Some(left) => {
            let unit_moved = UnitMoved {
                unit_id,
                from_pos: current,
                to_pos: next,
                movement_cost: cost as u32,
            };
            proof {
                assert(unit_moved.movement_cost as int == cost as int);
                let i = choose|i: int|
                    #![trigger spec_step_in(*w, current, next, i)]
                    spec_step_in(*w, current, next, i) && spec_step_cost(*w, current, i) == Some(
                        cost as int,
                    );
                assert(spec_step_in(*w, unit_moved.from_pos, unit_moved.to_pos, i));
                assert(spec_move_ok(*w, unit_id, unit_moved));
                lemma_step_in_map(*w, current, next);
            }
            Some((unit_moved, left))
        },
    }
}

/// The next step of a unit at `current` on its way to `goal`, with the
/// movement points it leaves: the step along the path that the A* search
/// finds from `current`, if the unit can pay for it. `None` where no path is
/// found or the step cannot be paid for.
#[verifier::spinoff_prover]
fn step_towards(
    w: &MoveWorld,
    unit_id: UnitId,
    points: i32,
    full: i32,
    current: TilePos,
    goal: TilePos,
) -> (r: Option<(UnitMoved, i32)>)
    requires
        w.wf(),
        in_map(current, w.size()),
        in_map(goal, w.size()),
        current != goal,
    ensures
        r matches Some((m, left)) ==> {
            &&& m.from_pos == current
            &&& in_map(m.to_pos, w.size())
            &&& spec_move_ok(*w, unit_id, m)
            &&& 1 <= m.movement_cost <= 6
            &&& left == (if m.movement_cost <= points {
                points - m.movement_cost
            } else {
                0
            })
            &&& (m.movement_cost <= points || points == full)
        },
        r is None ==> !spec_reachable(*w, current, goal) || points != full,
        r matches Some((m, left)) ==> spec_walk_step(*w, unit_id, points as int, full as int, current, goal)
            == Some((m, left as int)),
        r is None ==> spec_walk_step(*w, unit_id, points as int, full as int, current, goal) is None,
        !spec_reachable(*w, current, goal) ==> r is None,
{
    let path = match shortest_path(w, current, goal) {
        None => {
            return None;
        },
        Some(path) => path,
    };
    proof {
        reveal(spec_is_path);
        reveal(spec_reachable);
        assert(spec_is_path(*w, path@, current, goal));
        assert(spec_is_step(*w, path@[0], path@[1]));
    }
    step_along(w, unit_id, points, full, current, &path)
}

/// A tile that a unit can step to lies on the map.
proof fn lemma_step_in_map(w: MoveWorld, a: TilePos, b: TilePos)
    requires
        spec_is_step(w, a, b),
    ensures
        in_map(b, w.size()),
{
    let i = choose|i: int| #[trigger] spec_step_in(w, a, b, i);
}

/// Moves the active unit from `start` towards `goal`, one step at a time,
/// each time along a path found anew from where it stands, as far as its
/// movement points allow. Stops at the goal, where no path is found, or at
/// the first step it cannot pay for.
#[verifier::rlimit(30)]
#[verifier::spinoff_prover]
pub fn move_active_unit_to(
    w: &MoveWorld,
    unit_id: UnitId,
    movement_points: MovementPoints,
    full_movement_points: FullMovementPoints,
    start: TilePos,
    goal: TilePos,
) -> (r: Vec<UnitMoved>)
    requires
        w.wf(),
        in_map(start, w.size()),
        in_map(goal, w.size()),
        full_movement_points.0 > 0,
    ensures
        spec_is_walk(*w, r@, unit_id, start),
        spec_points_after(
            movement_points.0 as int,
            full_movement_points.0 as int,
            spec_move_costs(r@),
        ) is Some,
        r@.len() == 0 && start != goal && movement_points.0 == full_movement_points.0
            ==> !spec_reachable(*w, start, goal),
        forall|k: int| 0 <= k < r@.len() ==> (#[trigger] r@[k]).from_pos != goal,
        r@ == spec_move_walk(
            *w,
            unit_id,
            movement_points.0 as int,
            full_movement_points.0 as int,
            start,
            goal,
        ),
        !spec_reachable(*w, start, goal) ==> r@.len() == 0,
{
    let full = full_movement_points.0;
    let mut points: i32 = movement_points.0;
    let mut current = start;
    let mut moves: Vec<UnitMoved> = Vec::new();
    proof {
        assert(spec_move_costs(moves@) =~= Seq::<int>::empty());
        reveal(spec_is_walk);
    }
    while current.x != goal.x || current.y != goal.y
        invariant
            w.wf(),
            in_map(current, w.size()),
            in_map(goal, w.size()),
            full == full_movement_points.0,
            full > 0,
            spec_is_walk(*w, moves@, unit_id, start),
            moves@.len() > 0 ==> moves@.last().to_pos == current,
            moves@.len() == 0 ==> current == start && points == movement_points.0,
            spec_points_after(movement_points.0 as int, full as int, spec_move_costs(moves@))
                == Some(points as int),
            forall|k: int| 0 <= k < moves@.len() ==> (#[trigger] moves@[k]).from_pos != goal,
            moves@ + spec_move_walk(*w, unit_id, points as int, full as int, current, goal)
                == spec_move_walk(
                *w,
                unit_id,
                movement_points.0 as int,
                full as int,
                start,
                goal,
            ),
            !spec_reachable(*w, start, goal) ==> moves@.len() == 0,
        ensures
            spec_is_walk(*w, moves@, unit_id, start),
            spec_points_after(movement_points.0 as int, full as int, spec_move_costs(moves@)) is Some,
            moves@.len() == 0 && start != goal && movement_points.0 == full
                ==> !spec_reachable(*w, start, goal),
            forall|k: int| 0 <= k < moves@.len() ==> (#[trigger] moves@[k]).from_pos != goal,
            moves@ == spec_move_walk(
                *w,
                unit_id,
                movement_points.0 as int,
                full as int,
                start,
                goal,
            ),
            !spec_reachable(*w, start, goal) ==> moves@.len() == 0,
        decreases spec_walk_measure(points as int, full as int),
    {
        match step_towards(w, unit_id, points, full, current, goal) {
            None => {
                proof {
                    assert(spec_move_walk(*w, unit_id, points as int, full as int, current, goal)
                        =~= Seq::<UnitMoved>::empty());
                    assert(moves@ + Seq::<UnitMoved>::empty() =~= moves@);
                }
                break ;
            },
            Some((unit_moved, left)) => {
                proof {
                    let rest = spec_move_walk(
                        *w,
                        unit_id,
                        left as int,
                        full as int,
                        unit_moved.to_pos,
                        goal,
                    );
                    assert(spec_move_walk(*w, unit_id, points as int, full as int, current, goal)
                        == seq![unit_moved] + rest);
                    assert(moves@.push(unit_moved) + rest =~= moves@ + (seq![unit_moved] + rest));
                    lemma_walk_step_measure(*w, unit_id, points as int, full as int, current, goal);
                    lemma_walk_push(*w, moves@, unit_id, start, unit_moved);
                    lemma_points_after_push(
                        movement_points.0 as int,
                        full as int,
                        spec_move_costs(moves@),
                        unit_moved.movement_cost as int,
                    );
                }
                moves.push(unit_moved);
                points = left;
                current = unit_moved.to_pos;
            },
        }
    }
    moves
}

/// Whether a click at `cursor` should move the active unit: there is an
/// active unit, and it does not stand at `cursor` already.
pub fn should_move_active_unit_to(active_unit_pos: Option<TilePos>, cursor: TilePos) -> (r: bool)
    ensures
        r == (active_unit_pos matches Some(p) && p != cursor),
{
    match active_unit_pos {
        None => false,
        Some(p) => !(p.x == cursor.x && p.y == cursor.y),
    }
}

} // verus!
