//! The start of a game: where each player's first units stand.
use vstd::prelude::*;

use crate::hex::{dir_of, in_map, neighbors, spec_neighbor, valid_size, TilePos};
use crate::player::{sort_players, spec_sorted_by_index, Player};
use crate::random::{choose_index, RngState};
use crate::terrain::{spec_is_water, spec_mountains, TerrainMap};
use crate::turn::TurnStarted;
use crate::unit::{CivilianUnit, LandMilitaryUnit, UnitId, UnitSpawned, UnitType};

verus! {

/// A unit can start on land other than mountains.
pub open spec fn spec_allowable_start(map: TerrainMap, p: TilePos) -> bool {
    in_map(p, map.size) && !spec_is_water(map.at(p)) && !spec_mountains().contains(map.at(p))
}

/// The neighbor of `p` in direction `i` is a tile where a unit can start.
pub open spec fn spec_allowable_in_dir(map: TerrainMap, p: TilePos, i: int) -> bool {
    match spec_neighbor(p, dir_of(i), map.size) {
        Some(n) => spec_allowable_start(map, n),
        None => false,
    }
}

/// A settler can start at `p`: a unit can start there and at a neighbor.
pub open spec fn spec_settler_start(map: TerrainMap, p: TilePos) -> bool {
    spec_allowable_start(map, p) && exists|i: int| 0 <= i < 6 && #[trigger] spec_allowable_in_dir(map, p, i)
}

/// Some tile of the map can take a settler and, next to it, a warrior.
pub open spec fn spec_can_start(map: TerrainMap) -> bool {
    exists|p: TilePos| #[trigger] spec_settler_start(map, p)
}

fn allowable_start(map: &TerrainMap, p: TilePos) -> (r: bool)
    requires
        map.wf(),
        in_map(p, map.size),
    ensures
        r == spec_allowable_start(*map, p),
{
    let t = map.get(p);
    !t.is_water() && !t.is_mountains()
}

/// The tiles where a unit can start, column by column.
#[verifier::spinoff_prover]
pub fn allowable_starting_positions(map: &TerrainMap) -> (r: Vec<TilePos>)
    requires
        map.wf(),
    ensures
        forall|k: int| 0 <= k < r@.len() ==> spec_allowable_start(*map, #[trigger] r@[k]),
        forall|p: TilePos| spec_allowable_start(*map, p) ==> #[trigger] r@.contains(p),
{
    let size = map.size;
    let mut r: Vec<TilePos> = Vec::new();
    let mut x: u32 = 0;
    while x < size.x
        invariant
            map.wf(),
            size == map.size,
            x <= size.x,
            forall|k: int| 0 <= k < r@.len() ==> spec_allowable_start(*map, #[trigger] r@[k]),
            forall|p: TilePos| spec_allowable_start(*map, p) && p.x < x ==> #[trigger] r@.contains(p),
        decreases size.x - x,
    {
        let mut y: u32 = 0;
        while y < size.y
            invariant
                map.wf(),
                size == map.size,
                x < size.x,
                y <= size.y,
                forall|k: int| 0 <= k < r@.len() ==> spec_allowable_start(*map, #[trigger] r@[k]),
                forall|p: TilePos|
                    spec_allowable_start(*map, p) && (p.x < x || (p.x == x && p.y < y))
                        ==> #[trigger] r@.contains(p),
            decreases size.y - y,
        {
            let p = TilePos { x, y };
            let ghost prev = r@;
            if allowable_start(map, p) {
                r.push(p);
                proof {
                    assert(r@[prev.len() as int] == p);
                }
            }
            proof {
                assert forall|q: TilePos|
                    spec_allowable_start(*map, q) && (q.x < x || (q.x == x && q.y < y + 1))
                        implies #[trigger] r@.contains(q) by {
                    if q != p {
                        assert(prev.contains(q));
                        let k = choose|k: int| 0 <= k < prev.len() && prev[k] == q;
                        assert(r@[k] == q);
                    }
                }
            }
            y += 1;
        }
        x += 1;
    }
    r
}

/// The neighbors of `p` where a unit can start, in the order of the hex
/// directions.
fn allowable_neighbors(map: &TerrainMap, p: TilePos) -> (r: Vec<TilePos>)
    requires
        map.wf(),
        in_map(p, map.size),
    ensures
        forall|k: int|
            0 <= k < r@.len() ==> spec_allowable_start(*map, #[trigger] r@[k]) && exists|i: int|
                0 <= i < 6 && spec_neighbor(p, dir_of(i), map.size) == Some(r@[k]),
        r@.len() == 0 <==> !exists|i: int| 0 <= i < 6 && #[trigger] spec_allowable_in_dir(*map, p, i),
{
    let nb = neighbors(p, map.size);
    let mut r: Vec<TilePos> = Vec::new();
    let mut i: usize = 0;
    while i < 6
        invariant
            map.wf(),
            in_map(p, map.size),
            0 <= i <= 6,
            forall|k: int| 0 <= k < 6 ==> #[trigger] nb[k] == spec_neighbor(p, dir_of(k), map.size),
            forall|k: int|
                0 <= k < r@.len() ==> spec_allowable_start(*map, #[trigger] r@[k]) && exists|j: int|
                    0 <= j < 6 && spec_neighbor(p, dir_of(j), map.size) == Some(r@[k]),
            r@.len() == 0 <==> !exists|j: int| 0 <= j < i && #[trigger] spec_allowable_in_dir(*map, p, j),
        decreases 6 - i,
    {
        let ghost prev = r@;
        if let Some(n) = nb[i] {
            if allowable_start(map, n) {
                r.push(n);
                proof {
                    assert(spec_allowable_in_dir(*map, p, i as int));
                    assert forall|k: int| 0 <= k < r@.len() implies spec_allowable_start(
                        *map,
                        #[trigger] r@[k],
                    ) && exists|j: int|
                        0 <= j < 6 && spec_neighbor(p, dir_of(j), map.size) == Some(r@[k]) by {
                        if k < prev.len() {
                            assert(r@[k] == prev[k]);
                        } else {
                            assert(spec_neighbor(p, dir_of(i as int), map.size) == Some(r@[k]));
                        }
                    }
                }
            }
        }
        proof {
            if prev.len() == 0 && r@.len() == 0 {
                assert(!spec_allowable_in_dir(*map, p, i as int));
            }
        }
        i += 1;
    }
    r
}

/// Whether some tile of the map can take a settler with a warrior next to
/// it.
pub fn has_starting_position(map: &TerrainMap) -> (r: bool)
    requires
        map.wf(),
    ensures
        r == spec_can_start(*map),
{
    let allowable = allowable_starting_positions(map);
    let mut k: usize = 0;
    while k < allowable.len()
        invariant
            map.wf(),
            k <= allowable@.len(),
            forall|m: int| 0 <= m < allowable@.len() ==> spec_allowable_start(*map, #[trigger] allowable@[m]),
            forall|p: TilePos| spec_allowable_start(*map, p) ==> #[trigger] allowable@.contains(p),
            forall|m: int| 0 <= m < k ==> !spec_settler_start(*map, #[trigger] allowable@[m]),
        decreases allowable@.len() - k,
    {
        let p = allowable[k];
        if allowable_neighbors(map, p).len() > 0 {
            assert(spec_settler_start(*map, p));
            return true;
        }
        k += 1;
    }
    proof {
        assert forall|p: TilePos| !#[trigger] spec_settler_start(*map, p) by {
            if spec_settler_start(*map, p) {
                assert(allowable@.contains(p));
                let m = choose|m: int| 0 <= m < allowable@.len() && allowable@[m] == p;
            }
        }
    }
    false
}

/// Draws where a player's settler and warrior start: the settler at a random
/// tile where a unit can start, retrying without that tile while it has no
/// neighbor where a unit can start; the warrior at a random such neighbor.
#[verifier::spinoff_prover]
pub fn choose_starting_positions(rng: &mut RngState, map: &TerrainMap, allowable: &Vec<TilePos>) -> (r:
    (TilePos, TilePos))
    requires
        map.wf(),
        spec_can_start(*map),
        forall|p: TilePos| spec_allowable_start(*map, p) ==> #[trigger] allowable@.contains(p),
        forall|k: int| 0 <= k < allowable@.len() ==> spec_allowable_start(*map, #[trigger] allowable@[k]),
    ensures
        spec_allowable_start(*map, r.0),
        spec_allowable_start(*map, r.1),
        exists|i: int| 0 <= i < 6 && spec_neighbor(r.0, dir_of(i), map.size) == Some(r.1),
{
    let mut candidates: Vec<TilePos> = Vec::new();
    let mut k: usize = 0;
    while k < allowable.len()
        invariant
            k <= allowable@.len(),
            candidates@ == allowable@.subrange(0, k as int),
        decreases allowable@.len() - k,
    {
        candidates.push(allowable[k]);
        k += 1;
    }
    proof {
        assert(candidates@ =~= allowable@);
    }
    loop
        invariant
            map.wf(),
            spec_can_start(*map),
            forall|k: int| 0 <= k < candidates@.len() ==> spec_allowable_start(*map, #[trigger] candidates@[k]),
            forall|p: TilePos| spec_settler_start(*map, p) ==> #[trigger] candidates@.contains(p),
        decreases candidates@.len(),
    {
        let ghost prev = candidates@;
        proof {
            let p = choose|p: TilePos| #[trigger] spec_settler_start(*map, p);
            assert(candidates@.contains(p));
        }
        let i = choose_index(rng, candidates.len(), usize::BITS).unwrap();
        let settler = candidates.remove(i);
        assert(spec_allowable_start(*map, prev[i as int]));
        let nbs = allowable_neighbors(map, settler);
        if let Some(j) = choose_index(rng, nbs.len(), usize::BITS) {
            let warrior = nbs[j];
            assert(spec_allowable_start(*map, nbs@[j as int]));
            return (settler, warrior);
        }
        proof {
            assert(!spec_settler_start(*map, settler));
            assert forall|k: int| 0 <= k < candidates@.len() implies spec_allowable_start(
                *map,
                #[trigger] candidates@[k],
            ) by {
                if k < i {
                    assert(candidates@[k] == prev[k]);
                } else {
                    assert(candidates@[k] == prev[k + 1]);
                }
            }
            assert forall|p: TilePos| spec_settler_start(*map, p) implies #[trigger] candidates@.contains(p) by {
                assert(prev.contains(p));
                let m = choose|m: int| 0 <= m < prev.len() && prev[m] == p;
                assert(m != i);
                if m < i {
                    assert(candidates@[m] == p);
                } else {
                    assert(candidates@[m - 1] == p);
                }
            }
        }
    }
}

/// A fresh random unit identity, from `uuid::Uuid::new_v4` read as an
/// integer with `as_u128`. The value is random and nothing is stated of it.
#[verifier::external_body]
pub(crate) fn new_unit_id() -> (r: UnitId) {
    UnitId(uuid::Uuid::new_v4().as_u128())
}

/// The spawn events of the first units of a game: for every player, in
/// turn order, a settler and a warrior next to it, then the start of the
/// first turn. Players may share starting tiles.
#[verifier::spinoff_prover]
pub fn spawn_starting_units(rng: &mut RngState, map: &TerrainMap, players: &Vec<Player>) -> (r: (
    Vec<UnitSpawned>,
    TurnStarted,
))
    requires
        map.wf(),
        spec_can_start(*map),
    ensures
        r.1 == (TurnStarted { turn_num: 1 }),
        r.0@.len() == 2 * players@.len(),
        exists|s: Seq<Player>|
            #![trigger spec_sorted_by_index(s)]
            spec_sorted_by_index(s) && s.to_multiset() == players@.to_multiset() && s.len()
                == players@.len() && forall|k: int|
                0 <= k < s.len() ==> {
                    let settler = #[trigger] r.0@[2 * k];
                    let warrior = r.0@[2 * k + 1];
                    &&& settler.civ == s[k].civ
                    &&& warrior.civ == s[k].civ
                    &&& settler.unit_type == UnitType::Civilian(CivilianUnit::Settler)
                    &&& warrior.unit_type == UnitType::LandMilitary(LandMilitaryUnit::Warrior)
                    &&& spec_allowable_start(*map, settler.position)
                    &&& spec_allowable_start(*map, warrior.position)
                    &&& exists|i: int|
                        0 <= i < 6 && spec_neighbor(settler.position, dir_of(i), map.size) == Some(
                            warrior.position,
                        )
                },
{
    let sorted = sort_players(players);
    let allowable = allowable_starting_positions(map);
    let mut spawns: Vec<UnitSpawned> = Vec::new();
    let mut k: usize = 0;
    while k < sorted.len()
        invariant
            map.wf(),
            spec_can_start(*map),
            forall|p: TilePos| spec_allowable_start(*map, p) ==> #[trigger] allowable@.contains(p),
            forall|m: int| 0 <= m < allowable@.len() ==> spec_allowable_start(*map, #[trigger] allowable@[m]),
            k <= sorted@.len(),
            spawns@.len() == 2 * k,
            forall|m: int|
                0 <= m < k ==> {
                    let settler = #[trigger] spawns@[2 * m];
                    let warrior = spawns@[2 * m + 1];
                    &&& settler.civ == sorted@[m].civ
                    &&& warrior.civ == sorted@[m].civ
                    &&& settler.unit_type == UnitType::Civilian(CivilianUnit::Settler)
                    &&& warrior.unit_type == UnitType::LandMilitary(LandMilitaryUnit::Warrior)
                    &&& spec_allowable_start(*map, settler.position)
                    &&& spec_allowable_start(*map, warrior.position)
                    &&& exists|i: int|
                        0 <= i < 6 && spec_neighbor(settler.position, dir_of(i), map.size) == Some(
                            warrior.position,
                        )
                },
        decreases sorted@.len() - k,
    {
        let civ = sorted[k].civ;
        let (settler_pos, warrior_pos) = choose_starting_positions(rng, map, &allowable);
        let ghost prev = spawns@;
        spawns.push(
            UnitSpawned {
                unit_id: new_unit_id(),
                position: settler_pos,
                unit_type: UnitType::Civilian(CivilianUnit::Settler),
                civ,
            },
        );
        spawns.push(
            UnitSpawned {
                unit_id: new_unit_id(),
                position: warrior_pos,
                unit_type: UnitType::LandMilitary(LandMilitaryUnit::Warrior),
                civ,
            },
        );
        proof {
            assert forall|m: int| 0 <= m < k + 1 implies {
                let settler = #[trigger] spawns@[2 * m];
                let warrior = spawns@[2 * m + 1];
                &&& settler.civ == sorted@[m].civ
                &&& warrior.civ == sorted@[m].civ
                &&& settler.unit_type == UnitType::Civilian(CivilianUnit::Settler)
                &&& warrior.unit_type == UnitType::LandMilitary(LandMilitaryUnit::Warrior)
                &&& spec_allowable_start(*map, settler.position)
                &&& spec_allowable_start(*map, warrior.position)
                &&& exists|i: int|
                    0 <= i < 6 && spec_neighbor(settler.position, dir_of(i), map.size) == Some(
                        warrior.position,
                    )
            } by {
                if m < k {
                    assert(spawns@[2 * m] == prev[2 * m]);
                    assert(spawns@[2 * m + 1] == prev[2 * m + 1]);
                }
            }
        }
        k += 1;
    }
    proof {
        assert(spec_sorted_by_index(sorted@));
    }
    (spawns, TurnStarted { turn_num: 1 })
}

} // verus!
