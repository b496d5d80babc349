//! What the tiles show of the units that stand on them, and how a spawned or
//! a moved unit changes the units and what their tiles show.
use vstd::prelude::*;

use crate::hex::TilePos;
use crate::peer::HostBroadcast;
use crate::selection::{spec_is_shown_at, spec_unique_ids, unit_shown_at};
use crate::unit::{
    apply_unit_moved, lemma_out_of_moves_keeps_kind, spawned_unit, spec_is_civilian_state,
    spec_is_out_of_moves, spec_new_unit, spec_out_of_moves_state,
    MovementPoints, UnitBundle, UnitId, UnitMoved, UnitSpawned,
};

verus! {

/// The unit whose tiles each tile shows: one entry per tile that shows a
/// unit, the tile and the identity of that unit.
pub struct ShownUnits {
    pub entries: Vec<(TilePos, UnitId)>,
}

/// No two entries are for the same tile.
pub open spec fn spec_tiles_unique(e: Seq<(TilePos, UnitId)>) -> bool {
    forall|i: int, j: int|
        0 <= i < e.len() && 0 <= j < e.len() && i != j ==> (#[trigger] e[i]).0 != (#[trigger] e[j]).0
}

/// The unit shown at each tile that has an entry.
pub open spec fn spec_entries_map(e: Seq<(TilePos, UnitId)>) -> Map<TilePos, UnitId> {
    Map::new(
        |p: TilePos| exists|i: int| 0 <= i < e.len() && (#[trigger] e[i]).0 == p,
        |p: TilePos| e[choose|i: int| 0 <= i < e.len() && (#[trigger] e[i]).0 == p].1,
    )
}

impl View for ShownUnits {
    type V = Map<TilePos, UnitId>;

    open spec fn view(&self) -> Map<TilePos, UnitId> {
        spec_entries_map(self.entries@)
    }
}

/// With one entry per tile, the entry of a tile says which unit it shows.
pub proof fn lemma_entries_map_at(e: Seq<(TilePos, UnitId)>, k: int)
    requires
        spec_tiles_unique(e),
        0 <= k < e.len(),
    ensures
        spec_entries_map(e).contains_key(e[k].0),
        spec_entries_map(e)[e[k].0] == e[k].1,
{
    let p = e[k].0;
    assert(0 <= k < e.len() && e[k].0 == p);
    let c = choose|i: int| 0 <= i < e.len() && (#[trigger] e[i]).0 == p;
    assert(c == k);
}

impl ShownUnits {
    pub open spec fn wf(&self) -> bool {
        spec_tiles_unique(self.entries@)
    }

    /// No tile shows a unit.
    pub fn new() -> (r: ShownUnits)
        ensures
            r.wf(),
            r@ == Map::<TilePos, UnitId>::empty(),
    {
        let r = ShownUnits { entries: Vec::new() };
        assert(r@ =~= Map::<TilePos, UnitId>::empty());
        r
    }

    /// Index of the entry for tile `pos`, if there is one.
    fn find(&self, pos: TilePos) -> (r: Option<usize>)
        requires
            self.wf(),
        ensures
            r matches Some(k) ==> k < self.entries@.len() && self.entries@[k as int].0 == pos,
            r is None ==> forall|i: int|
                0 <= i < self.entries@.len() ==> (#[trigger] self.entries@[i]).0 != pos,
    {
        let mut i: usize = 0;
        while i < self.entries.len()
            invariant
                i <= self.entries@.len(),
                forall|j: int| 0 <= j < i ==> (#[trigger] self.entries@[j]).0 != pos,
            decreases self.entries@.len() - i,
        {
            let t = self.entries[i].0;
            if t.x == pos.x && t.y == pos.y {
                return Some(i);
            }
            i += 1;
        }
        None
    }

    /// The unit that tile `pos` shows, if it shows one.
    pub fn get(&self, pos: TilePos) -> (r: Option<UnitId>)
        requires
            self.wf(),
        ensures
            r == (if self@.contains_key(pos) {
                Some(self@[pos])
            } else {
                None::<UnitId>
            }),
    {
        match self.find(pos) {
            Some(k) => {
                proof {
                    lemma_entries_map_at(self.entries@, k as int);
                }
                Some(self.entries[k].1)
            },
            None => None,
        }
    }

    /// Tile `pos` shows unit `unit_id`.
    pub fn set(&mut self, pos: TilePos, unit_id: UnitId)
        requires
            old(self).wf(),
        ensures
            final(self).wf(),
            final(self)@ == old(self)@.insert(pos, unit_id),
    {
        let ghost old_e = self.entries@;
        match self.find(pos) {
            Some(k) => {
                self.entries.set(k, (pos, unit_id));
                proof {
                    let new_e = self.entries@;
                    assert(spec_tiles_unique(new_e));
                    assert forall|q: TilePos|
                        #![trigger spec_entries_map(new_e).contains_key(q)]
                        spec_entries_map(new_e).contains_key(q) == old(self)@.insert(
                            pos,
                            unit_id,
                        ).contains_key(q) by {
                        if old(self)@.contains_key(q) {
                            let i = choose|i: int| 0 <= i < old_e.len() && (#[trigger] old_e[i]).0 == q;
                            assert(new_e[i].0 == q);
                        }
                        if spec_entries_map(new_e).contains_key(q) {
                            let i = choose|i: int| 0 <= i < new_e.len() && (#[trigger] new_e[i]).0 == q;
                            assert(old_e[i].0 == q);
                        }
                    }
                    assert forall|q: TilePos| #[trigger]
                        spec_entries_map(new_e).contains_key(q) implies spec_entries_map(new_e)[q]
                        == old(self)@.insert(pos, unit_id)[q] by {
                        let i = choose|i: int| 0 <= i < new_e.len() && (#[trigger] new_e[i]).0 == q;
                        lemma_entries_map_at(new_e, i);
                        if q != pos {
                            lemma_entries_map_at(old_e, i);
                        }
                    }
                    assert(self@ =~= old(self)@.insert(pos, unit_id));
                }
            },
            None => {
                self.entries.push((pos, unit_id));
                proof {
                    let new_e = self.entries@;
                    assert(spec_tiles_unique(new_e));
                    assert forall|q: TilePos|
                        #![trigger spec_entries_map(new_e).contains_key(q)]
                        spec_entries_map(new_e).contains_key(q) == old(self)@.insert(
                            pos,
                            unit_id,
                        ).contains_key(q) by {
                        if old(self)@.contains_key(q) {
                            let i = choose|i: int| 0 <= i < old_e.len() && (#[trigger] old_e[i]).0 == q;
                            assert(new_e[i].0 == q);
                        }
                        if q == pos {
                            assert(new_e[old_e.len() as int].0 == q);
                        }
                        if spec_entries_map(new_e).contains_key(q) && q != pos {
                            let i = choose|i: int| 0 <= i < new_e.len() && (#[trigger] new_e[i]).0 == q;
                            assert(old_e[i].0 == q);
                        }
                    }
                    assert forall|q: TilePos| #[trigger]
                        spec_entries_map(new_e).contains_key(q) implies spec_entries_map(new_e)[q]
                        == old(self)@.insert(pos, unit_id)[q] by {
                        let i = choose|i: int| 0 <= i < new_e.len() && (#[trigger] new_e[i]).0 == q;
                        lemma_entries_map_at(new_e, i);
                        if q != pos {
                            lemma_entries_map_at(old_e, i);
                        }
                    }
                    assert(self@ =~= old(self)@.insert(pos, unit_id));
                }
            },
        }
    }

    /// Tile `pos` shows no unit.
    pub fn remove(&mut self, pos: TilePos)
        requires
            old(self).wf(),
        ensures
            final(self).wf(),
            final(self)@ == old(self)@.remove(pos),
    {
        let ghost old_e = self.entries@;
        match self.find(pos) {
            Some(k) => {
                let _ = self.entries.remove(k);
                proof {
                    let new_e = self.entries@;
                    assert(new_e =~= old_e.remove(k as int));
                    assert forall|i: int, j: int|
                        0 <= i < new_e.len() && 0 <= j < new_e.len() && i != j implies (
                    #[trigger] new_e[i]).0 != (#[trigger] new_e[j]).0 by {
                        let oi = if i < k {
                            i
                        } else {
                            i + 1
                        };
                        let oj = if j < k {
                            j
                        } else {
                            j + 1
                        };
                        assert(new_e[i] == old_e[oi]);
                        assert(new_e[j] == old_e[oj]);
                    }
                    assert forall|q: TilePos|
                        #![trigger spec_entries_map(new_e).contains_key(q)]
                        spec_entries_map(new_e).contains_key(q) == old(self)@.remove(
                            pos,
                        ).contains_key(q) by {
                        if old(self)@.contains_key(q) && q != pos {
                            let i = choose|i: int| 0 <= i < old_e.len() && (#[trigger] old_e[i]).0 == q;
                            assert(i != k);
                            if i < k {
                                assert(new_e[i].0 == q);
                            } else {
                                assert(new_e[i - 1].0 == q);
                            }
                        }
                        if spec_entries_map(new_e).contains_key(q) {
                            let i = choose|i: int| 0 <= i < new_e.len() && (#[trigger] new_e[i]).0 == q;
                            if i < k {
                                assert(old_e[i].0 == q);
                                assert(i != k);
                            } else {
                                assert(old_e[i + 1].0 == q);
                                assert(i + 1 != k);
                            }
                        }
                    }
                    assert forall|q: TilePos| #[trigger]
                        spec_entries_map(new_e).contains_key(q) implies spec_entries_map(new_e)[q]
                        == old(self)@.remove(pos)[q] by {
                        let i = choose|i: int| 0 <= i < new_e.len() && (#[trigger] new_e[i]).0 == q;
                        lemma_entries_map_at(new_e, i);
                        if i < k {
                            lemma_entries_map_at(old_e, i);
                        } else {
                            assert(new_e[i] == old_e[i + 1]);
                            lemma_entries_map_at(old_e, i + 1);
                        }
                    }
                    assert(self@ =~= old(self)@.remove(pos));
                }
            },
            None => {
                assert(self@ =~= old(self)@.remove(pos));
            },
        }
    }
}

/// Of the units standing at `pos`, `id` is the smallest identity.
pub open spec fn spec_is_least_id_at(units: Seq<UnitBundle>, pos: TilePos, id: UnitId) -> bool {
    &&& exists|k: int|
        0 <= k < units.len() && (#[trigger] units[k]).position == pos && units[k].unit_id == id
    &&& forall|j: int|
        0 <= j < units.len() && (#[trigger] units[j]).position == pos ==> units[j].unit_id.0 >= id.0
}

/// The smallest identity of the units standing at `pos`, if any stands
/// there: the unit whose tiles `pos` shows once the unit on top has left.
pub open spec fn spec_least_id_at(units: Seq<UnitBundle>, pos: TilePos) -> Option<UnitId> {
    if exists|k: int| 0 <= k < units.len() && (#[trigger] units[k]).position == pos {
        Some(choose|id: UnitId| spec_is_least_id_at(units, pos, id))
    } else {
        None
    }
}

/// The unit found by `unit_shown_at` has the smallest identity there.
proof fn lemma_shown_at_least(units: Seq<UnitBundle>, pos: TilePos, r: Option<usize>)
    requires
        spec_is_shown_at(units, pos, r),
    ensures
        r matches Some(k) ==> spec_least_id_at(units, pos) == Some(units[k as int].unit_id),
        r is None ==> spec_least_id_at(units, pos) is None,
{
    if let Some(k) = r {
        let k = k as int;
        assert(spec_is_least_id_at(units, pos, units[k].unit_id));
        let c = choose|id: UnitId| spec_is_least_id_at(units, pos, id);
        let kc = choose|j: int|
            0 <= j < units.len() && (#[trigger] units[j]).position == pos && units[j].unit_id == c;
        assert(units[kc].unit_id.0 >= units[k].unit_id.0);
        assert(units[k].unit_id.0 >= c.0);
    }
}

/// A unit after move `m`: on the new tile, with the cost paid, and out of
/// moves once exactly no movement points are left.
pub open spec fn spec_moved_unit(u: UnitBundle, m: UnitMoved) -> UnitBundle {
    let points = u.movement_points.0 - m.movement_cost;
    UnitBundle {
        position: m.to_pos,
        movement_points: MovementPoints(points as i32),
        unit_state: if points == 0 {
            spec_out_of_moves_state(u.unit_state)
        } else {
            u.unit_state
        },
        ..u
    }
}

/// A moved unit keeps its kind: its state is civilian after the move exactly
/// when it was before, and a move that spends its last points leaves it out
/// of moves.
pub proof fn lemma_moved_unit_keeps_kind(u: UnitBundle, m: UnitMoved)
    requires
        !spec_is_out_of_moves(u.unit_state),
    ensures
        spec_is_civilian_state(spec_moved_unit(u, m).unit_state) == spec_is_civilian_state(
            u.unit_state,
        ),
        u.movement_points.0 - m.movement_cost == 0 ==> spec_is_out_of_moves(
            spec_moved_unit(u, m).unit_state,
        ),
{
    lemma_out_of_moves_keeps_kind(u.unit_state);
}


/// Move `m` can be made by unit `u`: the unit stands where the move starts,
/// is not already out of moves when the move spends its last points, and
/// the points left fit in an `i32`.
pub open spec fn spec_move_applies(u: UnitBundle, m: UnitMoved) -> bool {
    &&& u.position == m.from_pos
    &&& u.movement_points.0 - m.movement_cost == 0 ==> !spec_is_out_of_moves(u.unit_state)
    &&& u.movement_points.0 - m.movement_cost >= i32::MIN
}

/// Index of the unit with identity `id`.
fn unit_index(units: &Vec<UnitBundle>, id: UnitId) -> (r: usize)
    requires
        exists|i: int| 0 <= i < units@.len() && (#[trigger] units@[i]).unit_id == id,
    ensures
        r < units@.len(),
        units@[r as int].unit_id == id,
{
    let mut i: usize = 0;
    while i < units.len()
        invariant
            i <= units@.len(),
            forall|j: int| 0 <= j < i ==> (#[trigger] units@[j]).unit_id != id,
        decreases units@.len() - i,
    {
        if units[i].unit_id.0 == id.0 {
            return i;
        }
        i += 1;
    }
    proof {
        let w = choose|i: int| 0 <= i < units@.len() && (#[trigger] units@[i]).unit_id == id;
        assert(units@[w].unit_id != id);
    }
    0
}

/// Handles a spawned unit: adds its components, shows it at its tile, and
/// returns the event that the host passes on to the other players (`None`
/// when not hosting).
pub fn handle_unit_spawned(
    units: &mut Vec<UnitBundle>,
    shown: &mut ShownUnits,
    hosting: bool,
    unit_spawned: UnitSpawned,
) -> (r: Option<HostBroadcast>)
    requires
        old(shown).wf(),
    ensures
        final(units)@ == old(units)@.push(
            spec_new_unit(
                unit_spawned.unit_id,
                unit_spawned.position,
                unit_spawned.civ,
                unit_spawned.unit_type,
            ),
        ),
        final(shown).wf(),
        final(shown)@ == old(shown)@.insert(unit_spawned.position, unit_spawned.unit_id),
        r == (if hosting {
            Some(HostBroadcast::UnitSpawned(unit_spawned))
        } else {
            None::<HostBroadcast>
        }),
{
    let unit = spawned_unit(unit_spawned);
    shown.set(unit.position, unit.unit_id);
    units.push(unit);
    if hosting {
        Some(HostBroadcast::UnitSpawned(unit_spawned))
    } else {
        None
    }
}

/// Handles a moved unit: the unit that moved stands on the new tile and pays
/// the cost; the tile it left shows the unit with the smallest identity
/// still there, or none; the new tile shows the unit that moved. Returns the
/// event that the host passes on to the other players (`None` when not
/// hosting).
pub fn handle_unit_moved(
    units: &mut Vec<UnitBundle>,
    shown: &mut ShownUnits,
    hosting: bool,
    unit_moved: UnitMoved,
) -> (r: Option<HostBroadcast>)
    requires
        old(shown).wf(),
        spec_unique_ids(old(units)@),
        exists|i: int|
            0 <= i < old(units)@.len() && (#[trigger] old(units)@[i]).unit_id == unit_moved.unit_id
                && spec_move_applies(old(units)@[i], unit_moved),
    ensures
        final(units)@.len() == old(units)@.len(),
        forall|k: int|
            0 <= k < old(units)@.len() ==> #[trigger] final(units)@[k] == if old(units)@[k].unit_id
                == unit_moved.unit_id {
                spec_moved_unit(old(units)@[k], unit_moved)
            } else {
                old(units)@[k]
            },
        final(shown).wf(),
        final(shown)@ == match spec_least_id_at(final(units)@, unit_moved.from_pos) {
            Some(id) => old(shown)@.insert(unit_moved.from_pos, id),
            None => old(shown)@.remove(unit_moved.from_pos),
        }.insert(unit_moved.to_pos, unit_moved.unit_id),
        r == (if hosting {
            Some(HostBroadcast::UnitMoved(unit_moved))
        } else {
            None::<HostBroadcast>
        }),
{
    proof {
        let w = choose|i: int|
            0 <= i < old(units)@.len() && (#[trigger] old(units)@[i]).unit_id == unit_moved.unit_id
                && spec_move_applies(old(units)@[i], unit_moved);
        assert(0 <= w < units@.len() && units@[w].unit_id == unit_moved.unit_id);
    }
    let i = unit_index(units, unit_moved.unit_id);
    proof {
        let w = choose|i: int|
            0 <= i < old(units)@.len() && (#[trigger] old(units)@[i]).unit_id == unit_moved.unit_id
                && spec_move_applies(old(units)@[i], unit_moved);
        assert(w == i);
    }
    let mut unit = units[i];
    apply_unit_moved(&mut unit, unit_moved);
    assert(unit == spec_moved_unit(old(units)@[i as int], unit_moved));
    units.set(i, unit);
    proof {
        assert forall|k: int| 0 <= k < old(units)@.len() && k != i implies old(units)@[k].unit_id
            != unit_moved.unit_id by {
            assert(old(units)@[k].unit_id != old(units)@[i as int].unit_id);
        }
    }
    let left = unit_shown_at(units, unit_moved.from_pos);
    proof {
        lemma_shown_at_least(units@, unit_moved.from_pos, left);
    }
    match left {
        Some(k) => shown.set(unit_moved.from_pos, units[k].unit_id),
        None => shown.remove(unit_moved.from_pos),
    }
    shown.set(unit_moved.to_pos, unit_moved.unit_id);
    if hosting {
        Some(HostBroadcast::UnitMoved(unit_moved))
    } else {
        None
    }
}

} // verus!
