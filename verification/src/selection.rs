//! Choosing the active unit: cycling through the ready units of the local
//! player, and selecting units by clicking at their tile.
use vstd::prelude::*;

use indexmap::IndexSet;

use crate::action::GlobalAction;
use crate::civilization::Civilization;
use crate::hex::TilePos;
use crate::id_set::{id_set_at, id_set_first_common, id_set_insert, id_set_is_empty, id_set_items, id_set_new};
use crate::unit::{spec_is_ready, UnitBundle, UnitId, UnitSelected};

verus! {

/// Which units a search looks at: those of a civilization, optionally only
/// those at one position, optionally only the ready ones.
#[derive(Copy, Clone, PartialEq, Eq, Structural, Debug)]
pub struct UnitQuery {
    pub civ: Civilization,
    pub position: Option<TilePos>,
    pub ready_only: bool,
}

pub open spec fn spec_query_matches(q: UnitQuery, u: UnitBundle) -> bool {
    &&& u.civ == q.civ
    &&& (q.position matches Some(p) ==> u.position == p)
    &&& (q.ready_only ==> spec_is_ready(u.unit_state))
}

/// No two units share an identity.
pub open spec fn spec_unique_ids(units: Seq<UnitBundle>) -> bool {
    forall|i: int, j: int|
        0 <= i < units.len() && 0 <= j < units.len() && i != j ==> (#[trigger] units[i]).unit_id
            != (#[trigger] units[j]).unit_id
}

/// Unit `i` matches the query and its identity lies strictly between the
/// bounds.
pub open spec fn spec_in_range(
    units: Seq<UnitBundle>,
    q: UnitQuery,
    lower: Option<u128>,
    upper: Option<u128>,
    i: int,
) -> bool {
    &&& 0 <= i < units.len()
    &&& spec_query_matches(q, units[i])
    &&& (lower matches Some(l) ==> units[i].unit_id.0 > l)
    &&& (upper matches Some(h) ==> units[i].unit_id.0 < h)
}

/// The unit with the smallest identity among those in range.
pub open spec fn spec_is_min(
    units: Seq<UnitBundle>,
    q: UnitQuery,
    lower: Option<u128>,
    upper: Option<u128>,
    r: Option<usize>,
) -> bool {
    match r {
        None => forall|j: int| !#[trigger] spec_in_range(units, q, lower, upper, j),
        Some(i) => spec_in_range(units, q, lower, upper, i as int) && forall|j: int|
            #[trigger] spec_in_range(units, q, lower, upper, j) ==> units[j].unit_id.0
                >= units[i as int].unit_id.0,
    }
}

/// The unit with the largest identity among those in range.
pub open spec fn spec_is_max(
    units: Seq<UnitBundle>,
    q: UnitQuery,
    lower: Option<u128>,
    upper: Option<u128>,
    r: Option<usize>,
) -> bool {
    match r {
        None => forall|j: int| !#[trigger] spec_in_range(units, q, lower, upper, j),
        Some(i) => spec_in_range(units, q, lower, upper, i as int) && forall|j: int|
            #[trigger] spec_in_range(units, q, lower, upper, j) ==> units[j].unit_id.0
                <= units[i as int].unit_id.0,
    }
}

fn query_matches(q: &UnitQuery, u: &UnitBundle) -> (r: bool)
    ensures
        r == spec_query_matches(*q, *u),
{
    let at = match q.position {
        None => true,
        Some(p) => u.position.x == p.x && u.position.y == p.y,
    };
    u.civ == q.civ && at && (!q.ready_only || u.unit_state.is_ready())
}

fn in_range(units: &Vec<UnitBundle>, q: &UnitQuery, lower: Option<u128>, upper: Option<u128>, i: usize) -> (r: bool)
    requires
        i < units@.len(),
    ensures
        r == spec_in_range(units@, *q, lower, upper, i as int),
{
    let u = &units[i];
    if !query_matches(q, u) {
        return false;
    }
    let above = match lower {
        None => true,
        Some(l) => u.unit_id.0 > l,
    };
    let below = match upper {
        None => true,
        Some(h) => u.unit_id.0 < h,
    };
    above && below
}

/// The unit with the smallest identity among those that match the query and
/// whose identity lies strictly between the bounds.
pub fn min_unit(units: &Vec<UnitBundle>, q: &UnitQuery, lower: Option<u128>, upper: Option<u128>) -> (r:
    Option<usize>)
    ensures
        spec_is_min(units@, *q, lower, upper, r),
{
    let mut best: Option<usize> = None;
    let mut i: usize = 0;
    while i < units.len()
        invariant
            i <= units@.len(),
            match best {
                None => forall|j: int| 0 <= j < i ==> !#[trigger] spec_in_range(units@, *q, lower, upper, j),
                Some(b) => b < i && spec_in_range(units@, *q, lower, upper, b as int) && forall|j: int|
                    0 <= j < i && #[trigger] spec_in_range(units@, *q, lower, upper, j) ==> units@[j].unit_id.0
                        >= units@[b as int].unit_id.0,
            },
        decreases units@.len() - i,
    {
        if in_range(units, q, lower, upper, i) {
            best = match best {
                None => Some(i),
                Some(b) => if units[i].unit_id.0 < units[b].unit_id.0 {
                    Some(i)
                } else {
                    Some(b)
                },
            };
        }
        i += 1;
    }
    best
}

/// The unit with the largest identity among those that match the query and
/// whose identity lies strictly between the bounds.
pub fn max_unit(units: &Vec<UnitBundle>, q: &UnitQuery, lower: Option<u128>, upper: Option<u128>) -> (r:
    Option<usize>)
    ensures
        spec_is_max(units@, *q, lower, upper, r),
{
    let mut best: Option<usize> = None;
    let mut i: usize = 0;
    while i < units.len()
        invariant
            i <= units@.len(),
            match best {
                None => forall|j: int| 0 <= j < i ==> !#[trigger] spec_in_range(units@, *q, lower, upper, j),
                Some(b) => b < i && spec_in_range(units@, *q, lower, upper, b as int) && forall|j: int|
                    0 <= j < i && #[trigger] spec_in_range(units@, *q, lower, upper, j) ==> units@[j].unit_id.0
                        <= units@[b as int].unit_id.0,
            },
        decreases units@.len() - i,
    {
        if in_range(units, q, lower, upper, i) {
            best = match best {
                None => Some(i),
                Some(b) => if units[i].unit_id.0 > units[b].unit_id.0 {
                    Some(i)
                } else {
                    Some(b)
                },
            };
        }
        i += 1;
    }
    best
}

/// The unit that a tile shows after a move: of the units standing at the
/// position, the one with the smallest identity.
pub open spec fn spec_is_shown_at(units: Seq<UnitBundle>, pos: TilePos, r: Option<usize>) -> bool {
    match r {
        None => forall|j: int| 0 <= j < units.len() ==> (#[trigger] units[j]).position != pos,
        Some(i) => 0 <= i < units.len() && units[i as int].position == pos && forall|j: int|
            0 <= j < units.len() && (#[trigger] units[j]).position == pos ==> units[j].unit_id.0
                >= units[i as int].unit_id.0,
    }
}

/// Of the units standing at `pos`, the one with the smallest identity: the
/// unit whose tiles are shown there once the unit that stood on top has left.
pub fn unit_shown_at(units: &Vec<UnitBundle>, pos: TilePos) -> (r: Option<usize>)
    ensures
        spec_is_shown_at(units@, pos, r),
{
    let mut best: Option<usize> = None;
    let mut i: usize = 0;
    while i < units.len()
        invariant
            i <= units@.len(),
            match best {
                None => forall|j: int| 0 <= j < i ==> (#[trigger] units@[j]).position != pos,
                Some(b) => b < i && units@[b as int].position == pos && forall|j: int|
                    0 <= j < i && (#[trigger] units@[j]).position == pos ==> units@[j].unit_id.0
                        >= units@[b as int].unit_id.0,
            },
        decreases units@.len() - i,
    {
        let u = &units[i];
        if u.position.x == pos.x && u.position.y == pos.y {
            best = match best {
                None => Some(i),
                Some(b) => if u.unit_id.0 < units[b].unit_id.0 {
                    Some(i)
                } else {
                    Some(b)
                },
            };
        }
        i += 1;
    }
    best
}

/// Some unit matching the query has identity `id`.
pub open spec fn spec_has_unit(units: Seq<UnitBundle>, q: UnitQuery, id: UnitId) -> bool {
    exists|j: int|
        0 <= j < units.len() && spec_query_matches(q, #[trigger] units[j]) && units[j].unit_id == id
}

fn has_unit(units: &Vec<UnitBundle>, q: &UnitQuery, id: UnitId) -> (r: bool)
    ensures
        r == spec_has_unit(units@, *q, id),
{
    let mut i: usize = 0;
    while i < units.len()
        invariant
            i <= units@.len(),
            forall|j: int|
                0 <= j < i ==> !(spec_query_matches(*q, #[trigger] units@[j]) && units@[j].unit_id
                    == id),
        decreases units@.len() - i,
    {
        if query_matches(q, &units[i]) && units[i].unit_id.0 == id.0 {
            return true;
        }
        i += 1;
    }
    false
}

/// `ids` are the identities of the units that match the query, each once,
/// in increasing order.
pub open spec fn spec_ids_in_order(units: Seq<UnitBundle>, q: UnitQuery, ids: Seq<u128>) -> bool {
    &&& forall|a: int, b: int| 0 <= a < b < ids.len() ==> ids[a] < ids[b]
    &&& forall|a: int|
        0 <= a < ids.len() ==> exists|j: int|
            #[trigger] spec_in_range(units, q, None, None, j) && units[j].unit_id.0 == #[trigger] ids[a]
    &&& forall|j: int| #[trigger] spec_in_range(units, q, None, None, j) ==> ids.contains(units[j].unit_id.0)
}

/// The identities of the units that match the query, in increasing order.
#[verifier::spinoff_prover]
pub fn ids_in_order(units: &Vec<UnitBundle>, q: &UnitQuery) -> (r: Vec<u128>)
    ensures
        spec_ids_in_order(units@, *q, r@),
{
    let mut ids: Vec<u128> = Vec::new();
    let mut lower: Option<u128> = None;
    loop
        invariant_except_break
            forall|a: int, b: int| 0 <= a < b < ids@.len() ==> ids@[a] < ids@[b],
            forall|a: int|
                0 <= a < ids@.len() ==> exists|j: int|
                    #[trigger] spec_in_range(units@, *q, None, None, j) && units@[j].unit_id.0
                        == #[trigger] ids@[a],
            lower is None <==> ids@.len() == 0,
            lower matches Some(l) ==> ids@.last() == l,
            forall|j: int|
                #[trigger] spec_in_range(units@, *q, None, None, j) && (lower matches Some(l)
                    && units@[j].unit_id.0 <= l) ==> ids@.contains(units@[j].unit_id.0),
        ensures
            spec_ids_in_order(units@, *q, ids@),
        decreases
            match lower {
                None => u128::MAX as int + 1,
                Some(l) => u128::MAX - l,
            },
    {
        let next = min_unit(units, q, lower, None);
        match next {
            None => {
                assert forall|j: int| #[trigger] spec_in_range(units@, *q, None, None, j) implies ids@.contains(
                    units@[j].unit_id.0,
                ) by {
                    if lower is None {
                        assert(spec_in_range(units@, *q, lower, None, j));
                    } else if units@[j].unit_id.0 > lower.unwrap() {
                        assert(spec_in_range(units@, *q, lower, None, j));
                    }
                }
                break;
            },
            Some(i) => {
                let id = units[i].unit_id.0;
                let ghost old_ids = ids@;
                let ghost old_lower = lower;
                assert(spec_in_range(units@, *q, lower, None, i as int));
                assert(spec_in_range(units@, *q, None, None, i as int));
                ids.push(id);
                lower = Some(id);
                proof {
                    assert(ids@[ids@.len() - 1] == id);
                    assert forall|a: int|
                        0 <= a < ids@.len() implies exists|j: int|
                        #[trigger] spec_in_range(units@, *q, None, None, j) && units@[j].unit_id.0
                            == #[trigger] ids@[a] by {
                        if a < old_ids.len() {
                            assert(ids@[a] == old_ids[a]);
                        }
                    }
                    assert forall|j: int|
                        #[trigger] spec_in_range(units@, *q, None, None, j) && (lower matches Some(l)
                            && units@[j].unit_id.0 <= l) implies ids@.contains(units@[j].unit_id.0) by {
                        if units@[j].unit_id.0 == id {
                            assert(ids@[ids@.len() - 1] == id);
                        } else if old_lower is Some && units@[j].unit_id.0 <= old_lower.unwrap() {
                            let k = choose|k: int| 0 <= k < old_ids.len() && old_ids[k] == units@[j].unit_id.0;
                            assert(ids@[k] == old_ids[k]);
                        } else {
                            assert(spec_in_range(units@, *q, old_lower, None, j));
                        }
                    }
                }
            },
        }
    }
    ids
}

pub open spec fn spec_increasing(ids: Seq<u128>) -> bool {
    forall|a: int, b: int| 0 <= a < b < ids.len() ==> ids[a] < ids[b]
}

/// The set of the identities, in their order.
fn id_set_of(ids: &Vec<u128>) -> (r: IndexSet<u128>)
    requires
        spec_increasing(ids@),
    ensures
        id_set_items(r) == ids@,
{
    let mut set = id_set_new();
    let mut i: usize = 0;
    while i < ids.len()
        invariant
            i <= ids@.len(),
            spec_increasing(ids@),
            id_set_items(set) == ids@.take(i as int),
        decreases ids@.len() - i,
    {
        proof {
            assert forall|m: int| 0 <= m < i implies ids@.take(i as int)[m] != ids@[i as int] by {
                assert(ids@[m] < ids@[i as int]);
            }
        }
        id_set_insert(&mut set, ids[i]);
        proof {
            assert(ids@.take(i as int).push(ids@[i as int]) =~= ids@.take(i + 1));
        }
        i += 1;
    }
    proof {
        assert(ids@.take(ids@.len() as int) =~= ids@);
    }
    set
}

/// The identities that come after `a` in `ids`, in their order: what is
/// left after skipping up to and including `a`.
#[verifier::spinoff_prover]
fn ids_after(ids: &Vec<u128>, a: u128) -> (r: IndexSet<u128>)
    requires
        spec_increasing(ids@),
    ensures
        (forall|m: int| 0 <= m < ids@.len() ==> ids@[m] != a) ==> id_set_items(r).len() == 0,
        forall|k: int| 0 <= k < ids@.len() && #[trigger] ids@[k] == a ==> id_set_items(r) == ids@.subrange(k + 1, ids@.len() as int),
{
    let mut set = id_set_new();
    let mut found = false;
    let ghost mut k: int = 0;
    let mut i: usize = 0;
    while i < ids.len()
        invariant
            i <= ids@.len(),
            spec_increasing(ids@),
            !found ==> id_set_items(set).len() == 0 && forall|m: int| 0 <= m < i ==> ids@[m] != a,
            found ==> 0 <= k < i && ids@[k] == a && id_set_items(set) == ids@.subrange(k + 1, i as int),
        decreases ids@.len() - i,
    {
        if found {
            proof {
                assert forall|m: int| 0 <= m < id_set_items(set).len() implies id_set_items(set)[m] != ids@[i as int] by {
                    assert(id_set_items(set)[m] == ids@[k + 1 + m]);
                    assert(ids@[k + 1 + m] < ids@[i as int]);
                }
            }
            id_set_insert(&mut set, ids[i]);
            proof {
                assert(ids@.subrange(k + 1, i as int).push(ids@[i as int]) =~= ids@.subrange(k + 1, i + 1));
            }
        } else if ids[i] == a {
            found = true;
            proof {
                k = i as int;
                assert(ids@.subrange(k + 1, i + 1) =~= Seq::<u128>::empty());
            }
        }
        i += 1;
    }
    proof {
        assert forall|k2: int| 0 <= k2 < ids@.len() && #[trigger] ids@[k2] == a implies id_set_items(set) == ids@.subrange(k2 + 1, ids@.len() as int) by {
            if k2 != k {
                if k2 < k {
                    assert(ids@[k2] < ids@[k]);
                } else {
                    assert(ids@[k] < ids@[k2]);
                }
            }
        }
    }
    set
}

/// The identities that come before `a` in `ids`, last first: what is left
/// of `ids` walked backwards after skipping up to and including `a`.
#[verifier::spinoff_prover]
fn ids_before(ids: &Vec<u128>, a: u128) -> (r: IndexSet<u128>)
    requires
        spec_increasing(ids@),
    ensures
        (forall|m: int| 0 <= m < ids@.len() ==> ids@[m] != a) ==> id_set_items(r).len() == 0,
        forall|k: int| 0 <= k < ids@.len() && #[trigger] ids@[k] == a ==> id_set_items(r).len() == k
            && forall|t: int| 0 <= t < k ==> #[trigger] id_set_items(r)[t] == ids@[k - 1 - t],
{
    let mut set = id_set_new();
    let mut found = false;
    let ghost mut k: int = 0;
    let mut i: usize = ids.len();
    while i > 0
        invariant
            i <= ids@.len(),
            spec_increasing(ids@),
            !found ==> id_set_items(set).len() == 0 && forall|m: int| i <= m < ids@.len() ==> ids@[m] != a,
            found ==> i <= k < ids@.len() && ids@[k] == a && id_set_items(set).len() == k - i
                && forall|t: int| 0 <= t < k - i ==> #[trigger] id_set_items(set)[t] == ids@[k - 1 - t],
        decreases i,
    {
        i -= 1;
        if found {
            proof {
                assert forall|m: int| 0 <= m < id_set_items(set).len() implies id_set_items(set)[m] != ids@[i as int] by {
                    assert(id_set_items(set)[m] == ids@[k - 1 - m]);
                    assert(ids@[i as int] < ids@[k - 1 - m]);
                }
            }
            let ghost before = id_set_items(set);
            id_set_insert(&mut set, ids[i]);
            proof {
                assert forall|t: int| 0 <= t < k - i implies #[trigger] id_set_items(set)[t] == ids@[k - 1 - t] by {
                    if t < k - i - 1 {
                        assert(id_set_items(set)[t] == before[t]);
                    }
                }
            }
        } else if ids[i] == a {
            found = true;
            proof {
                k = i as int;
            }
        }
    }
    proof {
        assert forall|k2: int| 0 <= k2 < ids@.len() && #[trigger] ids@[k2] == a implies id_set_items(set).len() == k2
            && forall|t: int| 0 <= t < k2 ==> #[trigger] id_set_items(set)[t] == ids@[k2 - 1 - t] by {
            if k2 != k {
                if k2 < k {
                    assert(ids@[k2] < ids@[k]);
                } else {
                    assert(ids@[k] < ids@[k2]);
                }
            }
        }
    }
    set
}

/// The place of the unit that matches the query and has identity `id`.
fn find_unit(units: &Vec<UnitBundle>, q: &UnitQuery, id: u128) -> (r: Option<usize>)
    ensures
        match r {
            None => forall|j: int| !(#[trigger] spec_in_range(units@, *q, None, None, j) && units@[j].unit_id.0 == id),
            Some(i) => spec_in_range(units@, *q, None, None, i as int) && units@[i as int].unit_id.0 == id,
        },
{
    let mut i: usize = 0;
    while i < units.len()
        invariant
            i <= units@.len(),
            forall|j: int| 0 <= j < i ==> !(#[trigger] spec_in_range(units@, *q, None, None, j) && units@[j].unit_id.0 == id),
        decreases units@.len() - i,
    {
        if in_range(units, q, None, None, i) && units[i].unit_id.0 == id {
            return Some(i);
        }
        i += 1;
    }
    None
}

/// Selection of unit `i`.
pub open spec fn spec_selected(units: Seq<UnitBundle>, i: Option<usize>) -> Option<UnitSelected> {
    match i {
        None => None,
        Some(i) => Some(
            UnitSelected { unit_id: units[i as int].unit_id, position: units[i as int].position },
        ),
    }
}

fn selected(units: &Vec<UnitBundle>, i: Option<usize>) -> (r: Option<UnitSelected>)
    requires
        i matches Some(k) ==> k < units@.len(),
    ensures
        r == spec_selected(units@, i),
{
    match i {
        None => None,
        Some(k) => Some(UnitSelected { unit_id: units[k].unit_id, position: units[k].position }),
    }
}

/// Whether some unit of the civilization is ready.
pub fn has_ready_units(units: &Vec<UnitBundle>, current_civ: Civilization) -> (r: bool)
    ensures
        r == exists|j: int|
            0 <= j < units@.len() && (#[trigger] units@[j]).civ == current_civ && spec_is_ready(
                units@[j].unit_state,
            ),
{
    let q = UnitQuery { civ: current_civ, position: None, ready_only: true };
    let r = min_unit(units, &q, None, None);
    proof {
        if let Some(i) = r {
            assert(spec_in_range(units@, q, None, None, i as int));
        } else {
            assert forall|j: int|
                0 <= j < units@.len() && (#[trigger] units@[j]).civ == current_civ
                    && spec_is_ready(units@[j].unit_state) implies false by {
                assert(spec_in_range(units@, q, None, None, j));
            }
        }
    }
    r.is_some()
}

/// The unit that cycling to the previous or next ready unit selects, with the
/// units of the local civilization ordered by identity: with no active unit,
/// the first ready unit; going back, the last ready unit before the active
/// one; going forward, the first ready unit after it. Nothing where there is
/// no ready unit, no such unit, no action, or where the active unit is not
/// one of the local civilization.
pub open spec fn spec_cycle_ready_unit(
    units: Seq<UnitBundle>,
    current_civ: Civilization,
    active: Option<UnitId>,
    action: Option<GlobalAction>,
    r: Option<UnitSelected>,
) -> bool {
    let ready = UnitQuery { civ: current_civ, position: None, ready_only: true };
    let ours = UnitQuery { civ: current_civ, position: None, ready_only: false };
    if forall|j: int| !#[trigger] spec_in_range(units, ready, None, None, j) {
        r is None
    } else {
        match active {
            None => exists|i: usize|
                #![trigger spec_selected(units, Some(i))]
                spec_is_min(units, ready, None, None, Some(i)) && r == spec_selected(units, Some(i)),
            Some(a) => if !spec_has_unit(units, ours, a) {
                r is None
            } else {
                match action {
                    None => r is None,
                    Some(GlobalAction::PreviousReadyUnit) => exists|i: Option<usize>|
                        #![trigger spec_selected(units, i)]
                        spec_is_max(units, ready, None, Some(a.0), i) && r == spec_selected(units, i),
                    Some(GlobalAction::NextReadyUnit) => exists|i: Option<usize>|
                        #![trigger spec_selected(units, i)]
                        spec_is_min(units, ready, Some(a.0), None, i) && r == spec_selected(units, i),
                }
            },
        }
    }
}

/// Cycles to the previous or next ready unit of the local civilization, as
/// the action that was just taken asks (going back where both were taken).
#[verifier::spinoff_prover]
pub fn cycle_ready_unit(
    units: &Vec<UnitBundle>,
    current_civ: Civilization,
    active: Option<UnitId>,
    action: Option<GlobalAction>,
) -> (r: Option<UnitSelected>)
    requires
        spec_unique_ids(units@),
    ensures
        spec_cycle_ready_unit(units@, current_civ, active, action, r),
        r matches Some(s) ==> exists|j: int|
            0 <= j < units@.len() && (#[trigger] units@[j]).unit_id == s.unit_id && units@[j].civ
                == current_civ && spec_is_ready(units@[j].unit_state) && units@[j].position
                == s.position,
{
    let ready = UnitQuery { civ: current_civ, position: None, ready_only: true };
    let ours = UnitQuery { civ: current_civ, position: None, ready_only: false };
    let ready_ids = ids_in_order(units, &ready);
    let ready_units = id_set_of(&ready_ids);
    if id_set_is_empty(&ready_units) {
        proof {
            assert forall|j: int| !#[trigger] spec_in_range(units@, ready, None, None, j) by {
                if spec_in_range(units@, ready, None, None, j) {
                    assert(ready_ids@.contains(units@[j].unit_id.0));
                }
            }
        }
        return None;
    }
    match active {
        None => {
            let first = id_set_at(&ready_units, 0);
            let found = find_unit(units, &ready, first);
            proof {
                assert(ready_ids@[0] == first);
                let j0 = choose|j: int|
                    #[trigger] spec_in_range(units@, ready, None, None, j) && units@[j].unit_id.0 == ready_ids@[0];
                assert(spec_in_range(units@, ready, None, None, j0) && units@[j0].unit_id.0 == first);
                let i = found.unwrap();
                assert forall|j: int| #[trigger] spec_in_range(units@, ready, None, None, j) implies units@[j].unit_id.0
                    >= units@[i as int].unit_id.0 by {
                    let p = choose|p: int| 0 <= p < ready_ids@.len() && ready_ids@[p] == units@[j].unit_id.0;
                    if p > 0 {
                        assert(ready_ids@[0] < ready_ids@[p]);
                    }
                }
                assert(spec_is_min(units@, ready, None, None, found));
            }
            selected(units, found)
        },
        Some(a) => {
            let forward = match action {
                None => {
                    return None;
                },
                Some(GlobalAction::PreviousReadyUnit) => false,
                Some(GlobalAction::NextReadyUnit) => true,
            };
            let our_ids = ids_in_order(units, &ours);
            let candidates = if forward {
                ids_after(&our_ids, a.0)
            } else {
                ids_before(&our_ids, a.0)
            };
            let common = id_set_first_common(&candidates, &ready_units);
            let found = match common {
                None => None,
                Some(v) => find_unit(units, &ready, v),
            };
            proof {
                lemma_cycle_step(units@, current_civ, a, forward, ready_ids@, our_ids@, id_set_items(candidates), common, found);
            }
            selected(units, found)
        },
    }
}

/// Why walking the units of the local civilization from the active one and
/// taking the first ready one gives the nearest ready unit in that direction.
#[verifier::spinoff_prover]
proof fn lemma_cycle_step(
    units: Seq<UnitBundle>,
    current_civ: Civilization,
    a: UnitId,
    forward: bool,
    ready_ids: Seq<u128>,
    our_ids: Seq<u128>,
    candidates: Seq<u128>,
    common: Option<u128>,
    found: Option<usize>,
)
    requires
        spec_unique_ids(units),
        spec_ids_in_order(units, UnitQuery { civ: current_civ, position: None, ready_only: true }, ready_ids),
        spec_ids_in_order(units, UnitQuery { civ: current_civ, position: None, ready_only: false }, our_ids),
        forward ==> (forall|m: int| 0 <= m < our_ids.len() ==> our_ids[m] != a.0) ==> candidates.len() == 0,
        forward ==> forall|k: int| 0 <= k < our_ids.len() && #[trigger] our_ids[k] == a.0 ==> candidates
            == our_ids.subrange(k + 1, our_ids.len() as int),
        !forward ==> (forall|m: int| 0 <= m < our_ids.len() ==> our_ids[m] != a.0) ==> candidates.len() == 0,
        !forward ==> forall|k: int| 0 <= k < our_ids.len() && #[trigger] our_ids[k] == a.0 ==> candidates.len() == k
            && forall|t: int| 0 <= t < k ==> #[trigger] candidates[t] == our_ids[k - 1 - t],
        match common {
            None => forall|k: int| 0 <= k < candidates.len() ==> !ready_ids.contains(#[trigger] candidates[k]),
            Some(v) => exists|k: int|
                0 <= k < candidates.len() && #[trigger] candidates[k] == v && ready_ids.contains(v)
                    && forall|m: int| 0 <= m < k ==> !ready_ids.contains(#[trigger] candidates[m]),
        },
        match common {
            None => found is None,
            Some(v) => match found {
                None => forall|j: int| !(#[trigger] spec_in_range(units, UnitQuery { civ: current_civ, position: None, ready_only: true }, None, None, j) && units[j].unit_id.0 == v),
                Some(i) => spec_in_range(units, UnitQuery { civ: current_civ, position: None, ready_only: true }, None, None, i as int) && units[i as int].unit_id.0 == v,
            },
        },
    ensures
        found matches Some(i) ==> i < units.len(),
        spec_has_unit(units, UnitQuery { civ: current_civ, position: None, ready_only: false }, a) ==> (
            forward ==> spec_is_min(units, UnitQuery { civ: current_civ, position: None, ready_only: true }, Some(a.0), None, found)),
        spec_has_unit(units, UnitQuery { civ: current_civ, position: None, ready_only: false }, a) ==> (
            !forward ==> spec_is_max(units, UnitQuery { civ: current_civ, position: None, ready_only: true }, None, Some(a.0), found)),
        !spec_has_unit(units, UnitQuery { civ: current_civ, position: None, ready_only: false }, a) ==> found is None,
        found matches Some(i) ==> spec_in_range(units, UnitQuery { civ: current_civ, position: None, ready_only: true }, None, None, i as int),
{
    let ready = UnitQuery { civ: current_civ, position: None, ready_only: true };
    let ours = UnitQuery { civ: current_civ, position: None, ready_only: false };
    if let Some(v) = common {
        let k = choose|k: int|
            0 <= k < candidates.len() && #[trigger] candidates[k] == v && ready_ids.contains(v)
                && forall|m: int| 0 <= m < k ==> !ready_ids.contains(#[trigger] candidates[m]);
        let p = choose|p: int| 0 <= p < ready_ids.len() && ready_ids[p] == v;
        let j0 = choose|j: int| #[trigger] spec_in_range(units, ready, None, None, j) && units[j].unit_id.0 == ready_ids[p];
        assert(spec_in_range(units, ready, None, None, j0) && units[j0].unit_id.0 == v);
    }
    if spec_has_unit(units, ours, a) {
        let ja = choose|j: int| 0 <= j < units.len() && spec_query_matches(ours, #[trigger] units[j]) && units[j].unit_id == a;
        assert(spec_in_range(units, ours, None, None, ja));
        let ka = choose|k: int| 0 <= k < our_ids.len() && our_ids[k] == a.0;
        assert(our_ids[ka] == a.0);
        // Every ready unit is one of ours, at its place in `our_ids`.
        assert forall|j: int| #[trigger] spec_in_range(units, ready, None, None, j) implies exists|p: int|
            0 <= p < our_ids.len() && our_ids[p] == units[j].unit_id.0 && ready_ids.contains(our_ids[p]) by {
            assert(spec_in_range(units, ours, None, None, j));
        }
        if forward {
            match found {
                None => {
                    assert forall|j: int| !#[trigger] spec_in_range(units, ready, Some(a.0), None, j) by {
                        if spec_in_range(units, ready, Some(a.0), None, j) {
                            assert(spec_in_range(units, ready, None, None, j));
                            let p = choose|p: int| 0 <= p < our_ids.len() && our_ids[p] == units[j].unit_id.0 && ready_ids.contains(our_ids[p]);
                            if p <= ka {
                                if p < ka {
                                    assert(our_ids[p] < our_ids[ka]);
                                }
                            } else {
                                assert(candidates[p - ka - 1] == our_ids[p]);
                            }
                        }
                    }
                },
                Some(i) => {
                    let v = common.unwrap();
                    let k = choose|k: int|
                        0 <= k < candidates.len() && #[trigger] candidates[k] == v && ready_ids.contains(v)
                            && forall|m: int| 0 <= m < k ==> !ready_ids.contains(#[trigger] candidates[m]);
                    assert(candidates[k] == our_ids[ka + 1 + k]);
                    assert(our_ids[ka] < our_ids[ka + 1 + k]);
                    assert(spec_in_range(units, ready, Some(a.0), None, i as int));
                    assert forall|j: int| #[trigger] spec_in_range(units, ready, Some(a.0), None, j) implies units[j].unit_id.0
                        >= units[i as int].unit_id.0 by {
                        assert(spec_in_range(units, ready, None, None, j));
                        let p = choose|p: int| 0 <= p < our_ids.len() && our_ids[p] == units[j].unit_id.0 && ready_ids.contains(our_ids[p]);
                        if p <= ka {
                            if p < ka {
                                assert(our_ids[p] < our_ids[ka]);
                            }
                        } else {
                            assert(candidates[p - ka - 1] == our_ids[p]);
                            if p - ka - 1 < k {
                            } else if p - ka - 1 > k {
                                assert(our_ids[ka + 1 + k] < our_ids[p]);
                            }
                        }
                    }
                },
            }
        } else {
            match found {
                None => {
                    assert forall|j: int| !#[trigger] spec_in_range(units, ready, None, Some(a.0), j) by {
                        if spec_in_range(units, ready, None, Some(a.0), j) {
                            assert(spec_in_range(units, ready, None, None, j));
                            let p = choose|p: int| 0 <= p < our_ids.len() && our_ids[p] == units[j].unit_id.0 && ready_ids.contains(our_ids[p]);
                            if p >= ka {
                                if p > ka {
                                    assert(our_ids[ka] < our_ids[p]);
                                }
                            } else {
                                assert(candidates[ka - 1 - p] == our_ids[ka - 1 - (ka - 1 - p)]);
                            }
                        }
                    }
                },
                Some(i) => {
                    let v = common.unwrap();
                    let k = choose|k: int|
                        0 <= k < candidates.len() && #[trigger] candidates[k] == v && ready_ids.contains(v)
                            && forall|m: int| 0 <= m < k ==> !ready_ids.contains(#[trigger] candidates[m]);
                    assert(candidates[k] == our_ids[ka - 1 - k]);
                    assert(our_ids[ka - 1 - k] < our_ids[ka]);
                    assert(spec_in_range(units, ready, None, Some(a.0), i as int));
                    assert forall|j: int| #[trigger] spec_in_range(units, ready, None, Some(a.0), j) implies units[j].unit_id.0
                        <= units[i as int].unit_id.0 by {
                        assert(spec_in_range(units, ready, None, None, j));
                        let p = choose|p: int| 0 <= p < our_ids.len() && our_ids[p] == units[j].unit_id.0 && ready_ids.contains(our_ids[p]);
                        if p >= ka {
                            if p > ka {
                                assert(our_ids[ka] < our_ids[p]);
                            }
                        } else {
                            assert(candidates[ka - 1 - p] == our_ids[ka - 1 - (ka - 1 - p)]);
                            if ka - 1 - p < k {
                            } else if ka - 1 - p > k {
                                assert(our_ids[p] < our_ids[ka - 1 - k]);
                            }
                        }
                    }
                },
            }
        }
    } else {
        assert forall|m: int| 0 <= m < our_ids.len() implies our_ids[m] != a.0 by {
            let j = choose|j: int| #[trigger] spec_in_range(units, ours, None, None, j) && units[j].unit_id.0 == our_ids[m];
            if our_ids[m] == a.0 {
                assert(units[j].unit_id == a);
            }
        }
    }
}

/// Cycling forward from a ready unit and then back returns to that unit.
#[verifier::spinoff_prover]
pub proof fn lemma_cycle_next_then_previous(
    units: Seq<UnitBundle>,
    current_civ: Civilization,
    ia: int,
    s: UnitSelected,
    back: Option<UnitSelected>,
)
    requires
        spec_unique_ids(units),
        0 <= ia < units.len(),
        units[ia].civ == current_civ,
        spec_is_ready(units[ia].unit_state),
        spec_cycle_ready_unit(units, current_civ, Some(units[ia].unit_id), Some(GlobalAction::NextReadyUnit), Some(s)),
        spec_cycle_ready_unit(units, current_civ, Some(s.unit_id), Some(GlobalAction::PreviousReadyUnit), back),
    ensures
        back == Some(UnitSelected { unit_id: units[ia].unit_id, position: units[ia].position }),
{
    let ready = UnitQuery { civ: current_civ, position: None, ready_only: true };
    let ours = UnitQuery { civ: current_civ, position: None, ready_only: false };
    let a = units[ia].unit_id;
    assert(spec_in_range(units, ready, None, None, ia));
    assert(spec_query_matches(ours, units[ia]));
    assert(spec_has_unit(units, ours, a));
    let i = choose|i: Option<usize>|
        #![trigger spec_selected(units, i)]
        spec_is_min(units, ready, Some(a.0), None, i) && Some(s) == spec_selected(units, i);
    let k = i.unwrap() as int;
    assert(spec_in_range(units, ready, Some(a.0), None, k));
    assert(spec_query_matches(ours, units[k]));
    assert(spec_has_unit(units, ours, s.unit_id));
    assert(spec_in_range(units, ready, None, Some(s.unit_id.0), ia));
    let j = choose|j: Option<usize>|
        #![trigger spec_selected(units, j)]
        spec_is_max(units, ready, None, Some(s.unit_id.0), j) && back == spec_selected(units, j);
    let m = j.unwrap() as int;
    if units[m].unit_id.0 > a.0 {
        assert(spec_in_range(units, ready, Some(a.0), None, m));
    }
    assert(units[m].unit_id == a);
    if m != ia {
        assert(units[m].unit_id != units[ia].unit_id);
    }
}

/// The unit that a click at `cursor` selects, among the units of the local
/// civilization there, ordered by identity. Where the active unit stands at
/// `cursor`, the click cycles through the units stacked there: the first one
/// after the active unit, else the first one, else the active unit again;
/// where the active unit is not among them, the first one. Otherwise the unit
/// shown at `cursor` is selected. Nothing where no unit of the local
/// civilization stands at `cursor`.
pub open spec fn spec_select_unit(
    units: Seq<UnitBundle>,
    current_civ: Civilization,
    cursor: TilePos,
    active: Option<(TilePos, UnitId)>,
    shown_at_cursor: UnitId,
    r: Option<UnitSelected>,
) -> bool {
    let here = UnitQuery { civ: current_civ, position: Some(cursor), ready_only: false };
    if forall|j: int| !#[trigger] spec_in_range(units, here, None, None, j) {
        r is None
    } else {
        match active {
            Some((pos, a)) if pos == cursor => if spec_has_unit(units, here, a) && exists|j: int|
                #[trigger] spec_in_range(units, here, Some(a.0), None, j) {
                exists|i: usize|
                    #![trigger spec_selected(units, Some(i))]
                    spec_is_min(units, here, Some(a.0), None, Some(i)) && r == spec_selected(
                        units,
                        Some(i),
                    )
            } else if !spec_has_unit(units, here, a) || exists|j: int|
                #[trigger] spec_in_range(units, here, None, Some(a.0), j) {
                exists|i: usize|
                    #![trigger spec_selected(units, Some(i))]
                    spec_is_min(units, here, None, None, Some(i)) && r == spec_selected(
                        units,
                        Some(i),
                    )
            } else {
                r == Some(UnitSelected { unit_id: a, position: pos })
            },
            _ => r == Some(UnitSelected { unit_id: shown_at_cursor, position: cursor }),
        }
    }
}

/// Selects a unit of the local civilization at the clicked tile `cursor`.
#[verifier::spinoff_prover]
pub fn select_unit(
    units: &Vec<UnitBundle>,
    current_civ: Civilization,
    cursor: TilePos,
    active: Option<(TilePos, UnitId)>,
    shown_at_cursor: UnitId,
) -> (r: Option<UnitSelected>)
    requires
        spec_unique_ids(units@),
    ensures
        spec_select_unit(units@, current_civ, cursor, active, shown_at_cursor, r),
{
    let here = UnitQuery { civ: current_civ, position: Some(cursor), ready_only: false };
    let first = min_unit(units, &here, None, None);
    if first.is_none() {
        return None;
    }
    proof {
        assert(spec_in_range(units@, here, None, None, first.unwrap() as int));
    }
    match active {
        Some((pos, a)) => {
            if pos.x == cursor.x && pos.y == cursor.y {
                let present = has_unit(units, &here, a);
                if present {
                    let next = min_unit(units, &here, Some(a.0), None);
                    if next.is_some() {
                        proof {
                            assert(spec_in_range(units@, here, Some(a.0), None, next.unwrap() as int));
                        }
                        return selected(units, next);
                    }
                    let before = min_unit(units, &here, None, Some(a.0));
                    if before.is_some() {
                        proof {
                            assert(spec_in_range(units@, here, None, Some(a.0), before.unwrap() as int));
                        }
                        return selected(units, first);
                    }
                    Some(UnitSelected { unit_id: a, position: pos })
                } else {
                    selected(units, first)
                }
            } else {
                Some(UnitSelected { unit_id: shown_at_cursor, position: cursor })
            }
        },
        None => Some(UnitSelected { unit_id: shown_at_cursor, position: cursor }),
    }
}

} // verus!
