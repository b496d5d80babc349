//! Players: their order, the civilizations they lead, and which of them is
//! the local player.
use vstd::prelude::*;

use crate::civilization::{lemma_variants_complete, spec_all_civilizations, Civilization};
use crate::peer::{Peer, PeerId};
use crate::random::{choose_multiple_civilizations, fastrand_choose_multiple_civilizations, RngState};

verus! {

/// Position of a player in the turn order.
#[derive(Copy, Clone, PartialEq, Eq, Structural, Debug, Hash)]
pub struct PlayerIndex(pub u8);

/// A player: its position in the turn order and the civilization it leads.
#[derive(Copy, Clone, PartialEq, Eq, Structural, Debug, Hash)]
pub struct Player {
    pub player_index: PlayerIndex,
    pub civ: Civilization,
}

/// Whether a player is still making moves this turn.
#[derive(Copy, Clone, PartialEq, Eq, Structural, Debug, Hash)]
pub enum PlayerState {
    Playing,
    WaitingForTurnEnd,
}

impl Default for PlayerState {
    fn default() -> (r: PlayerState)
        ensures
            r == PlayerState::Playing,
    {
        PlayerState::Playing
    }
}

/// Comparison of players, which goes by their position in the turn order
/// alone: -1, 0 or 1.
pub open spec fn spec_player_cmp(a: Player, b: Player) -> int {
    if a.player_index.0 < b.player_index.0 {
        -1
    } else if a.player_index.0 == b.player_index.0 {
        0
    } else {
        1
    }
}

impl Player {
    /// Compares players by their position in the turn order.
    pub fn cmp(&self, other: &Player) -> (r: core::cmp::Ordering)
        ensures
            (r == core::cmp::Ordering::Less) == (spec_player_cmp(*self, *other) == -1),
            (r == core::cmp::Ordering::Equal) == (spec_player_cmp(*self, *other) == 0),
            (r == core::cmp::Ordering::Greater) == (spec_player_cmp(*self, *other) == 1),
    {
        if self.player_index.0 < other.player_index.0 {
            core::cmp::Ordering::Less
        } else if self.player_index.0 == other.player_index.0 {
            core::cmp::Ordering::Equal
        } else {
            core::cmp::Ordering::Greater
        }
    }

    /// Compares players by their position in the turn order; always defined.
    pub fn partial_cmp(&self, other: &Player) -> (r: Option<core::cmp::Ordering>)
        ensures
            r is Some,
            (r == Some(core::cmp::Ordering::Less)) == (spec_player_cmp(*self, *other) == -1),
            (r == Some(core::cmp::Ordering::Equal)) == (spec_player_cmp(*self, *other) == 0),
            (r == Some(core::cmp::Ordering::Greater)) == (spec_player_cmp(*self, *other) == 1),
    {
        Some(self.cmp(other))
    }
}

/// Players are ordered as a total preorder by turn order: comparisons are
/// antisymmetric and transitive.
pub proof fn lemma_player_order(a: Player, b: Player, c: Player)
    ensures
        spec_player_cmp(a, b) == -spec_player_cmp(b, a),
        spec_player_cmp(a, a) == 0,
        spec_player_cmp(a, b) <= 0 && spec_player_cmp(b, c) <= 0 ==> spec_player_cmp(a, c) <= 0,
{
}

/// The players are ordered by their position in the turn order.
pub open spec fn spec_sorted_by_index(players: Seq<Player>) -> bool {
    forall|i: int, j: int|
        0 <= i < j < players.len() ==> (#[trigger] players[i]).player_index.0
            <= (#[trigger] players[j]).player_index.0
}

/// Sorts players by their position in the turn order.
#[verifier::spinoff_prover]
pub fn sort_players(players: &Vec<Player>) -> (r: Vec<Player>)
    ensures
        spec_sorted_by_index(r@),
        r@.to_multiset() == players@.to_multiset(),
        r@.len() == players@.len(),
{
    let mut r: Vec<Player> = Vec::new();
    let mut c: usize = 0;
    while c < players.len()
        invariant
            c <= players@.len(),
            r@ == players@.subrange(0, c as int),
        decreases players@.len() - c,
    {
        r.push(players[c]);
        c += 1;
    }
    proof {
        assert(r@ =~= players@);
    }
    let ghost initial = r@.to_multiset();
    if r.len() == 0 {
        return r;
    }
    let n = r.len();
    let mut i: usize = 1;
    while i < r.len()
        invariant
            1 <= i <= r@.len(),
            r@.len() == n,
            r@.to_multiset() == initial,
            forall|a: int, b: int|
                0 <= a < b < i ==> (#[trigger] r@[a]).player_index.0
                    <= (#[trigger] r@[b]).player_index.0,
        decreases r@.len() - i,
    {
        let mut j: usize = i;
        while j > 0 && r[j - 1].player_index.0 > r[j].player_index.0
            invariant
                0 <= j <= i < r@.len(),
                r@.len() == n,
                r@.to_multiset() == initial,
                forall|a: int, b: int|
                    0 <= a < b <= i && a != j && b != j ==> (#[trigger] r@[a]).player_index.0
                        <= (#[trigger] r@[b]).player_index.0,
                forall|b: int|
                    j < b <= i ==> r@[j as int].player_index.0 <= (#[trigger] r@[b]).player_index.0,
            decreases j,
        {
            let a = r[j - 1];
            let b = r[j];
            let ghost before = r@;
            r.set(j - 1, b);
            r.set(j, a);
            proof {
                assert(r@ =~= before.update(j - 1, before[j as int]).update(j as int, before[j - 1]));
                lemma_swap_multiset(before, j - 1, j as int);
            }
            j -= 1;
        }
        i += 1;
    }
    proof {
        broadcast use vstd::seq_lib::group_to_multiset_ensures;

        assert(r@.to_multiset().len() == players@.to_multiset().len());
    }
    r
}

/// Swapping two elements keeps the multiset of a sequence.
proof fn lemma_swap_multiset(s: Seq<Player>, i: int, j: int)
    requires
        0 <= i < s.len(),
        0 <= j < s.len(),
    ensures
        s.update(i, s[j]).update(j, s[i]).to_multiset() == s.to_multiset(),
{
    broadcast use vstd::seq_lib::group_to_multiset_ensures;

    let t = s.update(i, s[j]);
    assert(t.to_multiset() == s.to_multiset().remove(s[i]).insert(s[j]));
    assert(t.update(j, s[i]).to_multiset() == t.to_multiset().remove(t[j]).insert(s[i]));
    if i == j {
    } else {
        assert(t[j] == s[j]);
    }
}

/// Draws the civilizations of `num_players` players, each different, and
/// gives the players their positions in the turn order in the order drawn.
pub fn spawn_players(rng: &mut RngState, num_players: u8) -> (r: Vec<Player>)
    ensures
        ({
            let (civs, next) = fastrand_choose_multiple_civilizations(
                old(rng).0,
                spec_all_civilizations(),
                num_players as usize,
                usize::BITS,
            );
            &&& final(rng).0 == next
            &&& r@.len() == civs.len()
            &&& forall|i: int| 0 <= i < r@.len() ==> (#[trigger] r@[i]).civ == civs[i]
        }),
        r@.len() == if num_players <= 18 {
            num_players as int
        } else {
            18
        },
        forall|i: int| 0 <= i < r@.len() ==> (#[trigger] r@[i]).player_index.0 == i,
        forall|i: int, j: int|
            0 <= i < j < r@.len() ==> (#[trigger] r@[i]).civ != (#[trigger] r@[j]).civ,
{
    let civs = choose_multiple_civilizations(
        rng,
        Civilization::variants(),
        num_players as usize,
        usize::BITS,
    );
    proof {
        lemma_variants_complete(Civilization::America);
        lemma_sub_multiset_no_duplicates(civs@, spec_all_civilizations());
    }
    let mut players: Vec<Player> = Vec::new();
    let mut i: usize = 0;
    while i < civs.len()
        invariant
            i <= civs@.len(),
            civs@.len() <= 18,
            players@.len() == i,
            forall|k: int| 0 <= k < i ==> (#[trigger] players@[k]).player_index.0 == k,
            forall|k: int| 0 <= k < i ==> (#[trigger] players@[k]).civ == civs@[k],
        decreases civs@.len() - i,
    {
        players.push(Player { player_index: PlayerIndex(i as u8), civ: civs[i] });
        i += 1;
    }
    players
}

/// A part of a sequence without duplicates has no duplicates either.
pub proof fn lemma_sub_multiset_no_duplicates<A>(s: Seq<A>, t: Seq<A>)
    requires
        s.to_multiset().subset_of(t.to_multiset()),
        t.no_duplicates(),
    ensures
        s.no_duplicates(),
{
    t.lemma_multiset_has_no_duplicates();
    assert forall|x: A| s.to_multiset().contains(x) implies s.to_multiset().count(x)
        == 1 by {
        assert(s.to_multiset().count(x) <= t.to_multiset().count(x));
    }
    s.lemma_multiset_has_no_duplicates_conv();
}

/// Some player is in turn position `index`.
pub open spec fn spec_has_player(players: Seq<Player>, index: PlayerIndex) -> bool {
    exists|l: int| 0 <= l < players.len() && (#[trigger] players[l]).player_index == index
}

/// The player that the local peer controls: the player in the turn position
/// of the peer with the local peer's identity. `None` where no peer has that
/// identity.
pub fn init_our_player(our_peer_id: PeerId, peers: &Vec<Peer>, players: &Vec<Player>) -> (r: Option<
    usize,
>)
    requires
        forall|k: int|
            0 <= k < peers@.len() && (#[trigger] peers@[k]).peer_id == our_peer_id
                ==> spec_has_player(players@, peers@[k].player_index),
    ensures
        r is None <==> forall|k: int| 0 <= k < peers@.len() ==> (#[trigger] peers@[k]).peer_id != our_peer_id,
        r matches Some(l) ==> l < players@.len() && exists|k: int|
            0 <= k < peers@.len() && (#[trigger] peers@[k]).peer_id == our_peer_id
                && players@[l as int].player_index == peers@[k].player_index,
{
    let mut k: usize = 0;
    while k < peers.len()
        invariant
            k <= peers@.len(),
            forall|m: int| 0 <= m < k ==> (#[trigger] peers@[m]).peer_id != our_peer_id,
            forall|m: int|
                0 <= m < peers@.len() && (#[trigger] peers@[m]).peer_id == our_peer_id
                    ==> spec_has_player(players@, peers@[m].player_index),
        decreases peers@.len() - k,
    {
        if peers[k].peer_id.0 == our_peer_id.0 {
            let index = peers[k].player_index;
            proof {
                let kk = k as int;
                assert(0 <= kk < peers@.len() && peers@[kk].peer_id == our_peer_id);
                assert(index == peers@[kk].player_index);
            }
            let mut l: usize = 0;
            while l < players.len()
                invariant
                    l <= players@.len(),
                    k < peers@.len(),
                    index == peers@[k as int].player_index,
                    peers@[k as int].peer_id == our_peer_id,
                    spec_has_player(players@, index),
                    forall|n: int| 0 <= n < l ==> (#[trigger] players@[n]).player_index != index,
                decreases players@.len() - l,
            {
                if players[l].player_index.0 == index.0 {
                    return Some(l);
                }
                l += 1;
            }
            return None;
        }
        k += 1;
    }
    None
}

} // verus!
