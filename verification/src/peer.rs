//! The multiplayer protocol: peers and the players they control, the events
//! that the host broadcasts to the other players, and the requests that the
//! other players send to the host.
use vstd::prelude::*;

use crate::player::PlayerIndex;
use crate::turn::TurnStarted;
use crate::unit::{UnitMoved, UnitSpawned};

verus! {

/// Identity of a peer of the game session (a UUID as an integer).
#[derive(Copy, Clone, PartialEq, Eq, Structural, Debug, Hash)]
pub struct PeerId(pub u128);

/// A peer and the player that it controls.
#[derive(Copy, Clone, PartialEq, Eq, Structural, Debug, Hash)]
pub struct Peer {
    pub peer_id: PeerId,
    pub player_index: PlayerIndex,
}

/// A peer connected, as the player in the given turn position.
#[derive(Copy, Clone, PartialEq, Eq, Structural, Debug, Hash)]
pub struct PeerConnected {
    pub peer_id: PeerId,
    pub player_index: u8,
}

/// An event that the host broadcasts to the other players.
#[derive(Copy, Clone, PartialEq, Eq, Structural, Debug, Hash)]
pub enum HostBroadcast {
    PeerConnected(PeerConnected),
    TurnStarted(TurnStarted),
    UnitSpawned(UnitSpawned),
    UnitMoved(UnitMoved),
}

/// A request that another player sends to the host.
#[derive(Copy, Clone, PartialEq, Eq, Structural, Debug, Hash)]
pub enum Request {
    UnitSpawned(UnitSpawned),
    UnitMoved(UnitMoved),
}

impl From<PeerConnected> for HostBroadcast {
    fn from(inner: PeerConnected) -> (r: HostBroadcast) {
        HostBroadcast::PeerConnected(inner)
    }
}

impl vstd::std_specs::convert::FromSpecImpl<PeerConnected> for HostBroadcast {
    open spec fn obeys_from_spec() -> bool {
        true
    }

    open spec fn from_spec(inner: PeerConnected) -> HostBroadcast {
        HostBroadcast::PeerConnected(inner)
    }
}

impl From<TurnStarted> for HostBroadcast {
    fn from(inner: TurnStarted) -> (r: HostBroadcast) {
        HostBroadcast::TurnStarted(inner)
    }
}

impl vstd::std_specs::convert::FromSpecImpl<TurnStarted> for HostBroadcast {
    open spec fn obeys_from_spec() -> bool {
        true
    }

    open spec fn from_spec(inner: TurnStarted) -> HostBroadcast {
        HostBroadcast::TurnStarted(inner)
    }
}

impl From<UnitSpawned> for HostBroadcast {
    fn from(inner: UnitSpawned) -> (r: HostBroadcast) {
        HostBroadcast::UnitSpawned(inner)
    }
}

impl vstd::std_specs::convert::FromSpecImpl<UnitSpawned> for HostBroadcast {
    open spec fn obeys_from_spec() -> bool {
        true
    }

    open spec fn from_spec(inner: UnitSpawned) -> HostBroadcast {
        HostBroadcast::UnitSpawned(inner)
    }
}

impl From<UnitMoved> for HostBroadcast {
    fn from(inner: UnitMoved) -> (r: HostBroadcast) {
        HostBroadcast::UnitMoved(inner)
    }
}

impl vstd::std_specs::convert::FromSpecImpl<UnitMoved> for HostBroadcast {
    open spec fn obeys_from_spec() -> bool {
        true
    }

    open spec fn from_spec(inner: UnitMoved) -> HostBroadcast {
        HostBroadcast::UnitMoved(inner)
    }
}

impl From<UnitSpawned> for Request {
    fn from(inner: UnitSpawned) -> (r: Request) {
        Request::UnitSpawned(inner)
    }
}

impl vstd::std_specs::convert::FromSpecImpl<UnitSpawned> for Request {
    open spec fn obeys_from_spec() -> bool {
        true
    }

    open spec fn from_spec(inner: UnitSpawned) -> Request {
        Request::UnitSpawned(inner)
    }
}

impl From<UnitMoved> for Request {
    fn from(inner: UnitMoved) -> (r: Request) {
        Request::UnitMoved(inner)
    }
}

impl vstd::std_specs::convert::FromSpecImpl<UnitMoved> for Request {
    open spec fn obeys_from_spec() -> bool {
        true
    }

    open spec fn from_spec(inner: UnitMoved) -> Request {
        Request::UnitMoved(inner)
    }
}

/// Whether to keep waiting for peers: fewer than `num_players - 1` peers
/// have connected.
pub fn waiting_for_peers(num_players: Option<u8>, connected_peers: usize) -> (r: bool)
    requires
        num_players matches Some(n) ==> n >= 1,
    ensures
        r == (num_players matches Some(n) && connected_peers < n - 1),
{
    match num_players {
        None => false,
        Some(n) => connected_peers < (n - 1) as usize,
    }
}

/// `s` ends with `t`.
pub open spec fn spec_ends_with(s: Seq<char>, t: Seq<char>) -> bool {
    t.len() <= s.len() && s.subrange(s.len() - t.len(), s.len() as int) == t
}

fn ends_with(s: &str, t: &str) -> (r: bool)
    ensures
        r == spec_ends_with(s@, t@),
{
    let n = s.unicode_len();
    let m = t.unicode_len();
    if m > n {
        return false;
    }
    let mut i: usize = 0;
    while i < m
        invariant
            n == s@.len(),
            m == t@.len(),
            m <= n,
            i <= m,
            forall|k: int| 0 <= k < i ==> s@[n - m + k] == t@[k],
        decreases m - i,
    {
        if s.get_char(n - m + i) != t.get_char(i) {
            proof {
                assert(s@.subrange(n - m, n as int)[i as int] != t@[i as int]);
            }
            return false;
        }
        i += 1;
    }
    proof {
        assert(s@.subrange(n - m, n as int) =~= t@);
    }
    true
}

/// The actions legend while waiting for peers: the waiting message is added
/// once, where the legend does not already end with it.
pub open spec fn spec_waiting_legend(legend: Seq<char>) -> Seq<char> {
    if spec_ends_with(legend, "Waiting for peers...\n"@) {
        legend
    } else {
        legend + "Waiting for peers...\n"@
    }
}

/// Adding the waiting message again changes nothing: the legend shows it
/// once however often the players are still awaited.
pub proof fn lemma_waiting_legend_idempotent(legend: Seq<char>)
    ensures
        spec_waiting_legend(spec_waiting_legend(legend)) == spec_waiting_legend(legend),
{
    let msg = "Waiting for peers...\n"@;
    let once = spec_waiting_legend(legend);
    if !spec_ends_with(legend, msg) {
        assert(once.subrange(once.len() - msg.len(), once.len() as int) =~= msg);
    }
}

/// Adds the waiting message to the actions legend, once.
pub fn waiting_legend(legend: &str) -> (r: String)
    ensures
        r@ == spec_waiting_legend(legend@),
{
    let msg = "Waiting for peers...\n";
    let mut r = String::from_str(legend);
    if !ends_with(legend, msg) {
        r.append(msg);
    }
    r
}

/// The players of a hosted game, once all peers connected: the host is the
/// first player, and the peers follow in the order they connected.
pub fn peers_connected(host_id: PeerId, peers: &Vec<PeerId>) -> (r: Vec<PeerConnected>)
    requires
        peers@.len() < 256,
    ensures
        r@.len() == peers@.len() + 1,
        r@[0] == (PeerConnected { peer_id: host_id, player_index: 0 }),
        forall|i: int|
            0 <= i < peers@.len() ==> #[trigger] r@[i + 1] == (PeerConnected {
                peer_id: peers@[i],
                player_index: (i + 1) as u8,
            }),
{
    let mut r: Vec<PeerConnected> = Vec::new();
    r.push(PeerConnected { peer_id: host_id, player_index: 0 });
    let mut i: usize = 0;
    while i < peers.len()
        invariant
            i <= peers@.len() < 256,
            r@.len() == i + 1,
            r@[0] == (PeerConnected { peer_id: host_id, player_index: 0 }),
            forall|k: int|
                0 <= k < i ==> #[trigger] r@[k + 1] == (PeerConnected {
                    peer_id: peers@[k],
                    player_index: (k + 1) as u8,
                }),
        decreases peers@.len() - i,
    {
        r.push(PeerConnected { peer_id: peers[i], player_index: (i + 1) as u8 });
        i += 1;
    }
    r
}

/// The peer id of the last event for turn position `index`, if any.
pub open spec fn spec_last_peer_for(events: Seq<PeerConnected>, index: u8) -> Option<PeerId>
    decreases events.len(),
{
    if events.len() == 0 {
        None
    } else if events.last().player_index == index {
        Some(events.last().peer_id)
    } else {
        spec_last_peer_for(events.drop_last(), index)
    }
}

/// Some peer controls the player in turn position `index`.
pub open spec fn spec_has_peer_for(peers: Seq<Peer>, index: u8) -> bool {
    exists|k: int| 0 <= k < peers.len() && (#[trigger] peers[k]).player_index.0 == index
}

/// No two peers control the same player.
pub open spec fn spec_distinct_indices(peers: Seq<Peer>) -> bool {
    forall|k: int, m: int|
        0 <= k < m < peers.len() ==> (#[trigger] peers[k]).player_index != (
        #[trigger] peers[m]).player_index
}

/// The peer id that the peer at turn position `index` has after the events:
/// that of the last event for the position, or `old` where there is none.
pub open spec fn spec_peer_id_after(events: Seq<PeerConnected>, index: u8, old: PeerId) -> PeerId {
    match spec_last_peer_for(events, index) {
        Some(id) => id,
        None => old,
    }
}

/// Handles peer-connected events: the peer that already controls the
/// player in the event's turn position takes the event's identity;
/// otherwise a new peer is added for that position. Where several events
/// name a position, the last one counts, and no two peers ever control the
/// same player. Returns the events that the host passes on to the other
/// players (all of them, when hosting).
#[verifier::spinoff_prover]
pub fn handle_peer_connected(
    peers: &mut Vec<Peer>,
    hosting: bool,
    peer_connected_events: &Vec<PeerConnected>,
) -> (r: Vec<HostBroadcast>)
    requires
        spec_distinct_indices(old(peers)@),
    ensures
        spec_distinct_indices(final(peers)@),
        final(peers)@.len() >= old(peers)@.len(),
        forall|k: int|
            0 <= k < old(peers)@.len() ==> (#[trigger] final(peers)@[k]).player_index == old(peers)@[k].player_index
                && final(peers)@[k].peer_id == spec_peer_id_after(
                peer_connected_events@,
                old(peers)@[k].player_index.0,
                old(peers)@[k].peer_id,
            ),
        forall|k: int|
            old(peers)@.len() <= k < final(peers)@.len() ==> spec_last_peer_for(
                peer_connected_events@,
                (#[trigger] final(peers)@[k]).player_index.0,
            ) == Some(final(peers)@[k].peer_id),
        forall|i: int|
            0 <= i < peer_connected_events@.len() ==> spec_has_peer_for(
                final(peers)@,
                (#[trigger] peer_connected_events@[i]).player_index,
            ),
        r@ == if hosting {
            peer_connected_events@.map_values(|e: PeerConnected| HostBroadcast::PeerConnected(e))
        } else {
            Seq::<HostBroadcast>::empty()
        },
{
    let ghost initial = peers@;
    let mut broadcasts: Vec<HostBroadcast> = Vec::new();
    let mut i: usize = 0;
    while i < peer_connected_events.len()
        invariant
            i <= peer_connected_events@.len(),
            spec_distinct_indices(peers@),
            peers@.len() >= initial.len(),
            forall|k: int|
                0 <= k < initial.len() ==> (#[trigger] peers@[k]).player_index
                    == initial[k].player_index && peers@[k].peer_id == spec_peer_id_after(
                    peer_connected_events@.subrange(0, i as int),
                    initial[k].player_index.0,
                    initial[k].peer_id,
                ),
            forall|k: int|
                initial.len() <= k < peers@.len() ==> spec_last_peer_for(
                    peer_connected_events@.subrange(0, i as int),
                    (#[trigger] peers@[k]).player_index.0,
                ) == Some(peers@[k].peer_id),
            forall|j: int|
                0 <= j < i ==> spec_has_peer_for(
                    peers@,
                    (#[trigger] peer_connected_events@[j]).player_index,
                ),
            broadcasts@ == if hosting {
                peer_connected_events@.subrange(0, i as int).map_values(
                    |e: PeerConnected| HostBroadcast::PeerConnected(e),
                )
            } else {
                Seq::<HostBroadcast>::empty()
            },
        decreases peer_connected_events@.len() - i,
    {
        let event = peer_connected_events[i];
        let ghost prev = peers@;
        let ghost prefix = peer_connected_events@.subrange(0, i as int);
        let ghost next = peer_connected_events@.subrange(0, i as int + 1);
        proof {
            assert(next.drop_last() =~= prefix);
            assert(next.last() == event);
        }
        let mut found: Option<usize> = None;
        let mut k: usize = 0;
        while k < peers.len()
            invariant
                k <= peers@.len(),
                peers@ == prev,
                found matches Some(f) ==> f < k && peers@[f as int].player_index.0
                    == event.player_index,
                found is None ==> forall|m: int|
                    0 <= m < k ==> (#[trigger] peers@[m]).player_index.0 != event.player_index,
            decreases peers@.len() - k,
        {
            if found.is_none() && peers[k].player_index.0 == event.player_index {
                found = Some(k);
            }
            k += 1;
        }
        match found {
            Some(f) => {
                let p = Peer { peer_id: event.peer_id, player_index: peers[f].player_index };
                peers.set(f, p);
            },
            None => {
                peers.push(
                    Peer { peer_id: event.peer_id, player_index: PlayerIndex(event.player_index) },
                );
            },
        }
        proof {
            assert forall|a: int, b: int| 0 <= a < b < peers@.len() implies (
            #[trigger] peers@[a]).player_index != (#[trigger] peers@[b]).player_index by {
                if b < prev.len() {
                    assert(peers@[a].player_index == prev[a].player_index);
                    assert(peers@[b].player_index == prev[b].player_index);
                } else {
                    assert(peers@[a].player_index == prev[a].player_index);
                }
            }
            assert forall|m: int| 0 <= m < initial.len() implies (#[trigger] peers@[m]).player_index
                == initial[m].player_index && peers@[m].peer_id == spec_peer_id_after(
                next,
                initial[m].player_index.0,
                initial[m].peer_id,
            ) by {
                assert(peers@[m].player_index == prev[m].player_index);
                if found == Some(m as usize) {
                } else {
                    assert(peers@[m] == prev[m]);
                    assert(prev[m].player_index.0 != event.player_index);
                }
            }
            assert forall|m: int| initial.len() <= m < peers@.len() implies spec_last_peer_for(
                next,
                (#[trigger] peers@[m]).player_index.0,
            ) == Some(peers@[m].peer_id) by {
                if m < prev.len() {
                    assert(peers@[m].player_index == prev[m].player_index);
                    if found != Some(m as usize) {
                        assert(peers@[m] == prev[m]);
                        assert(prev[m].player_index.0 != event.player_index);
                    }
                }
            }
            assert forall|j: int| 0 <= j < i + 1 implies spec_has_peer_for(
                peers@,
                (#[trigger] peer_connected_events@[j]).player_index,
            ) by {
                if j < i {
                    let m = choose|m: int|
                        0 <= m < prev.len() && (#[trigger] prev[m]).player_index.0
                            == peer_connected_events@[j].player_index;
                    assert(peers@[m].player_index == prev[m].player_index);
                } else {
                    match found {
                        Some(f) => {
                            assert(peers@[f as int].player_index.0 == event.player_index);
                        },
                        None => {
                            assert(peers@[prev.len() as int].player_index.0 == event.player_index);
                        },
                    }
                }
            }
        }
        if hosting {
            broadcasts.push(HostBroadcast::PeerConnected(event));
        }
        proof {
            assert(broadcasts@ =~= if hosting {
                next.map_values(|e: PeerConnected| HostBroadcast::PeerConnected(e))
            } else {
                Seq::<HostBroadcast>::empty()
            });
        }
        i += 1;
    }
    proof {
        assert(peer_connected_events@.subrange(0, i as int) =~= peer_connected_events@);
    }
    broadcasts
}

/// What a player other than the host does with a broadcast: the event it
/// carries happens in its own game as well.
pub enum Dispatched {
    PeerConnected(PeerConnected),
    TurnStarted(TurnStarted),
    UnitSpawned(UnitSpawned),
    UnitMoved(UnitMoved),
}

/// The event that a broadcast carries.
pub fn dispatch_host_broadcast(host_broadcast: HostBroadcast) -> (r: Dispatched)
    ensures
        match (host_broadcast, r) {
            (HostBroadcast::PeerConnected(a), Dispatched::PeerConnected(b)) => a == b,
            (HostBroadcast::TurnStarted(a), Dispatched::TurnStarted(b)) => a == b,
            (HostBroadcast::UnitSpawned(a), Dispatched::UnitSpawned(b)) => a == b,
            (HostBroadcast::UnitMoved(a), Dispatched::UnitMoved(b)) => a == b,
            _ => false,
        },
{
    match host_broadcast {
        HostBroadcast::PeerConnected(e) => Dispatched::PeerConnected(e),
        HostBroadcast::TurnStarted(e) => Dispatched::TurnStarted(e),
        HostBroadcast::UnitSpawned(e) => Dispatched::UnitSpawned(e),
        HostBroadcast::UnitMoved(e) => Dispatched::UnitMoved(e),
    }
}

/// The event that a request asks the host to make happen.
pub fn dispatch_request(request: Request) -> (r: Dispatched)
    ensures
        match (request, r) {
            (Request::UnitSpawned(a), Dispatched::UnitSpawned(b)) => a == b,
            (Request::UnitMoved(a), Dispatched::UnitMoved(b)) => a == b,
            _ => false,
        },
{
    match request {
        Request::UnitSpawned(e) => Dispatched::UnitSpawned(e),
        Request::UnitMoved(e) => Dispatched::UnitMoved(e),
    }
}

} // verus!
