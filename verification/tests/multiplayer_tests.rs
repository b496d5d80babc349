use hexciv::random::RngState;
use hexciv::civilization::Civilization;
use hexciv::hex::TilePos;
use hexciv::peer::{
    dispatch_host_broadcast, dispatch_request, handle_peer_connected, peers_connected, waiting_for_peers,
    waiting_legend, Dispatched, HostBroadcast, Peer, PeerConnected, PeerId, Request,
};
use hexciv::player::{init_our_player, sort_players, spawn_players, Player, PlayerIndex, PlayerState};
use hexciv::turn::{handle_turn_started, CurrentTurn, TurnStarted};
use hexciv::unit::{CivilianUnit, UnitId, UnitMoved, UnitSpawned, UnitType};

fn connected(id: u128, index: u8) -> PeerConnected {
    PeerConnected { peer_id: PeerId(id), player_index: index }
}

fn peer(id: u128, index: u8) -> Peer {
    Peer { peer_id: PeerId(id), player_index: PlayerIndex(index) }
}

#[test]
fn waiting_until_all_peers_connect() {
    assert!(waiting_for_peers(Some(3), 0));
    assert!(waiting_for_peers(Some(3), 1));
    assert!(!waiting_for_peers(Some(3), 2));
    assert!(!waiting_for_peers(Some(1), 0));
    assert!(!waiting_for_peers(None, 0));
}

#[test]
fn waiting_message_is_shown_once() {
    let msg = "Waiting for peers...\n";
    assert_eq!(waiting_legend(""), msg);
    let hosting = "Hosting game...\n";
    let once = waiting_legend(hosting);
    assert_eq!(once, format!("{hosting}{msg}"));
    assert_eq!(waiting_legend(&once), once);
}

#[test]
fn the_host_is_the_first_player() {
    let r = peers_connected(PeerId(1), &vec![PeerId(7), PeerId(9)]);
    assert_eq!(r, vec![connected(1, 0), connected(7, 1), connected(9, 2)]);
    assert_eq!(peers_connected(PeerId(1), &vec![]), vec![connected(1, 0)]);
}

#[test]
fn connected_peers_control_their_players() {
    let mut peers = Vec::new();
    let events = vec![connected(100, 0), connected(200, 1), connected(300, 1)];
    let broadcasts = handle_peer_connected(&mut peers, true, &events);
    assert_eq!(peers, vec![peer(100, 0), peer(300, 1)]);
    assert_eq!(broadcasts, events.iter().map(|e| HostBroadcast::PeerConnected(*e)).collect::<Vec<_>>());
}

#[test]
fn a_reconnecting_peer_takes_over_its_player() {
    let mut peers = vec![peer(1, 0), peer(2, 1)];
    let broadcasts = handle_peer_connected(&mut peers, false, &vec![connected(5, 0)]);
    assert_eq!(peers, vec![peer(5, 0), peer(2, 1)]);
    assert!(broadcasts.is_empty());
}

#[test]
fn the_current_turn_is_the_last_started() {
    let events = vec![TurnStarted { turn_num: 1 }, TurnStarted { turn_num: 2 }];
    let (turn, broadcasts) = handle_turn_started(None, true, &events);
    assert_eq!(turn, Some(CurrentTurn(2)));
    assert_eq!(broadcasts, events);
    let (turn, broadcasts) = handle_turn_started(Some(CurrentTurn(5)), true, &vec![]);
    assert_eq!(turn, Some(CurrentTurn(5)));
    assert!(broadcasts.is_empty());
    let (turn, broadcasts) = handle_turn_started(Some(CurrentTurn(5)), false, &vec![TurnStarted { turn_num: 6 }]);
    assert_eq!(turn, Some(CurrentTurn(6)));
    assert!(broadcasts.is_empty());
    assert_eq!(handle_turn_started(None, false, &vec![]).0, None);
}

#[test]
fn broadcasts_and_requests_carry_their_events() {
    let moved = UnitMoved {
        unit_id: UnitId(3),
        from_pos: TilePos { x: 0, y: 0 },
        to_pos: TilePos { x: 1, y: 0 },
        movement_cost: 1,
    };
    let spawned = UnitSpawned {
        unit_id: UnitId(4),
        position: TilePos { x: 2, y: 2 },
        unit_type: UnitType::Civilian(CivilianUnit::Settler),
        civ: Civilization::Greece,
    };
    assert_eq!(HostBroadcast::from(moved), HostBroadcast::UnitMoved(moved));
    assert_eq!(HostBroadcast::from(TurnStarted { turn_num: 3 }), HostBroadcast::TurnStarted(TurnStarted { turn_num: 3 }));
    assert_eq!(HostBroadcast::from(connected(1, 0)), HostBroadcast::PeerConnected(connected(1, 0)));
    assert_eq!(Request::from(spawned), Request::UnitSpawned(spawned));
    assert!(matches!(dispatch_host_broadcast(HostBroadcast::from(moved)), Dispatched::UnitMoved(m) if m == moved));
    assert!(matches!(
        dispatch_host_broadcast(HostBroadcast::from(spawned)),
        Dispatched::UnitSpawned(s) if s == spawned
    ));
    assert!(matches!(dispatch_request(Request::from(moved)), Dispatched::UnitMoved(m) if m == moved));
    assert!(matches!(dispatch_request(Request::from(spawned)), Dispatched::UnitSpawned(s) if s == spawned));
}

fn player(index: u8, civ: Civilization) -> Player {
    Player { player_index: PlayerIndex(index), civ }
}

#[test]
fn players_are_ordered_by_turn_position() {
    let a = player(0, Civilization::Spain);
    let b = player(1, Civilization::America);
    assert_eq!(a.cmp(&b), std::cmp::Ordering::Less);
    assert_eq!(b.cmp(&a), std::cmp::Ordering::Greater);
    assert_eq!(a.partial_cmp(&player(0, Civilization::Rome)), Some(std::cmp::Ordering::Equal));
    let sorted = sort_players(&vec![player(2, Civilization::Rome), a, player(1, Civilization::India)]);
    assert_eq!(sorted, vec![a, player(1, Civilization::India), player(2, Civilization::Rome)]);
}

#[test]
fn spawned_players_have_distinct_civilizations() {
    let mut rng = RngState(3);
    let players = spawn_players(&mut rng, 4);
    assert_eq!(players.len(), 4);
    for (i, p) in players.iter().enumerate() {
        assert_eq!(p.player_index, PlayerIndex(i as u8));
        for q in &players[i + 1..] {
            assert_ne!(p.civ, q.civ);
        }
    }
    assert_eq!(spawn_players(&mut rng, 30).len(), 18);
    assert!(spawn_players(&mut rng, 0).is_empty());
}

#[test]
fn our_player_is_the_one_our_peer_controls() {
    let peers = vec![peer(5, 0), peer(7, 1)];
    let players = vec![player(1, Civilization::Rome), player(0, Civilization::Egypt)];
    assert_eq!(init_our_player(PeerId(7), &peers, &players), Some(0));
    assert_eq!(init_our_player(PeerId(5), &peers, &players), Some(1));
    assert_eq!(init_our_player(PeerId(9), &peers, &players), None);
}

#[test]
fn player_state_starts_out_default() {
    assert_eq!(PlayerState::default(), PlayerState::Playing);
}

#[test]
fn players_get_the_civilizations_fastrand_chooses() {
    let mut generator = fastrand::Rng::with_seed(8);
    let civs = generator.choose_multiple(Civilization::variants(), 5);
    let mut rng = RngState(8);
    let players = spawn_players(&mut rng, 5);
    assert_eq!(players.iter().map(|p| p.civ).collect::<Vec<_>>(), civs);
    assert_eq!(rng, RngState(generator.get_seed()));
}
