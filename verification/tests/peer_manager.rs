use fuel_p2p::ids::{Multiaddr, PeerId};
use fuel_p2p::peer_manager::info::{HeartbeatData, PeerClass};
use fuel_p2p::peer_manager::manager::{compute_redial_delay, PeerInfoUpdated, PeerManager};
use fuel_p2p::peer_manager::model::{Admission, AdmissionReject, PeerLimits, ScoreOutcome};

fn peer(n: u8) -> PeerId {
    PeerId([n; 32])
}

fn address(n: u8) -> Multiaddr {
    Multiaddr::new(format!("/ip4/127.0.0.1/tcp/{}", 4000 + n as u32), Some(peer(n)))
}

fn limits(max_discovery: u32, reserved_only: bool) -> PeerLimits {
    PeerLimits {
        max_discovery_peers_connected: max_discovery,
        reserved_nodes_only_mode: reserved_only,
        initial_score: 0,
        graylist_threshold: -80_000,
        ban_linger_ms: 3_600_000,
        redial_base_ms: 1_000,
        redial_ceiling_ms: 60_000,
        bootstrap_dial_retries: 2,
    }
}

#[test]
fn discovered_peers_stop_at_the_limit() {
    let mut manager = PeerManager::new(peer(0), limits(3, false), &vec![], &vec![]);
    for n in 1..=3u8 {
        assert_eq!(
            manager.on_connection_established(peer(n), &vec![address(n)], 0),
            Admission::Accept
        );
    }
    assert_eq!(
        manager.on_connection_established(peer(4), &vec![address(4)], 0),
        Admission::Reject(AdmissionReject::CapacityFull)
    );
    assert_eq!(manager.total_peers_connected(), 3);
    assert_eq!(manager.connected_discovered(), 3);
    assert!(!manager.is_connected(&peer(4)));
}

#[test]
fn a_slot_frees_when_a_discovered_peer_leaves() {
    let mut manager = PeerManager::new(peer(0), limits(1, false), &vec![], &vec![]);
    assert_eq!(manager.on_connection_established(peer(1), &vec![], 0), Admission::Accept);
    assert_eq!(
        manager.on_connection_established(peer(2), &vec![], 0),
        Admission::Reject(AdmissionReject::CapacityFull)
    );
    assert!(manager.on_connection_closed(&peer(1), 10).is_none());
    assert_eq!(manager.connected_discovered(), 0);
    assert_eq!(manager.on_connection_established(peer(2), &vec![], 20), Admission::Accept);
    assert_eq!(manager.connected_discovered(), 1);
}

#[test]
fn reserved_peers_always_find_a_slot() {
    let reserved = vec![address(10), address(11)];
    let mut manager = PeerManager::new(peer(0), limits(2, false), &reserved, &vec![]);
    assert_eq!(manager.on_connection_established(peer(1), &vec![], 0), Admission::Accept);
    assert_eq!(manager.on_connection_established(peer(2), &vec![], 0), Admission::Accept);
    assert_eq!(
        manager.on_connection_established(peer(3), &vec![], 0),
        Admission::Reject(AdmissionReject::CapacityFull)
    );
    assert_eq!(manager.on_connection_established(peer(10), &vec![], 0), Admission::Accept);
    assert_eq!(manager.on_connection_established(peer(11), &vec![], 0), Admission::Accept);
    assert_eq!(manager.total_peers_connected(), 4);
    assert_eq!(manager.connected_discovered(), 2);
    assert_eq!(manager.class_of(&peer(10)), PeerClass::Reserved);
    assert_eq!(manager.get_peer_info(&peer(10)).unwrap().class, PeerClass::Reserved);
    assert_eq!(manager.get_peer_info(&peer(1)).unwrap().class, PeerClass::Discovered);
}

#[test]
fn bootstrap_peers_do_not_count_as_discovered() {
    let bootstrap = vec![address(20), address(21)];
    let mut manager = PeerManager::new(peer(0), limits(1, false), &vec![], &bootstrap);
    assert_eq!(manager.on_connection_established(peer(20), &vec![], 0), Admission::Accept);
    assert_eq!(manager.on_connection_established(peer(21), &vec![], 0), Admission::Accept);
    assert_eq!(manager.on_connection_established(peer(1), &vec![], 0), Admission::Accept);
    assert_eq!(
        manager.on_connection_established(peer(2), &vec![], 0),
        Admission::Reject(AdmissionReject::CapacityFull)
    );
    assert_eq!(manager.connected_bootstrap(), 2);
    assert_eq!(manager.connected_discovered(), 1);
    assert_eq!(manager.total_peers_connected(), 3);
    assert_eq!(manager.class_of(&peer(20)), PeerClass::Bootstrap);
}

#[test]
fn own_identity_is_turned_away() {
    let reserved = vec![address(0)];
    let mut manager = PeerManager::new(peer(0), limits(10, false), &reserved, &vec![]);
    assert_eq!(
        manager.on_connection_established(peer(0), &vec![address(0)], 0),
        Admission::Reject(AdmissionReject::SelfDial)
    );
    assert_eq!(manager.total_peers_connected(), 0);
    assert!(manager.get_peer_info(&peer(0)).is_none());
}

#[test]
fn reserved_only_mode_takes_reserved_peers_only() {
    let reserved = vec![address(10)];
    let mut manager = PeerManager::new(peer(0), limits(10, true), &reserved, &vec![address(20)]);
    assert_eq!(
        manager.on_connection_established(peer(1), &vec![], 0),
        Admission::Reject(AdmissionReject::ReservedOnlyMode)
    );
    assert_eq!(
        manager.on_connection_established(peer(20), &vec![], 0),
        Admission::Reject(AdmissionReject::ReservedOnlyMode)
    );
    assert_eq!(manager.on_connection_established(peer(10), &vec![], 0), Admission::Accept);
    assert_eq!(manager.total_peers_connected(), 1);
}

#[test]
fn addresses_are_merged_without_repeats() {
    let mut manager = PeerManager::new(peer(0), limits(10, false), &vec![], &vec![]);
    let a = Multiaddr::new("/ip4/10.0.0.1/tcp/1".to_string(), None);
    let b = Multiaddr::new("/ip4/10.0.0.2/tcp/2".to_string(), None);
    let c = Multiaddr::new("/ip4/10.0.0.3/tcp/3".to_string(), None);
    manager.on_connection_established(peer(1), &vec![a.duplicate(), a.duplicate(), b.duplicate()], 0);
    assert_eq!(
        manager.get_peer_info(&peer(1)).unwrap().peer_addresses,
        vec![a.duplicate(), b.duplicate()]
    );
    let event = manager.update_identify(
        &peer(1),
        "fuel-core/0.1".to_string(),
        &vec![b.duplicate(), c.duplicate()],
    );
    assert_eq!(event, Some(PeerInfoUpdated { peer: peer(1), block_height: None }));
    let info = manager.get_peer_info(&peer(1)).unwrap();
    assert_eq!(info.peer_addresses, vec![a, b, c]);
    assert_eq!(info.client_version, Some("fuel-core/0.1".to_string()));
}

#[test]
fn heartbeat_is_recorded_and_announced() {
    let mut manager = PeerManager::new(peer(0), limits(10, false), &vec![], &vec![]);
    assert_eq!(manager.update_heartbeat(&peer(1), 40, 5), None);
    manager.on_connection_established(peer(1), &vec![], 0);
    assert_eq!(
        manager.update_heartbeat(&peer(1), 40, 7),
        Some(PeerInfoUpdated { peer: peer(1), block_height: Some(40) })
    );
    assert_eq!(
        manager.get_peer_info(&peer(1)).unwrap().heartbeat_data,
        Some(HeartbeatData { block_height: 40, last_seen: 7 })
    );
    let event = manager.update_identify(&peer(1), "v".to_string(), &vec![]);
    assert_eq!(event, Some(PeerInfoUpdated { peer: peer(1), block_height: Some(40) }));
}

#[test]
fn score_below_the_threshold_bans() {
    let mut manager = PeerManager::new(peer(0), limits(10, false), &vec![], &vec![]);
    manager.on_connection_established(peer(1), &vec![], 0);
    assert_eq!(manager.apply_score_delta(&peer(9), -1), ScoreOutcome::UnknownPeer);
    assert_eq!(manager.apply_score_delta(&peer(1), -80_000), ScoreOutcome::Scored(-80_000));
    assert!(manager.is_eligible(&peer(1)));
    assert_eq!(manager.apply_score_delta(&peer(1), -1), ScoreOutcome::Banned(-80_001));
    assert!(!manager.is_eligible(&peer(1)));
    assert!(manager.get_peer_info(&peer(1)).unwrap().banned);
    assert_eq!(manager.get_peer_score(&peer(1)), Some(-80_001));
    assert_eq!(manager.eligible_peers(), Vec::<PeerId>::new());
}

#[test]
fn score_saturates() {
    let mut manager = PeerManager::new(peer(0), limits(10, false), &vec![], &vec![]);
    manager.on_connection_established(peer(1), &vec![], 0);
    assert_eq!(manager.apply_score_delta(&peer(1), i64::MAX), ScoreOutcome::Scored(i64::MAX));
    assert_eq!(manager.apply_score_delta(&peer(1), 5), ScoreOutcome::Scored(i64::MAX));
    assert_eq!(manager.apply_score_delta(&peer(1), i64::MIN), ScoreOutcome::Scored(-1));
    assert_eq!(manager.apply_score_delta(&peer(1), i64::MIN), ScoreOutcome::Banned(i64::MIN));
}

#[test]
fn reserved_peers_are_scored_and_never_banned() {
    let mut manager = PeerManager::new(peer(0), limits(10, false), &vec![address(10)], &vec![]);
    manager.on_connection_established(peer(10), &vec![], 0);
    assert_eq!(manager.apply_score_delta(&peer(10), -1_000_000), ScoreOutcome::Scored(-1_000_000));
    assert!(manager.is_eligible(&peer(10)));
    assert!(!manager.get_peer_info(&peer(10)).unwrap().banned);
}

#[test]
fn a_ban_lingers_after_the_connection() {
    let mut manager = PeerManager::new(peer(0), limits(10, false), &vec![], &vec![]);
    manager.on_connection_established(peer(1), &vec![], 0);
    manager.apply_score_delta(&peer(1), -90_000);
    assert!(manager.on_connection_closed(&peer(1), 1_000).is_none());
    assert_eq!(
        manager.on_connection_established(peer(1), &vec![], 2_000),
        Admission::Reject(AdmissionReject::BannedPeer)
    );
    assert_eq!(
        manager.admission(&peer(1), 1_000 + 3_600_000 - 1),
        Admission::Reject(AdmissionReject::BannedPeer)
    );
    assert_eq!(
        manager.on_connection_established(peer(1), &vec![], 1_000 + 3_600_000),
        Admission::Accept
    );
    assert_eq!(manager.get_peer_score(&peer(1)), Some(0));
}

#[test]
fn penalty_without_ban_only_changes_the_score() {
    let mut manager = PeerManager::new(peer(0), limits(10, false), &vec![], &vec![]);
    manager.on_connection_established(peer(1), &vec![], 0);
    assert!(manager.penalize(&peer(1), -80_000));
    assert!(!manager.penalize(&peer(2), -90_000));
    assert_eq!(manager.get_peer_score(&peer(1)), Some(-80_000));
    assert!(manager.is_eligible(&peer(1)));
    assert!(!manager.get_peer_info(&peer(1)).unwrap().banned);
}

#[test]
fn reserved_peer_is_redialed_at_once_after_a_close() {
    let mut manager = PeerManager::new(peer(0), limits(10, false), &vec![address(10)], &vec![]);
    manager.on_connection_established(peer(10), &vec![], 0);
    let redial = manager.on_connection_closed(&peer(10), 5).unwrap();
    assert_eq!(redial.peer, peer(10));
    assert_eq!(redial.address, address(10));
    assert_eq!(redial.delay_ms, 0);
    assert_eq!(manager.total_peers_connected(), 0);
    assert!(manager.on_connection_closed(&peer(10), 6).is_none());
}

#[test]
fn redial_delay_doubles_up_to_the_ceiling() {
    let mut manager = PeerManager::new(peer(0), limits(10, false), &vec![address(10)], &vec![]);
    let expected = [1_000u64, 2_000, 4_000, 8_000, 16_000, 32_000, 60_000, 60_000];
    for delay in expected {
        let redial = manager.on_dial_failure(&peer(10)).unwrap();
        assert_eq!(redial.delay_ms, delay);
        assert_eq!(redial.peer, peer(10));
    }
    assert!(manager.on_dial_failure(&peer(1)).is_none());
    manager.on_connection_established(peer(10), &vec![], 0);
    assert!(manager.on_dial_failure(&peer(10)).is_none());
    manager.on_connection_closed(&peer(10), 1);
    assert_eq!(manager.on_dial_failure(&peer(10)).unwrap().delay_ms, 1_000);
}

#[test]
fn redial_delay_formula() {
    let l = limits(1, false);
    assert_eq!(compute_redial_delay(&l, 0), 0);
    assert_eq!(compute_redial_delay(&l, 1), 1_000);
    assert_eq!(compute_redial_delay(&l, 6), 32_000);
    assert_eq!(compute_redial_delay(&l, 7), 60_000);
    assert_eq!(compute_redial_delay(&l, u32::MAX), 60_000);
    let zero = PeerLimits { redial_base_ms: 0, ..l };
    assert_eq!(compute_redial_delay(&zero, 40), 0);
    let huge = PeerLimits { redial_base_ms: u64::MAX / 2 + 1, redial_ceiling_ms: u64::MAX, ..l };
    assert_eq!(compute_redial_delay(&huge, 2), u64::MAX);
}

#[test]
fn eligible_peers_keep_connection_order() {
    let mut manager = PeerManager::new(peer(0), limits(10, false), &vec![], &vec![]);
    for n in [3u8, 1, 2] {
        manager.on_connection_established(peer(n), &vec![], 0);
    }
    assert_eq!(manager.eligible_peers(), vec![peer(3), peer(1), peer(2)]);
    manager.apply_score_delta(&peer(1), -100_000);
    assert_eq!(manager.eligible_peers(), vec![peer(3), peer(2)]);
    assert_eq!(manager.eligible_count(), 2);
    manager.on_connection_closed(&peer(3), 0);
    assert_eq!(manager.eligible_peers(), vec![peer(2)]);
}

#[test]
fn a_second_connection_of_a_peer_makes_no_second_record() {
    let mut manager = PeerManager::new(peer(0), limits(1, false), &vec![], &vec![]);
    assert_eq!(manager.on_connection_established(peer(1), &vec![address(1)], 0), Admission::Accept);
    assert_eq!(manager.on_connection_established(peer(1), &vec![address(2)], 1), Admission::Accept);
    assert_eq!(manager.total_peers_connected(), 1);
    assert_eq!(manager.connected_discovered(), 1);
    assert_eq!(
        manager.get_peer_info(&peer(1)).unwrap().peer_addresses,
        vec![address(1), address(2)]
    );
}

#[test]
fn bootstrap_peers_are_retried_a_few_times() {
    let mut manager = PeerManager::new(peer(0), limits(10, false), &vec![], &vec![address(20)]);
    let first = manager.on_dial_failure(&peer(20)).unwrap();
    assert_eq!((first.peer, first.delay_ms), (peer(20), 1_000));
    assert_eq!(first.address, address(20));
    assert_eq!(manager.on_dial_failure(&peer(20)).unwrap().delay_ms, 2_000);
    assert!(manager.on_dial_failure(&peer(20)).is_none());
    assert!(manager.on_dial_failure(&peer(20)).is_none());
    // once the peer has been reached its tries are fresh
    manager.on_connection_established(peer(20), &vec![], 0);
    assert!(manager.on_dial_failure(&peer(20)).is_none());
    manager.on_connection_closed(&peer(20), 1);
    assert_eq!(manager.on_dial_failure(&peer(20)).unwrap().delay_ms, 1_000);
}

#[test]
fn bans_that_have_run_out_are_forgotten() {
    let mut manager = PeerManager::new(peer(0), limits(10, false), &vec![], &vec![]);
    for n in 1..=2u8 {
        manager.on_connection_established(peer(n), &vec![], 0);
        manager.apply_score_delta(&peer(n), -90_000);
    }
    manager.on_connection_closed(&peer(1), 1_000);
    manager.on_connection_closed(&peer(2), 2_000);
    manager.prune_bans(1_000 + 3_600_000);
    assert_eq!(manager.admission(&peer(1), 0), Admission::Accept);
    assert_eq!(manager.admission(&peer(2), 0), Admission::Reject(AdmissionReject::BannedPeer));
    manager.prune_bans(u64::MAX);
    assert_eq!(manager.admission(&peer(2), 0), Admission::Accept);
}

#[test]
fn a_banned_peer_cannot_open_a_second_connection() {
    let mut manager = PeerManager::new(peer(0), limits(10, false), &vec![], &vec![]);
    manager.on_connection_established(peer(1), &vec![], 0);
    manager.apply_score_delta(&peer(1), -90_000);
    assert_eq!(
        manager.on_connection_established(peer(1), &vec![address(1)], 1),
        Admission::Reject(AdmissionReject::BannedPeer)
    );
    assert!(manager.get_peer_info(&peer(1)).unwrap().peer_addresses.is_empty());
}

#[test]
fn a_score_below_the_threshold_graylists_without_a_ban() {
    let mut manager = PeerManager::new(peer(0), limits(10, false), &vec![address(10)], &vec![]);
    for n in [1u8, 2, 10] {
        manager.on_connection_established(peer(n), &vec![], 0);
        manager.penalize(&peer(n), -80_001);
    }
    assert!(!manager.get_peer_info(&peer(1)).unwrap().banned);
    assert!(manager.is_graylisted(&peer(1)));
    assert!(!manager.is_eligible(&peer(1)));
    // a reserved peer is scored and never graylisted
    assert!(!manager.is_graylisted(&peer(10)));
    assert!(manager.is_eligible(&peer(10)));
    assert_eq!(manager.eligible_peers(), vec![peer(10)]);
    // a score that recovers lifts the graylisting
    assert_eq!(manager.apply_score_delta(&peer(2), 1), ScoreOutcome::Scored(-80_000));
    assert!(manager.is_eligible(&peer(2)));
    assert_eq!(manager.eligible_peers(), vec![peer(2), peer(10)]);
    // a graylisted peer is not banned: it may still open a connection
    assert_eq!(manager.admission(&peer(1), 5), Admission::Accept);
    assert!(!manager.is_graylisted(&peer(99)));
}
