//! Scenarios with several nodes. A small network in memory stands for the
//! transport: it carries each node's actions to the nodes they are meant
//! for and hands every node what arrives, in order.

use fuel_p2p::config::{Config, Keypair};
use fuel_p2p::gossipsub::layer::PublishError;
use fuel_p2p::gossipsub::messages::{
    check_message_matches_request, GossipsubBroadcastRequest, GossipsubMessage,
};
use fuel_p2p::gossipsub::topics::{topic_hash, GossipTopicTag};
use fuel_p2p::ids::{Multiaddr, PeerId};
use fuel_p2p::p2p_service::{
    Action, FuelP2PEvent, FuelP2PService, IncomingConnectionError, TransportEvent,
};
use fuel_p2p::peer_manager::model::AdmissionReject;
use fuel_p2p::request_response::messages::{
    RequestMessage, RequestResponseError, ResponseError, ResponseMessage, ResponseSender,
    SendError, V2ResponseMessage,
};
use fuel_p2p::request_response::outbound::ReplyDelivery;
use fuel_p2p::types::{
    arbitrary_headers_for_range, GossipsubMessageAcceptance, NetworkableTransactionPool,
    PreConfirmationMessage, Transaction, Transactions, TxId,
};
use std::collections::HashMap;

fn peer(n: u8) -> PeerId {
    PeerId([n; 32])
}

fn address(n: u8) -> Multiaddr {
    Multiaddr::new(format!("/ip4/127.0.0.1/tcp/{}", 4000 + n as u32), Some(peer(n)))
}

fn config(name: &str, n: u8) -> Config {
    Config::default_initialized(name, Keypair { secret: [n; 32], peer_id: peer(n) })
}

fn default_test_tx() -> Transaction {
    Transaction::new(vec![0x10, 0x20, 0x30, 0x40])
}

fn default_test_confirmation() -> PreConfirmationMessage {
    PreConfirmationMessage::new(vec![0xc0, 0xff, 0xee])
}

fn tx_id(tx: &Transaction, chain: u8) -> TxId {
    let mut id = [chain; 32];
    for (i, byte) in tx.bytes.iter().enumerate() {
        id[i % 32] ^= *byte;
    }
    id
}

struct Node {
    service: FuelP2PService,
    id: PeerId,
    address: Multiaddr,
    checksum: [u8; 32],
    network_name: String,
    subscriptions: Vec<GossipTopicTag>,
    events: Vec<FuelP2PEvent>,
    replies: Vec<ReplyDelivery>,
    verdict: Option<GossipsubMessageAcceptance>,
    discovering: bool,
}

/// What the network remembers of a request that is on its way: who asked,
/// and under which id.
struct Pending {
    asker: usize,
    outbound_id: u64,
}

struct Network {
    nodes: Vec<Node>,
    now: u64,
    blocked: Vec<(usize, usize)>,
    later: Vec<(u64, usize, Multiaddr, PeerId)>,
    inbound: HashMap<(usize, u64), Pending>,
    next_inbound: u64,
    lose_requests: bool,
    exchange_peers: bool,
}

impl Network {
    fn new() -> Network {
        Network {
            nodes: Vec::new(),
            now: 0,
            blocked: Vec::new(),
            later: Vec::new(),
            inbound: HashMap::new(),
            next_inbound: 0,
            lose_requests: false,
            exchange_peers: false,
        }
    }

    /// Adds a node with its own address and starts it.
    fn add(&mut self, config: Config, address: Multiaddr) -> usize {
        let id = config.keypair.peer_id;
        let checksum = config.checksum;
        let network_name = config.network_name.clone();
        let mut subscriptions = Vec::new();
        if config.subscribe_to_new_tx {
            subscriptions.push(GossipTopicTag::NewTx);
        }
        if config.subscribe_to_pre_confirmations {
            subscriptions.push(GossipTopicTag::TxPreconfirmations);
        }
        let mut service = FuelP2PService::new(config).unwrap();
        service.start();
        self.nodes.push(Node {
            service,
            id,
            address,
            checksum,
            network_name,
            subscriptions,
            events: Vec::new(),
            replies: Vec::new(),
            verdict: None,
            discovering: false,
        });
        let index = self.nodes.len() - 1;
        self.run();
        index
    }

    fn at(&self, address: &Multiaddr) -> Option<usize> {
        self.nodes.iter().position(|node| node.address.location == address.location)
    }

    fn of(&self, id: PeerId, not: usize) -> Option<usize> {
        (0..self.nodes.len()).find(|i| *i != not && self.nodes[*i].id == id)
    }

    fn is_blocked(&self, a: usize, b: usize) -> bool {
        self.blocked.contains(&(a, b)) || self.blocked.contains(&(b, a))
    }

    fn linked(&self, a: usize, b: usize) -> bool {
        self.nodes[a].service.peer_manager().is_connected(&self.nodes[b].id)
            && self.nodes[b].service.peer_manager().is_connected(&self.nodes[a].id)
    }

    /// One node dials another: both sides see the connection, and where
    /// both keep it they tell each other who they are, what they subscribe
    /// to and, if peers are exchanged, whom they know.
    fn connect(&mut self, dialer: usize, target: usize) {
        if self.is_blocked(dialer, target) || self.linked(dialer, target) {
            return;
        }
        let now = self.now;
        let (dialer_id, dialer_address, dialer_checksum) = {
            let node = &self.nodes[dialer];
            (node.id, node.address.duplicate(), node.checksum)
        };
        let (target_id, target_address, target_checksum) = {
            let node = &self.nodes[target];
            (node.id, node.address.duplicate(), node.checksum)
        };
        let taken = self.nodes[target].service.on_connection_established(
            dialer_id,
            &vec![dialer_address.duplicate()],
            &dialer_checksum,
            now,
        );
        if taken.is_err() {
            self.nodes[dialer].service.on_dial_failure(target_id);
            return;
        }
        let kept = self.nodes[dialer].service.on_connection_established(
            target_id,
            &vec![target_address.duplicate()],
            &target_checksum,
            now,
        );
        if kept.is_err() {
            self.nodes[target].service.on_connection_closed(dialer_id, 0, now);
            return;
        }
        for (from, to) in [(dialer, target), (target, dialer)] {
            let from_id = self.nodes[from].id;
            let from_address = self.nodes[from].address.duplicate();
            self.nodes[to].service.on_identify(from_id, "fuel-core".to_string(), &vec![from_address]);
            let name = self.nodes[from].network_name.clone();
            for tag in self.nodes[from].subscriptions.clone() {
                let hash = topic_hash(tag, &name);
                self.nodes[to].service.on_subscription(from_id, &hash);
            }
        }
        if self.exchange_peers {
            for (from, to) in [(dialer, target), (target, dialer)] {
                let known: Vec<usize> = (0..self.nodes.len())
                    .filter(|other| *other != from && *other != to && self.linked(from, *other))
                    .collect();
                for other in known {
                    self.connect(to, other);
                }
            }
        }
    }

    fn disconnect(&mut self, a: usize, b: usize) {
        let now = self.now;
        let (a_id, b_id) = (self.nodes[a].id, self.nodes[b].id);
        self.nodes[a].service.on_connection_closed(b_id, 0, now);
        self.nodes[b].service.on_connection_closed(a_id, 0, now);
    }

    fn perform(&mut self, from: usize, action: Action) {
        let now = self.now;
        let from_id = self.nodes[from].id;
        match action {
            Action::Dial(dial) => {
                if dial.delay_ms > 0 {
                    self.later.push((now + dial.delay_ms, from, dial.address, dial.peer));
                    return;
                }
                match self.at(&dial.address) {
                    Some(target) if target != from => self.connect(from, target),
                    _ => {
                        self.nodes[from].service.on_dial_failure(dial.peer);
                    }
                }
            }
            Action::Disconnect(peer) => {
                if let Some(other) = self.of(peer, from) {
                    self.disconnect(from, other);
                } else {
                    self.nodes[from].service.on_connection_closed(peer, 0, now);
                }
            }
            Action::Publish { publication, targets } => {
                for target in targets {
                    if let Some(to) = self.of(target, from) {
                        if self.linked(from, to) {
                            self.nodes[to].service.on_gossip_message(
                                from_id,
                                &publication.topic_hash,
                                publication.payload.clone(),
                                now,
                            );
                        }
                    }
                }
            }
            Action::SendRequest { request_id, peer, message } => {
                if self.lose_requests {
                    return;
                }
                if let Some(to) = self.of(peer, from) {
                    let inbound_id = self.next_inbound;
                    self.next_inbound += 1;
                    self.inbound.insert((to, inbound_id), Pending { asker: from, outbound_id: request_id });
                    self.nodes[to].service.on_inbound_request(inbound_id, from_id, message, now);
                }
            }
            Action::SendResponse { request_id, peer: _, response } => {
                if let Some(pending) = self.inbound.remove(&(from, request_id)) {
                    self.nodes[pending.asker].service.on_response(pending.outbound_id, response);
                }
            }
            Action::SendHeartbeat { block_height } => {
                for to in 0..self.nodes.len() {
                    if to != from && self.linked(from, to) {
                        self.nodes[to].service.on_heartbeat(from_id, block_height, now);
                    }
                }
            }
            Action::DeliverReply(delivery) => self.nodes[from].replies.push(delivery),
            Action::StartDiscovery => {
                self.nodes[from].discovering = true;
                for other in 0..self.nodes.len() {
                    if other != from && self.nodes[other].discovering {
                        self.connect(from, other);
                    }
                }
            }
        }
    }

    /// Carries actions and events until no node has anything left to do.
    fn run(&mut self) {
        loop {
            let mut quiet = true;
            for index in 0..self.nodes.len() {
                while let Some(action) = self.nodes[index].service.next_action() {
                    quiet = false;
                    self.perform(index, action);
                }
                while let Some(event) = self.nodes[index].service.next_event() {
                    quiet = false;
                    if let (
                        Some(verdict),
                        FuelP2PEvent::GossipsubMessage { message_id, peer_id, .. },
                    ) = (self.nodes[index].verdict, &event)
                    {
                        self.nodes[index].service.report_message_validation_result(
                            message_id, *peer_id, verdict,
                        );
                    }
                    self.nodes[index].events.push(event);
                }
            }
            if quiet {
                return;
            }
        }
    }

    /// Lets time pass: every node ticks, and dials whose delay has passed
    /// are made.
    fn advance(&mut self, to: u64) {
        self.now = to;
        let due: Vec<(u64, usize, Multiaddr, PeerId)> = {
            let (due, later) = std::mem::take(&mut self.later).into_iter().partition(|d| d.0 <= to);
            self.later = later;
            due
        };
        for (_, from, address, peer) in due {
            match self.at(&address) {
                Some(target) if target != from => self.connect(from, target),
                _ => {
                    self.nodes[from].service.on_dial_failure(peer);
                }
            }
        }
        for index in 0..self.nodes.len() {
            self.nodes[index].service.tick(to);
        }
        self.run();
    }

    fn connected_events(&self, index: usize) -> Vec<PeerId> {
        self.nodes[index]
            .events
            .iter()
            .filter_map(|event| match event {
                FuelP2PEvent::PeerConnected(peer) => Some(*peer),
                _ => None,
            })
            .collect()
    }

    fn gossip_events(&self, index: usize) -> Vec<(PeerId, &str, &GossipsubMessage)> {
        self.nodes[index]
            .events
            .iter()
            .filter_map(|event| match event {
                FuelP2PEvent::GossipsubMessage { peer_id, topic_hash, message, .. } => {
                    Some((*peer_id, topic_hash.as_str(), message))
                }
                _ => None,
            })
            .collect()
    }
}

/// Panics on a message that is not what `expected` asked to have
/// gossiped; a message that is goes to the library's check.
fn expect_message_matches_request(message: &GossipsubMessage, expected: &GossipsubBroadcastRequest) {
    assert!(
        message.matches_request(expected),
        "Message does not match the expected request, expected: {:?}, actual: {:?}",
        expected,
        message
    );
    check_message_matches_request(message, expected);
}

#[test]
fn p2p_service_works() {
    let mut service = FuelP2PService::new(config("p2p_service_works", 1)).unwrap();
    service.start();
    assert_eq!(service.local_peer_id(), peer(1));
    assert_eq!(service.peer_manager().total_peers_connected(), 0);
    assert_eq!(service.outbound_requests_table().len(), 0);
    assert!(service.next_action().is_none());
    assert!(service.next_event().is_none());
}

#[test]
fn start_dials_bootstrap_and_reserved_nodes() {
    let mut options = config("start", 1);
    options.bootstrap_nodes = vec![address(2), Multiaddr::new("/dns/nowhere".to_string(), None)];
    options.reserved_nodes = vec![address(3)];
    options.enable_mdns = true;
    let mut service = FuelP2PService::new(options).unwrap();
    service.start();
    assert_eq!(service.pending_actions(), 3);
    match service.next_action() {
        Some(Action::Dial(dial)) => {
            assert_eq!(dial.peer, peer(2));
            assert_eq!(dial.address, address(2));
            assert_eq!(dial.delay_ms, 0);
        }
        other => panic!("unexpected action: {:?}", other),
    }
    assert!(matches!(service.next_action(), Some(Action::Dial(dial)) if dial.peer == peer(3)));
    assert!(matches!(service.next_action(), Some(Action::StartDiscovery)));
    assert!(service.next_action().is_none());
}

// A sentry node takes discovered peers up to its limit and still has a
// slot for each reserved node, also for one that comes up late.
#[test]
fn reserved_nodes_reconnect_works() {
    let max_peers_allowed: usize = 3;
    let mut network = Network::new();
    let mut sentry = config("reserved_nodes_reconnect_works", 100);
    sentry.max_discovery_peers_connected = max_peers_allowed as u32;
    sentry.reserved_nodes = vec![address(50), address(51), address(52)];
    let sentry = network.add(sentry, address(100));
    // the reserved nodes are not up yet: the sentry keeps dialing
    assert_eq!(network.nodes[sentry].service.peer_manager().total_peers_connected(), 0);
    assert_eq!(network.later.len(), 3);

    for n in 1..=15u8 {
        let mut other = config("reserved_nodes_reconnect_works", n);
        other.bootstrap_nodes = vec![address(100)];
        network.add(other, address(n));
    }
    assert_eq!(
        network.nodes[sentry].service.peer_manager().total_peers_connected(),
        max_peers_allowed
    );
    for n in [50u8, 51] {
        network.add(config("reserved_nodes_reconnect_works", n), address(n));
    }
    network.advance(1_000);
    assert_eq!(
        network.nodes[sentry].service.peer_manager().total_peers_connected(),
        max_peers_allowed + 2
    );
    // the last reserved node comes up when every other slot is taken
    network.add(config("reserved_nodes_reconnect_works", 52), address(52));
    network.advance(3_000);
    assert!(network.connected_events(sentry).contains(&peer(52)));
    assert_eq!(
        network.nodes[sentry].service.peer_manager().total_peers_connected(),
        max_peers_allowed + 3
    );
    assert_eq!(network.nodes[sentry].service.peer_manager().connected_discovered(), 3);

    // a reserved node that goes away is dialed again and comes back
    let reserved = network.at(&address(50)).unwrap();
    network.disconnect(sentry, reserved);
    network.run();
    assert!(network.nodes[sentry].service.peer_manager().is_connected(&peer(50)));
}

#[test]
fn dont_connect_to_node_with_same_peer_id() {
    let mut network = Network::new();
    let a = network.add(config("dont_connect_to_node_with_same_peer_id", 1), address(1));
    // node b has the keypair of node a, and node a as a reserved node
    let mut same = config("dont_connect_to_node_with_same_peer_id", 1);
    same.reserved_nodes = vec![address(1)];
    let b = network.add(same, Multiaddr::new("/ip4/127.0.0.1/tcp/4999".to_string(), Some(peer(1))));
    for step in 1..=5u64 {
        network.advance(step * 1_000);
        assert!(
            network.connected_events(a).is_empty(),
            "Node B should not connect to Node A because they have the same PeerId"
        );
        assert_eq!(network.nodes[a].service.peer_manager().total_peers_connected(), 0);
    }
    assert_eq!(network.nodes[b].service.peer_manager().total_peers_connected(), 0);
    assert!(network.connected_events(b).is_empty());
}

#[test]
fn self_dial_is_denied() {
    let mut service = FuelP2PService::new(config("self_dial", 1)).unwrap();
    assert_eq!(
        service.on_connection_established(peer(1), &vec![address(1)], &[0; 32], 0),
        Err(IncomingConnectionError::Denied(AdmissionReject::SelfDial))
    );
    assert!(matches!(service.next_action(), Some(Action::Disconnect(p)) if p == peer(1)));
    assert!(service.next_event().is_none());
    assert_eq!(service.peer_manager().total_peers_connected(), 0);
}

// Two nodes hear of twenty others. Each takes in discovered peers up to
// its own limit and never more.
#[test]
fn max_peers_connected_works() {
    let bootstrap_nodes_count = 20u8;
    let node_a_max_peers_allowed: usize = 3;
    let node_b_max_peers_allowed: usize = 5;
    let mut network = Network::new();
    let mut a = config("max_peers_connected_works", 101);
    a.max_discovery_peers_connected = node_a_max_peers_allowed as u32;
    let a = network.add(a, address(101));
    let mut b = config("max_peers_connected_works", 102);
    b.max_discovery_peers_connected = node_b_max_peers_allowed as u32;
    let b = network.add(b, address(102));
    for n in 1..=bootstrap_nodes_count {
        let mut other = config("max_peers_connected_works", n);
        other.bootstrap_nodes = vec![address(101), address(102)];
        network.add(other, address(n));
        let at_a = network.nodes[a].service.peer_manager();
        assert!(
            at_a.connected_discovered() <= node_a_max_peers_allowed,
            "The node should only connect to max {node_a_max_peers_allowed} peers"
        );
        let at_b = network.nodes[b].service.peer_manager();
        assert!(
            at_b.connected_discovered() <= node_b_max_peers_allowed,
            "The node should only connect to max {node_b_max_peers_allowed} peers"
        );
    }
    for step in 1..=5u64 {
        network.advance(step * 1_000);
        assert_eq!(network.nodes[a].service.peer_manager().total_peers_connected(), 3);
        assert_eq!(network.nodes[b].service.peer_manager().total_peers_connected(), 5);
    }
    assert_eq!(network.connected_events(a).len(), 3);
    assert_eq!(network.connected_events(b).len(), 5);
}

#[test]
fn bootstrap_nodes_have_their_own_slots() {
    let mut network = Network::new();
    for n in 1..=20u8 {
        network.add(config("bootstrap_slots", n), address(n));
    }
    let mut a = config("bootstrap_slots", 101);
    a.max_discovery_peers_connected = 3;
    a.bootstrap_nodes = (1..=20u8).map(address).collect();
    let a = network.add(a, address(101));
    let manager = network.nodes[a].service.peer_manager();
    assert_eq!(manager.connected_discovered(), 0);
    assert_eq!(manager.connected_bootstrap(), 20);
    assert_eq!(manager.total_peers_connected(), 20);
}

// A guarded node connects to its reserved nodes only, while its sentries
// are free to connect to others.
#[test]
fn sentry_nodes_working() {
    const RESERVED_NODE_SIZE: u8 = 4;
    let mut network = Network::new();
    network.exchange_peers = true;
    let mut sentries = Vec::new();
    for n in 1..=RESERVED_NODE_SIZE {
        sentries.push(network.add(config("sentry_nodes_working", n), address(n)));
    }
    let mut guarded = config("sentry_nodes_working", 100);
    guarded.reserved_nodes = (1..=RESERVED_NODE_SIZE).map(address).collect();
    guarded.reserved_nodes_only_mode = true;
    let guarded = network.add(guarded, address(100));
    for n in 10..30u8 {
        let mut other = config("sentry_nodes_working", n);
        other.bootstrap_nodes = vec![address(1), address(100)];
        network.add(other, address(n));
    }
    network.advance(5_000);
    let mut connected = network.connected_events(guarded);
    connected.sort_by_key(|p| p.0);
    assert_eq!(
        connected,
        (1..=RESERVED_NODE_SIZE).map(peer).collect::<Vec<_>>(),
        "The node should only connect to the specified reserved nodes!"
    );
    assert_eq!(network.nodes[guarded].service.peer_manager().total_peers_connected(), 4);
    // a sentry has found peers outside of the set
    assert!(network.connected_events(sentries[0]).len() >= 2 * RESERVED_NODE_SIZE as usize);
}

#[test]
fn nodes_connected_via_mdns() {
    let mut network = Network::new();
    let mut options = config("nodes_connected_via_mdns", 1);
    options.enable_mdns = true;
    let a = network.add(options, address(1));
    let mut options = config("nodes_connected_via_mdns", 2);
    options.enable_mdns = true;
    let b = network.add(options, address(2));
    assert_eq!(network.connected_events(b), vec![peer(1)]);
    assert_eq!(network.connected_events(a), vec![peer(2)]);
}

#[test]
fn nodes_cannot_connect_due_to_different_checksum() {
    let mut network = Network::new();
    let a = network.add(config("nodes_cannot_connect_due_to_different_checksum", 1), address(1));
    let mut different = config("nodes_cannot_connect_due_to_different_checksum", 2);
    different.checksum = [1u8; 32];
    different.bootstrap_nodes = vec![address(1)];
    let b = network.add(different, address(2));
    network.advance(5_000);
    assert!(network.connected_events(a).is_empty());
    assert!(network.connected_events(b).is_empty(), "Node B should not connect to Node A!");

    let mut listener = FuelP2PService::new(config("checksum", 1)).unwrap();
    assert_eq!(
        listener.on_connection_established(peer(2), &vec![address(2)], &[1u8; 32], 0),
        Err(IncomingConnectionError::Transport)
    );
    assert!(listener.next_event().is_none());
    assert_eq!(listener.peer_manager().total_peers_connected(), 0);
}

#[test]
fn nodes_connected_via_identify() {
    let mut network = Network::new();
    network.exchange_peers = true;
    network.add(config("nodes_connected_via_identify", 1), address(1));
    let mut options = config("nodes_connected_via_identify", 2);
    options.bootstrap_nodes = vec![address(1)];
    network.add(options, address(2));
    let mut options = config("nodes_connected_via_identify", 3);
    options.bootstrap_nodes = vec![address(1)];
    let c = network.add(options, address(3));
    assert!(network.connected_events(c).contains(&peer(2)));
    let info = network.nodes[c].service.peer_manager().get_peer_info(&peer(2)).unwrap();
    assert_eq!(info.client_version, Some("fuel-core".to_string()));
    assert_eq!(info.peer_addresses, vec![address(2)]);
}

#[test]
fn peer_info_updates_work() {
    let mut network = Network::new();
    let a = network.add(config("peer_info_updates_work", 1), address(1));
    let mut options = config("peer_info_updates_work", 2);
    options.bootstrap_nodes = vec![address(1)];
    let b = network.add(options, address(2));
    assert_eq!(network.connected_events(b), vec![peer(1)]);
    assert_eq!(network.connected_events(a), vec![peer(2)]);

    let latest_block_height = 40_u32;
    network.nodes[b].service.update_block_height(latest_block_height);
    network.advance(2_000);
    let updated = network.nodes[a].events.iter().any(|event| {
        matches!(
            event,
            FuelP2PEvent::PeerInfoUpdated { peer_id, block_height: Some(40) } if *peer_id == peer(2)
        )
    });
    assert!(updated);
    let info = network.nodes[a].service.peer_manager().get_peer_info(&peer(2)).unwrap();
    assert!(info.client_version.is_some());
    assert_eq!(info.heartbeat_data.unwrap().block_height, latest_block_height);
    assert_eq!(info.heartbeat_data.unwrap().last_seen, 2_000);
    assert!(!info.peer_addresses.is_empty());
}

/// Three nodes in a row, A - B - C, where C blocks A. A publishes, B gives
/// its verdict, and C sees the message only if B accepted it.
fn gossipsub_broadcast(
    broadcast_request: GossipsubBroadcastRequest,
    acceptance: GossipsubMessageAcceptance,
    connection_limit: Option<u32>,
) -> bool {
    let name = "gossipsub_exchanges_messages";
    let selected_tag = broadcast_request.tag();
    let selected_topic = topic_hash(selected_tag, name);
    let mut network = Network::new();
    let limit = |mut options: Config| {
        if let Some(connection_limit) = connection_limit {
            options.max_functional_peers_connected = connection_limit;
        }
        options
    };
    let a = network.add(limit(config(name, 1)), address(1));
    let mut options = limit(config(name, 2));
    options.bootstrap_nodes = vec![address(1)];
    let b = network.add(options, address(2));
    network.nodes[b].verdict = Some(acceptance);
    let mut options = limit(config(name, 3));
    options.bootstrap_nodes = vec![address(2)];
    let c = network.add(options, address(3));
    network.blocked.push((c, a));

    let subscribed = |node: &Node, to: PeerId| {
        node.events.iter().any(|event| {
            matches!(
                event,
                FuelP2PEvent::NewSubscription { peer_id, tag } if *peer_id == to && *tag == selected_tag
            )
        })
    };
    assert!(subscribed(&network.nodes[a], peer(2)));
    assert!(subscribed(&network.nodes[b], peer(3)));

    network.nodes[a].service.publish_message(broadcast_request.duplicate(), 0).unwrap();
    network.run();

    // Node B received the message that was asked for, from node A
    let at_b = network.gossip_events(b);
    assert_eq!(at_b.len(), 1);
    assert_eq!(at_b[0].0, peer(1));
    assert_eq!(at_b[0].1, selected_topic, "Wrong Topic");
    expect_message_matches_request(at_b[0].2, &broadcast_request);
    // If node B publishes it again it is a duplicate: the id of a message
    // is the same whoever sends it
    assert_eq!(
        network.nodes[b].service.publish_message(broadcast_request.duplicate(), 1),
        Err(PublishError::Duplicate)
    );
    assert_eq!(
        network.nodes[a].service.publish_message(broadcast_request.duplicate(), 1),
        Err(PublishError::Duplicate)
    );

    let at_c = network.gossip_events(c);
    for (source, _, message) in &at_c {
        // Node B should be the source propagator
        assert!(*source == peer(2));
        expect_message_matches_request(message, &broadcast_request);
    }
    match acceptance {
        GossipsubMessageAcceptance::Reject | GossipsubMessageAcceptance::Ignore => {
            assert!(at_c.is_empty(), "Node C should not receive Rejected or Ignored messages");
        }
        GossipsubMessageAcceptance::Accept => {}
    }
    !at_c.is_empty()
}

#[test]
fn gossipsub_broadcast_tx_with_accept__new_tx() {
    for _ in 0..100 {
        assert!(gossipsub_broadcast(
            GossipsubBroadcastRequest::NewTx(default_test_tx()),
            GossipsubMessageAcceptance::Accept,
            None,
        ));
    }
}

#[test]
fn gossipsub_broadcast_tx_with_accept__tx_preconfirmations() {
    for _ in 0..100 {
        assert!(gossipsub_broadcast(
            GossipsubBroadcastRequest::TxPreConfirmations(default_test_confirmation()),
            GossipsubMessageAcceptance::Accept,
            None,
        ));
    }
}

#[test]
fn gossipsub_broadcast_tx_with_reject__new_tx() {
    for _ in 0..100 {
        assert!(!gossipsub_broadcast(
            GossipsubBroadcastRequest::NewTx(default_test_tx()),
            GossipsubMessageAcceptance::Reject,
            None,
        ));
    }
}

#[test]
fn gossipsub_broadcast_tx_with_reject__tx_preconfirmations() {
    for _ in 0..100 {
        assert!(!gossipsub_broadcast(
            GossipsubBroadcastRequest::TxPreConfirmations(default_test_confirmation()),
            GossipsubMessageAcceptance::Reject,
            None,
        ));
    }
}

#[test]
fn gossipsub_broadcast_tx_with_ignore() {
    assert!(!gossipsub_broadcast(
        GossipsubBroadcastRequest::NewTx(default_test_tx()),
        GossipsubMessageAcceptance::Ignore,
        None,
    ));
}

// With room for one peer in a mesh, node B keeps node A there and has no
// place for node C: the message does not travel on.
#[test]
fn gossipsub_peer_limit_works() {
    assert!(!gossipsub_broadcast(
        GossipsubBroadcastRequest::NewTx(default_test_tx()),
        GossipsubMessageAcceptance::Accept,
        Some(1),
    ));
}

/// Three nodes that all know each other publish in turn, and every node
/// gives the same verdict on what it receives.
fn gossipsub_scoring_tester(
    test_name: &str,
    amount_of_msgs_per_second: usize,
    acceptance: GossipsubMessageAcceptance,
) -> Network {
    let mut network = Network::new();
    network.exchange_peers = true;
    for n in 1..=3u8 {
        let mut options = config(test_name, n);
        if n > 1 {
            options.bootstrap_nodes = vec![address(n - 1)];
        }
        let index = network.add(options, address(n));
        network.nodes[index].verdict = Some(acceptance);
    }
    let mut payload: u32 = 0;
    for second in 0..3u64 {
        for message in 0..amount_of_msgs_per_second {
            payload += 1;
            let tx = Transaction::new(payload.to_be_bytes().to_vec());
            let sender = message % 3;
            let _ = network.nodes[sender]
                .service
                .publish_message(GossipsubBroadcastRequest::NewTx(tx), second * 1_000);
            network.run();
        }
        network.advance((second + 1) * 1_000);
    }
    network
}

#[test]
fn gossipsub_scoring_with_accepted_messages() {
    let network =
        gossipsub_scoring_tester("gossipsub_scoring_with_accepted_messages", 100, GossipsubMessageAcceptance::Accept);
    for index in 0..3usize {
        assert_eq!(network.nodes[index].service.peer_manager().total_peers_connected(), 2);
        for other in 0..3usize {
            if other != index {
                let score = network.nodes[index].service.get_peer_score(&network.nodes[other].id);
                assert!(score.unwrap() > 0);
            }
        }
    }
    // the second node published thirty-three messages in each of three seconds, and the
    // first node accepted each of them once
    assert_eq!(network.nodes[0].service.get_peer_score(&peer(2)), Some(99 * 500));
}

/// Below the graylist threshold a node ignores all messages of the peer
/// and bans it, which leads to a disconnect.
#[test]
fn gossipsub_scoring_with_rejected_messages() {
    let network =
        gossipsub_scoring_tester("gossipsub_scoring_with_rejected_messages", 100, GossipsubMessageAcceptance::Reject);
    for index in 0..3usize {
        assert_eq!(network.nodes[index].service.peer_manager().total_peers_connected(), 0);
        assert!(network.nodes[index]
            .events
            .iter()
            .any(|event| matches!(event, FuelP2PEvent::PeerDisconnected(_))));
    }
}

fn two_nodes(name: &str, a_timeout: u64) -> (Network, usize, usize) {
    let mut network = Network::new();
    let mut options = config(name, 1);
    options.set_request_timeout = a_timeout;
    let a = network.add(options, address(1));
    let mut options = config(name, 2);
    options.bootstrap_nodes = vec![address(1)];
    let b = network.add(options, address(2));
    let known = network.nodes[a]
        .events
        .iter()
        .any(|event| matches!(event, FuelP2PEvent::PeerInfoUpdated { peer_id, .. } if *peer_id == peer(2)));
    assert!(known);
    assert!(network.nodes[a].service.peer_manager().get_peer_info(&peer(2)).is_some());
    (network, a, b)
}

fn slot_for(request: &RequestMessage) -> ResponseSender {
    match request {
        RequestMessage::SealedHeaders(_) => ResponseSender::SealedHeaders,
        RequestMessage::Transactions(_) => ResponseSender::Transactions,
        RequestMessage::TxPoolAllTransactionsIds => ResponseSender::TxPoolAllTransactionsIds,
        RequestMessage::TxPoolFullTransactions(_) => ResponseSender::TxPoolFullTransactions,
    }
}

/// Node A asks node B, node B answers what the kind of request calls for,
/// and node A finds the answer in its slot.
fn request_response_works_with(request_msg: RequestMessage) {
    let (mut network, a, b) = two_nodes("request_response_works_with", 20_000);
    let sent = network.nodes[a].service.send_request_msg(None, request_msg.clone(), slot_for(&request_msg), 0);
    assert!(sent.is_ok());
    network.run();

    // Node B receives the request that node A sent
    let received: Vec<(u64, RequestMessage)> = network.nodes[b]
        .events
        .iter()
        .filter_map(|event| match event {
            FuelP2PEvent::InboundRequestMessage { request_id, request_message } => {
                Some((*request_id, request_message.clone()))
            }
            _ => None,
        })
        .collect();
    assert_eq!(received.len(), 1);
    let (request_id, received_request_message) = received.into_iter().next().unwrap();
    assert_eq!(received_request_message, request_msg);
    let response = match &received_request_message {
        RequestMessage::SealedHeaders(range) => {
            V2ResponseMessage::SealedHeaders(Ok(arbitrary_headers_for_range(range.clone())))
        }
        RequestMessage::Transactions(_) => {
            let txs = (0..5).map(|_| default_test_tx()).collect();
            V2ResponseMessage::Transactions(Ok(vec![Transactions(txs)]))
        }
        RequestMessage::TxPoolAllTransactionsIds => {
            let tx_ids = (0..5).map(|_| tx_id(&default_test_tx(), 1)).collect();
            V2ResponseMessage::TxPoolAllTransactionsIds(Ok(tx_ids))
        }
        RequestMessage::TxPoolFullTransactions(tx_ids) => {
            let txs = tx_ids
                .iter()
                .enumerate()
                .map(|(i, _)| {
                    if i == 0 {
                        None
                    } else {
                        Some(NetworkableTransactionPool::Transaction(default_test_tx()))
                    }
                })
                .collect();
            V2ResponseMessage::TxPoolFullTransactions(Ok(txs))
        }
    };
    assert_eq!(network.nodes[b].service.send_response_msg(request_id, response), Ok(()));
    network.run();

    assert_eq!(network.nodes[a].replies.len(), 1);
    let delivery = &network.nodes[a].replies[0];
    assert_eq!(delivery.request_id, sent.unwrap());
    assert_eq!(delivery.reply_slot, slot_for(&request_msg));
    match (&request_msg, &delivery.result) {
        (RequestMessage::SealedHeaders(range), Ok((from, ResponseMessage::SealedHeaders(Ok(sealed_headers))))) => {
            assert_eq!(*from, peer(2));
            let expected = arbitrary_headers_for_range(range.clone());
            assert_eq!(sealed_headers.len(), expected.len());
            assert!(expected.iter().zip(sealed_headers.iter()).all(|(a, b)| a.eq_except_metadata(b)));
        }
        (RequestMessage::Transactions(_), Ok((_, ResponseMessage::Transactions(Ok(transactions))))) => {
            assert!(transactions.len() == 1 && transactions[0].0.len() == 5);
        }
        (RequestMessage::TxPoolAllTransactionsIds, Ok((_, ResponseMessage::TxPoolAllTransactionsIds(Ok(ids))))) => {
            let tx_ids: Vec<TxId> = (0..5).map(|_| tx_id(&default_test_tx(), 1)).collect();
            assert_eq!(*ids, tx_ids);
        }
        (RequestMessage::TxPoolFullTransactions(tx_ids), Ok((_, ResponseMessage::TxPoolFullTransactions(Ok(transactions))))) => {
            assert_eq!(transactions.len(), tx_ids.len());
            assert_eq!(transactions[0], None);
            for tx in &transactions[1..] {
                assert_eq!(*tx, Some(NetworkableTransactionPool::Transaction(default_test_tx())));
            }
        }
        (_, other) => panic!("Received incorrect or missing message: {:?}", other),
    }
    assert_eq!(network.nodes[a].service.outbound_requests_table().len(), 0);
    assert_eq!(network.nodes[b].service.send_response_msg(request_id, V2ResponseMessage::SealedHeaders(Ok(vec![]))), Err(SendError::Closed));
}

#[test]
fn request_response_works_with_transactions() {
    let arbitrary_range = 2..6;
    request_response_works_with(RequestMessage::Transactions(arbitrary_range))
}

#[test]
fn request_response_works_with_sealed_headers_range_inclusive() {
    let arbitrary_range = 2..6;
    request_response_works_with(RequestMessage::SealedHeaders(arbitrary_range))
}

#[test]
fn request_response_works_with_transactions_ids() {
    request_response_works_with(RequestMessage::TxPoolAllTransactionsIds)
}

#[test]
fn request_response_works_with_full_transactions() {
    let tx_ids = (0..10).map(|_| tx_id(&default_test_tx(), 1)).collect();
    request_response_works_with(RequestMessage::TxPoolFullTransactions(tx_ids))
}

/// A request for transactions is answered with headers.
#[test]
fn invalid_response_type_is_detected() {
    let (mut network, a, b) = two_nodes("invalid_response_type_is_detected", 20_000);
    assert!(network.nodes[a]
        .service
        .send_request_msg(None, RequestMessage::Transactions(0..2), ResponseSender::Transactions, 0)
        .is_ok());
    network.run();
    let request_id = network.nodes[b]
        .events
        .iter()
        .find_map(|event| match event {
            FuelP2PEvent::InboundRequestMessage { request_id, .. } => Some(*request_id),
            _ => None,
        })
        .unwrap();
    let sealed_headers: Vec<_> = arbitrary_headers_for_range(1..3);
    let _ = network.nodes[b]
        .service
        .send_response_msg(request_id, V2ResponseMessage::SealedHeaders(Ok(sealed_headers)));
    network.run();
    assert_eq!(network.nodes[a].replies.len(), 1);
    match &network.nodes[a].replies[0].result {
        Ok(_) => panic!("Request succeeded unexpectedly"),
        Err(ResponseError::TypeMismatch) => {}
        Err(err) => panic!("Unexpected error in P2P communication: {:?}", err),
    }
    // the mismatch costs the peer a little and does not ban it
    assert_eq!(network.nodes[a].service.get_peer_score(&peer(2)), Some(-1_000));
    assert!(network.nodes[a].service.peer_manager().is_eligible(&peer(2)));
    assert_eq!(network.nodes[a].service.peer_manager().total_peers_connected(), 1);
}

#[test]
fn req_res_outbound_timeout_works() {
    // the request timeout of node A is one millisecond
    let (mut network, a, _b) = two_nodes("req_res_outbound_timeout_works", 1);
    network.lose_requests = true;
    // there should be ZERO pending outbound requests in the table
    assert_eq!(network.nodes[a].service.outbound_requests_table().len(), 0);
    let requested_block_height = RequestMessage::SealedHeaders(0..0);
    assert!(network.nodes[a]
        .service
        .send_request_msg(None, requested_block_height, ResponseSender::SealedHeaders, 10)
        .is_ok());
    // there should be ONE pending outbound request in the table
    assert_eq!(network.nodes[a].service.outbound_requests_table().len(), 1);
    network.advance(10);
    assert!(network.nodes[a].replies.is_empty());
    network.advance(11);
    assert_eq!(network.nodes[a].replies.len(), 1);
    match &network.nodes[a].replies[0].result {
        Ok(_) => panic!("Request succeeded unexpectedly"),
        Err(ResponseError::P2P(RequestResponseError::Timeout)) => {}
        Err(err) => panic!("Unexpected error in P2P communication: {:?}", err),
    }
    // there should be ZERO pending outbound requests in the table
    assert_eq!(network.nodes[a].service.outbound_requests_table().len(), 0);
    network.advance(12);
    assert_eq!(network.nodes[a].replies.len(), 1);
}

#[test]
fn a_disconnect_ends_pending_requests() {
    let (mut network, a, b) = two_nodes("disconnect", 20_000);
    network.lose_requests = true;
    let id = network.nodes[a]
        .service
        .send_request_msg(Some(peer(2)), RequestMessage::TxPoolAllTransactionsIds, ResponseSender::TxPoolAllTransactionsIds, 0)
        .unwrap();
    network.run();
    network.disconnect(a, b);
    network.run();
    assert_eq!(network.nodes[a].replies.len(), 1);
    assert_eq!(network.nodes[a].replies[0].request_id, id);
    assert_eq!(
        network.nodes[a].replies[0].result,
        Err(ResponseError::P2P(RequestResponseError::PeerDisconnected))
    );
    assert!(network.nodes[a]
        .events
        .iter()
        .any(|event| matches!(event, FuelP2PEvent::PeerDisconnected(p) if *p == peer(2))));
    assert_eq!(
        network.nodes[a].service.send_request_msg(None, RequestMessage::TxPoolAllTransactionsIds, ResponseSender::TxPoolAllTransactionsIds, 0),
        Err(SendError::NoEligiblePeer)
    );
}

#[test]
fn a_shutdown_ends_pending_requests() {
    let (mut network, a, _b) = two_nodes("shutdown", 20_000);
    network.lose_requests = true;
    network.nodes[a]
        .service
        .send_request_msg(None, RequestMessage::SealedHeaders(1..2), ResponseSender::SealedHeaders, 0)
        .unwrap();
    network.run();
    network.nodes[a].service.shutdown();
    network.run();
    assert_eq!(network.nodes[a].replies.len(), 1);
    assert_eq!(
        network.nodes[a].replies[0].result,
        Err(ResponseError::P2P(RequestResponseError::Shutdown))
    );
    assert_eq!(
        network.nodes[a].service.send_request_msg(None, RequestMessage::SealedHeaders(1..2), ResponseSender::SealedHeaders, 0),
        Err(SendError::Closed)
    );
}

#[test]
fn a_request_goes_to_an_eligible_peer() {
    let mut network = Network::new();
    let a = network.add(config("choice", 1), address(1));
    for n in 2..=6u8 {
        let mut options = config("choice", n);
        options.bootstrap_nodes = vec![address(1)];
        network.add(options, address(n));
    }
    network.lose_requests = true;
    // the peer with the lowest place is banned
    network.nodes[a].service.on_gossip_message(peer(9), &"x".to_string(), vec![], 0);
    let service = &mut network.nodes[a].service;
    assert_eq!(service.peer_manager().eligible_peers(), (2..=6u8).map(peer).collect::<Vec<_>>());
    for round in 0..40u64 {
        let id = service
            .send_request_msg(None, RequestMessage::TxPoolAllTransactionsIds, ResponseSender::TxPoolAllTransactionsIds, round)
            .unwrap();
        let asked = service.outbound_requests_table().get(id).unwrap().peer;
        assert!((2..=6u8).map(peer).any(|p| p == asked));
        assert_eq!(service.outbound_requests_table().get(id).unwrap().deadline, round + 20_000);
    }
    let id = service
        .send_request_with_choice(None, 7, RequestMessage::TxPoolAllTransactionsIds, ResponseSender::TxPoolAllTransactionsIds, 0)
        .unwrap();
    assert_eq!(service.outbound_requests_table().get(id).unwrap().peer, peer(4));
    let id = service
        .send_request_with_choice(Some(peer(6)), 0, RequestMessage::TxPoolAllTransactionsIds, ResponseSender::TxPoolAllTransactionsIds, 0)
        .unwrap();
    assert_eq!(service.outbound_requests_table().get(id).unwrap().peer, peer(6));
    assert_eq!(
        service.send_request_msg(Some(peer(77)), RequestMessage::TxPoolAllTransactionsIds, ResponseSender::TxPoolAllTransactionsIds, 0),
        Err(SendError::NoEligiblePeer)
    );
}

#[test]
fn commands_are_refused_when_the_queue_is_full() {
    let mut options = config("full", 1);
    options.max_outbound_queue = 1;
    let mut service = FuelP2PService::new(options).unwrap();
    service.on_connection_established(peer(2), &vec![], &[0; 32], 0).unwrap();
    assert_eq!(service.publish_message(GossipsubBroadcastRequest::NewTx(default_test_tx()), 0), Ok(()));
    assert_eq!(
        service.publish_message(GossipsubBroadcastRequest::NewTx(Transaction::new(vec![1])), 0),
        Err(PublishError::Full)
    );
    assert_eq!(
        service.send_request_msg(None, RequestMessage::SealedHeaders(0..1), ResponseSender::SealedHeaders, 0),
        Err(SendError::Full)
    );
    assert_eq!(
        service.send_response_msg(0, V2ResponseMessage::SealedHeaders(Ok(vec![]))),
        Err(SendError::Full)
    );
    // a payload that counts as seen is a duplicate also where the queue is full
    assert_eq!(
        service.publish_message(GossipsubBroadcastRequest::NewTx(default_test_tx()), 1),
        Err(PublishError::Duplicate)
    );
    let hash = topic_hash(GossipTopicTag::NewTx, "full");
    service.on_gossip_message(peer(2), &hash, vec![7, 7], 1);
    assert_eq!(
        service.publish_message(GossipsubBroadcastRequest::NewTx(Transaction::new(vec![7, 7])), 2),
        Err(PublishError::Duplicate)
    );
    assert_eq!(service.pending_actions(), 1);
    assert!(service.next_action().is_some());
    // the message that was refused for want of room was not marked as seen
    assert_eq!(service.publish_message(GossipsubBroadcastRequest::NewTx(Transaction::new(vec![1])), 0), Ok(()));
}

#[test]
fn publish_needs_a_subscription_to_the_topic() {
    let mut options = config("subscription", 1);
    options.subscribe_to_new_tx = false;
    let mut service = FuelP2PService::new(options).unwrap();
    assert_eq!(
        service.publish_message(GossipsubBroadcastRequest::NewTx(default_test_tx()), 0),
        Err(PublishError::NotSubscribed)
    );
    assert_eq!(
        service.publish_message(GossipsubBroadcastRequest::TxPreConfirmations(default_test_confirmation()), 0),
        Ok(())
    );
}

#[test]
fn requests_of_unknown_peers_are_not_surfaced() {
    let mut service = FuelP2PService::new(config("unknown", 1)).unwrap();
    service.on_inbound_request(1, peer(9), RequestMessage::TxPoolAllTransactionsIds, 0);
    assert!(service.next_event().is_none());
    service.on_connection_established(peer(9), &vec![], &[0; 32], 0).unwrap();
    assert!(matches!(service.next_event(), Some(FuelP2PEvent::PeerConnected(_))));
    service.on_inbound_request(1, peer(9), RequestMessage::TxPoolAllTransactionsIds, 0);
    assert!(matches!(
        service.next_event(),
        Some(FuelP2PEvent::InboundRequestMessage { request_id: 1, request_message: RequestMessage::TxPoolAllTransactionsIds })
    ));
    service.on_inbound_request(1, peer(9), RequestMessage::TxPoolAllTransactionsIds, 0);
    assert!(service.next_event().is_none());
    // the embedder is late: the request is dropped, and the answer finds nobody
    service.tick(20_000);
    assert_eq!(
        service.send_response_msg(1, V2ResponseMessage::TxPoolAllTransactionsIds(Ok(vec![]))),
        Err(SendError::Closed)
    );
}

#[test]
fn heartbeats_go_out_at_their_interval() {
    let mut service = FuelP2PService::new(config("heartbeat", 1)).unwrap();
    service.update_block_height(7);
    service.tick(5);
    assert!(matches!(service.next_action(), Some(Action::SendHeartbeat { block_height: 7 })));
    service.tick(10_004);
    assert!(service.next_action().is_none());
    service.update_block_height(8);
    service.tick(10_005);
    assert!(matches!(service.next_action(), Some(Action::SendHeartbeat { block_height: 8 })));
    assert!(service.next_action().is_none());
}

#[test]
fn events_keep_their_order() {
    let mut service = FuelP2PService::new(config("order", 1)).unwrap();
    service.on_connection_established(peer(2), &vec![], &[0; 32], 0).unwrap();
    service.on_heartbeat(peer(2), 1, 1);
    service.on_heartbeat(peer(2), 2, 2);
    service.on_connection_closed(peer(2), 1, 3);
    service.on_connection_closed(peer(2), 0, 3);
    service.on_heartbeat(peer(2), 3, 4);
    let mut seen = Vec::new();
    while let Some(event) = service.next_event() {
        seen.push(format!("{:?}", event).split(['(', ' ']).next().unwrap().to_string());
    }
    assert_eq!(seen, vec!["PeerConnected", "PeerInfoUpdated", "PeerInfoUpdated", "PeerDisconnected"]);
}

#[test]
fn an_oversized_response_is_a_protocol_violation() {
    let (mut network, a, _b) = two_nodes("violation", 20_000);
    network.lose_requests = true;
    let id = network.nodes[a]
        .service
        .send_request_msg(None, RequestMessage::SealedHeaders(1..2), ResponseSender::SealedHeaders, 0)
        .unwrap();
    network.run();
    network.nodes[a].service.on_protocol_violation(id);
    network.nodes[a].service.on_protocol_violation(id);
    network.run();
    assert_eq!(network.nodes[a].replies.len(), 1);
    assert_eq!(network.nodes[a].replies[0].result, Err(ResponseError::ProtocolViolation));
    assert_eq!(network.nodes[a].service.outbound_requests_table().len(), 0);
}

#[test]
fn a_bootstrap_node_that_is_down_is_given_up() {
    let mut network = Network::new();
    let mut options = config("bootstrap_down", 1);
    options.bootstrap_nodes = vec![address(2)];
    let a = network.add(options, address(1));
    assert_eq!(network.later.len(), 1);
    network.advance(1_000);
    network.advance(3_000);
    network.advance(7_000);
    network.advance(60_000);
    assert!(network.later.is_empty());
    assert_eq!(network.nodes[a].service.peer_manager().total_peers_connected(), 0);
    // the node comes up too late: nobody dials it any more
    network.add(config("bootstrap_down", 2), address(2));
    network.advance(120_000);
    assert_eq!(network.nodes[a].service.peer_manager().total_peers_connected(), 0);
}

#[test]
fn reports_of_the_transport_go_to_their_operations() {
    let mut service = FuelP2PService::new(config("reports", 1)).unwrap();
    let hash = topic_hash(GossipTopicTag::NewTx, "reports");
    let reports = vec![
        TransportEvent::ConnectionEstablished { peer: peer(2), addresses: vec![address(2)], checksum: [0; 32] },
        TransportEvent::Identified { peer: peer(2), client_version: "v".to_string(), addresses: vec![] },
        TransportEvent::Heartbeat { peer: peer(2), block_height: 9 },
        TransportEvent::Subscribed { peer: peer(2), topic_hash: hash.clone() },
        TransportEvent::GossipMessage { peer: peer(2), topic_hash: hash.clone(), payload: vec![1] },
        TransportEvent::InboundRequest { request_id: 4, peer: peer(2), message: RequestMessage::TxPoolAllTransactionsIds },
        TransportEvent::Unsubscribed { peer: peer(2), topic_hash: hash },
        TransportEvent::Response { request_id: 0, response: ResponseMessage::SealedHeaders(Ok(vec![])) },
        TransportEvent::MalformedResponse { request_id: 0 },
        TransportEvent::DialFailure { peer: peer(3) },
        TransportEvent::ConnectionClosed { peer: peer(2), remaining_established: 0 },
    ];
    for (at, report) in reports.into_iter().enumerate() {
        service.on_transport_event(report, at as u64);
    }
    let mut seen = Vec::new();
    while let Some(event) = service.next_event() {
        seen.push(format!("{:?}", event).split(['(', ' ']).next().unwrap().to_string());
    }
    assert_eq!(
        seen,
        vec![
            "PeerConnected",
            "PeerInfoUpdated",
            "PeerInfoUpdated",
            "NewSubscription",
            "GossipsubMessage",
            "InboundRequestMessage",
            "PeerDisconnected",
        ]
    );
    assert!(service.next_action().is_none());
    assert_eq!(service.peer_manager().total_peers_connected(), 0);
}

#[test]
fn headers_made_up_for_a_range() {
    let headers = arbitrary_headers_for_range(2..6);
    assert_eq!(headers.len(), 4);
    for (i, header) in headers.iter().enumerate() {
        assert_eq!(header.entity.height, 2 + i as u32);
        assert!(header.entity.application.is_empty());
        assert!(header.entity.consensus.is_empty());
        assert_eq!(header.entity.metadata, None);
        assert_eq!(header.consensus, vec![0u8; 64]);
    }
    assert!(arbitrary_headers_for_range(0..0).is_empty());
    assert!(arbitrary_headers_for_range(6..2).is_empty());
    assert_eq!(arbitrary_headers_for_range(u32::MAX - 1..u32::MAX).len(), 1);
}

#[test]
fn a_graylisted_peer_is_neither_heard_nor_asked() {
    let mut options = config("graylist", 1);
    options.mismatch_score_delta = -50_000;
    let mut service = FuelP2PService::new(options).unwrap();
    service.on_connection_established(peer(2), &vec![], &[0; 32], 0).unwrap();
    for _ in 0..2 {
        let id = service
            .send_request_msg(Some(peer(2)), RequestMessage::Transactions(0..2), ResponseSender::Transactions, 0)
            .unwrap();
        service.on_response(id, V2ResponseMessage::SealedHeaders(Ok(vec![])));
    }
    assert_eq!(service.get_peer_score(&peer(2)), Some(-100_000));
    let info = service.peer_manager().get_peer_info(&peer(2)).unwrap();
    assert!(!info.banned);
    assert!(!service.peer_manager().is_eligible(&peer(2)));
    while service.next_event().is_some() {}
    let hash = topic_hash(GossipTopicTag::NewTx, "graylist");
    service.on_gossip_message(peer(2), &hash, vec![1, 2, 3], 1);
    assert!(service.next_event().is_none());
    service.on_inbound_request(5, peer(2), RequestMessage::TxPoolAllTransactionsIds, 1);
    assert!(service.next_event().is_none());
    assert_eq!(
        service.send_request_msg(None, RequestMessage::TxPoolAllTransactionsIds, ResponseSender::TxPoolAllTransactionsIds, 1),
        Err(SendError::NoEligiblePeer)
    );
    // nothing of it was surfaced, so the node may still publish the payload itself
    assert_eq!(
        service.publish_message(GossipsubBroadcastRequest::NewTx(Transaction::new(vec![1, 2, 3])), 2),
        Ok(())
    );
}

#[test]
fn a_peer_out_of_reach_has_disconnected() {
    let (mut network, a, _b) = two_nodes("out_of_reach", 20_000);
    network.lose_requests = true;
    let id = network.nodes[a]
        .service
        .send_request_msg(Some(peer(2)), RequestMessage::SealedHeaders(0..1), ResponseSender::SealedHeaders, 0)
        .unwrap();
    network.run();
    let service = &mut network.nodes[a].service;
    service.on_transport_event(TransportEvent::TransportFailure { peer: peer(9) }, 1);
    assert!(service.next_action().is_none());
    service.on_transport_event(TransportEvent::TransportFailure { peer: peer(2) }, 1);
    match service.next_action() {
        Some(Action::DeliverReply(delivery)) => {
            assert_eq!(delivery.request_id, id);
            assert_eq!(delivery.result, Err(ResponseError::P2P(RequestResponseError::PeerDisconnected)));
        }
        other => panic!("unexpected action: {:?}", other),
    }
    assert!(matches!(service.next_event(), Some(FuelP2PEvent::PeerDisconnected(p)) if p == peer(2)));
    assert_eq!(service.peer_manager().total_peers_connected(), 0);
}
