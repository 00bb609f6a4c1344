//! The configuration of a node.

use crate::gossipsub::layer::GossipLimits;
use crate::ids::{Multiaddr, PeerId};
use crate::peer_manager::model::PeerLimits;
use vstd::prelude::*;
use vstd::string::StringExecFns;

verus! {

/// The identity of a node: its secret and the peer id that belongs to it.
#[derive(Debug)]
pub struct Keypair {
    pub secret: [u8; 32],
    pub peer_id: PeerId,
}

/// The options that a node is started with.
#[derive(Debug)]
pub struct Config {
    /// The node's identity.
    pub keypair: Keypair,
    /// The name of the network; part of every topic's name.
    pub network_name: String,
    /// The digest of the chain's configuration. Two nodes connect only if
    /// their digests agree.
    pub checksum: [u8; 32],
    /// Peers that are dialed once when the node starts.
    pub bootstrap_nodes: Vec<Multiaddr>,
    /// Peers that are dialed for as long as the node runs.
    pub reserved_nodes: Vec<Multiaddr>,
    /// Whether only reserved peers may connect.
    pub reserved_nodes_only_mode: bool,
    /// How many discovered peers may be connected at once.
    pub max_discovery_peers_connected: u32,
    /// How many peers the mesh of a topic holds at most.
    pub max_functional_peers_connected: u32,
    /// Whether peers on the local network are looked for.
    pub enable_mdns: bool,
    pub subscribe_to_new_tx: bool,
    pub subscribe_to_pre_confirmations: bool,
    /// How long an outbound request may wait, in milliseconds.
    pub set_request_timeout: u64,
    /// How long the embedder may take to answer an inbound request, in
    /// milliseconds.
    pub inbound_request_timeout: u64,
    /// The largest payload of a request or response frame, in bytes.
    pub max_block_size: u32,
    /// How many outbound requests may be pending at once.
    pub max_outbound_requests: usize,
    /// How much outbound work may wait for the transport at once.
    pub max_outbound_queue: usize,
    /// The time between two heartbeats, in milliseconds.
    pub heartbeat_interval: u64,
    /// How long a ban outlasts the connection, in milliseconds.
    pub ban_linger: u64,
    /// The delay before the second attempt to reach a reserved peer.
    pub redial_base: u64,
    /// The longest delay between two attempts to reach a reserved peer.
    pub redial_ceiling: u64,
    /// How often a bootstrap peer is dialed again after its first dial
    /// failed.
    pub bootstrap_dial_retries: u32,
    /// The score a peer starts with.
    pub initial_score: i64,
    /// The score below which a peer is banned.
    pub graylist_threshold: i64,
    /// The change of score for an accepted gossip message.
    pub accept_score_delta: i64,
    /// The change of score for a rejected gossip message.
    pub reject_score_delta: i64,
    /// The change of score for a response of the wrong kind.
    pub mismatch_score_delta: i64,
    /// The change of score for a gossip message beyond the rate limit.
    pub rate_limit_score_delta: i64,
    /// How long a gossip message counts as seen, in milliseconds.
    pub seen_window: u64,
    /// The length of the window in which a peer's gossip is counted.
    pub gossip_rate_window: u64,
    /// How many gossip messages a peer may send within one window.
    pub max_gossip_per_window: u32,
}

/// Why a configuration is refused.
#[derive(Clone, Copy, Debug, PartialEq, Eq, Structural)]
pub enum ConfigError {
    /// Only reserved peers may connect, and none is named.
    ReservedOnlyWithoutReservedNodes,
    /// No frame could carry anything.
    ZeroBlockSize,
    /// No request could ever be pending.
    NoRoomForRequests,
    /// The changes of score point the wrong way: an accepted message must
    /// raise its sender's score, and a rejected message, a response of the
    /// wrong kind and a message beyond the rate must each lower it.
    ContraryScoreDeltas,
    /// The score that peers start with lies below the graylist threshold,
    /// so that every peer would be graylisted from the start.
    InitialScoreGraylisted,
}

/// Scores are kept in thousandths of a point.
pub const SCORE_UNIT: i64 = 1000;

impl Config {
    /// What is wrong with the configuration, if anything is.
    pub open spec fn fault(&self) -> Option<ConfigError> {
        if self.reserved_nodes_only_mode && self.reserved_nodes@.len() == 0 {
            Some(ConfigError::ReservedOnlyWithoutReservedNodes)
        } else if self.max_block_size == 0 {
            Some(ConfigError::ZeroBlockSize)
        } else if self.max_outbound_requests == 0 || self.max_outbound_queue == 0 {
            Some(ConfigError::NoRoomForRequests)
        } else if self.accept_score_delta <= 0 || self.reject_score_delta >= 0
            || self.mismatch_score_delta >= 0 || self.rate_limit_score_delta >= 0 {
            Some(ConfigError::ContraryScoreDeltas)
        } else if self.initial_score < self.graylist_threshold {
            Some(ConfigError::InitialScoreGraylisted)
        } else {
            None
        }
    }

    /// Checks that the options do not contradict each other.
    pub fn validate(&self) -> (r: Result<(), ConfigError>)
        ensures
            match r {
                Ok(_) => self.fault() is None,
                Err(e) => self.fault() == Some(e),
            },
    {
        if self.reserved_nodes_only_mode && self.reserved_nodes.len() == 0 {
            Err(ConfigError::ReservedOnlyWithoutReservedNodes)
        } else if self.max_block_size == 0 {
            Err(ConfigError::ZeroBlockSize)
        } else if self.max_outbound_requests == 0 || self.max_outbound_queue == 0 {
            Err(ConfigError::NoRoomForRequests)
        } else if self.accept_score_delta <= 0 || self.reject_score_delta >= 0
            || self.mismatch_score_delta >= 0 || self.rate_limit_score_delta >= 0 {
            Err(ConfigError::ContraryScoreDeltas)
        } else if self.initial_score < self.graylist_threshold {
            Err(ConfigError::InitialScoreGraylisted)
        } else {
            Ok(())
        }
    }

    /// The options of a node on the network `network_name` with the
    /// identity `keypair`, every other option at its default: no peers
    /// named, a hundred discovered peers and fifty in a mesh, both topics
    /// subscribed, twenty seconds for a request, a heartbeat every ten
    /// seconds, bans of an hour.
    pub fn default_initialized(network_name: &str, keypair: Keypair) -> (config: Config)
        ensures
            config.network_name@ == network_name@,
            config.keypair == keypair,
            config.checksum@ == Seq::new(32, |i: int| 0u8),
            config.bootstrap_nodes@.len() == 0,
            config.reserved_nodes@.len() == 0,
            !config.reserved_nodes_only_mode,
            config.max_discovery_peers_connected == 100,
            config.max_functional_peers_connected == 50,
            !config.enable_mdns,
            config.subscribe_to_new_tx,
            config.subscribe_to_pre_confirmations,
            config.set_request_timeout == 20_000,
            config.inbound_request_timeout == 20_000,
            config.max_block_size == 262_144,
            config.max_outbound_requests == 1024,
            config.max_outbound_queue == 4096,
            config.heartbeat_interval == 10_000,
            config.ban_linger == 3_600_000,
            config.redial_base == 1_000,
            config.redial_ceiling == 60_000,
            config.bootstrap_dial_retries == 3,
            config.initial_score == 0,
            config.graylist_threshold == -80 * SCORE_UNIT,
            config.accept_score_delta == SCORE_UNIT / 2,
            config.reject_score_delta == -20 * SCORE_UNIT,
            config.mismatch_score_delta == -SCORE_UNIT,
            config.rate_limit_score_delta == -5 * SCORE_UNIT,
            config.seen_window == 120_000,
            config.gossip_rate_window == 1_000,
            config.max_gossip_per_window == 1_000,
            config.fault() is None,
    {
        let checksum: [u8; 32] = [0u8;32];
        assert(checksum@ =~= Seq::new(32, |i: int| 0u8));
        Config {
            keypair,
            network_name: String::from_str(network_name),
            checksum,
            bootstrap_nodes: Vec::new(),
            reserved_nodes: Vec::new(),
            reserved_nodes_only_mode: false,
            max_discovery_peers_connected: 100,
            max_functional_peers_connected: 50,
            enable_mdns: false,
            subscribe_to_new_tx: true,
            subscribe_to_pre_confirmations: true,
            set_request_timeout: 20_000,
            inbound_request_timeout: 20_000,
            max_block_size: 262_144,
            max_outbound_requests: 1024,
            max_outbound_queue: 4096,
            heartbeat_interval: 10_000,
            ban_linger: 3_600_000,
            redial_base: 1_000,
            redial_ceiling: 60_000,
            bootstrap_dial_retries: 3,
            initial_score: 0,
            graylist_threshold: -80 * SCORE_UNIT,
            accept_score_delta: SCORE_UNIT / 2,
            reject_score_delta: -20 * SCORE_UNIT,
            mismatch_score_delta: -SCORE_UNIT,
            rate_limit_score_delta: -5 * SCORE_UNIT,
            seen_window: 120_000,
            gossip_rate_window: 1_000,
            max_gossip_per_window: 1_000,
        }
    }

    /// The numbers that govern the peer manager.
    pub open spec fn spec_peer_limits(&self) -> PeerLimits {
        PeerLimits {
            max_discovery_peers_connected: self.max_discovery_peers_connected,
            reserved_nodes_only_mode: self.reserved_nodes_only_mode,
            initial_score: self.initial_score,
            graylist_threshold: self.graylist_threshold,
            ban_linger_ms: self.ban_linger,
            redial_base_ms: self.redial_base,
            redial_ceiling_ms: self.redial_ceiling,
            bootstrap_dial_retries: self.bootstrap_dial_retries,
        }
    }

    /// The numbers that govern the peer manager.
    pub fn peer_limits(&self) -> (limits: PeerLimits)
        ensures
            limits == self.spec_peer_limits(),
    {
        PeerLimits {
            max_discovery_peers_connected: self.max_discovery_peers_connected,
            reserved_nodes_only_mode: self.reserved_nodes_only_mode,
            initial_score: self.initial_score,
            graylist_threshold: self.graylist_threshold,
            ban_linger_ms: self.ban_linger,
            redial_base_ms: self.redial_base,
            redial_ceiling_ms: self.redial_ceiling,
            bootstrap_dial_retries: self.bootstrap_dial_retries,
        }
    }

    /// The numbers that govern gossip.
    pub open spec fn spec_gossip_limits(&self) -> GossipLimits {
        GossipLimits {
            seen_window_ms: self.seen_window,
            rate_window_ms: self.gossip_rate_window,
            max_messages_per_window: self.max_gossip_per_window,
            mesh_size: self.max_functional_peers_connected,
            accept_delta: self.accept_score_delta,
            reject_delta: self.reject_score_delta,
            rate_penalty: self.rate_limit_score_delta,
        }
    }

    /// The numbers that govern gossip.
    pub fn gossip_limits(&self) -> (limits: GossipLimits)
        ensures
            limits == self.spec_gossip_limits(),
    {
        GossipLimits {
            seen_window_ms: self.seen_window,
            rate_window_ms: self.gossip_rate_window,
            max_messages_per_window: self.max_gossip_per_window,
            mesh_size: self.max_functional_peers_connected,
            accept_delta: self.accept_score_delta,
            reject_delta: self.reject_score_delta,
            rate_penalty: self.rate_limit_score_delta,
        }
    }
}

} // verus!
