//! The parts of the node that the voting engine calls into.

pub mod beacon;
pub mod proposer;
pub mod relay;

use crate::consensus::beacon::BeaconConsensus;
use crate::consensus::proposer::Proposer;
use crate::consensus::relay::{to_all, ConsensusRelay, MessageView, Outbound, RelayError};
use crate::bytes::name_list;
use vstd::prelude::*;

verus! {

/// Seconds to wait for a leader unless configured otherwise.
pub const DEFAULT_LEADER_TIMEOUT_SECS: u64 = 1;

/// Seconds to wait for a notarization unless configured otherwise.
pub const DEFAULT_NOTARIZATION_TIMEOUT_SECS: u64 = 2;

/// Number of messages that the engine's mailbox holds.
pub const DEFAULT_MAILBOX_SIZE: usize = 1024;

/// Number of journals replayed at once.
pub const DEFAULT_REPLAY_CONCURRENCY: usize = 4;

/// What the consensus of a node is set up with.
#[derive(Debug, Clone)]
pub struct ConsensusConfig {
    /// The public key of this node.
    pub public_key: Vec<u8>,
    /// Region names in rotation order; the first is this node's own.
    pub regions: Vec<String>,
    /// Seconds to wait for a leader.
    pub leader_timeout_secs: u64,
    /// Seconds to wait for a notarization.
    pub notarization_timeout_secs: u64,
    pub mailbox_size: usize,
    pub replay_concurrency: usize,
}

impl ConsensusConfig {
    /// A configuration with the default timeouts and sizes.
    pub fn new(public_key: Vec<u8>, regions: Vec<String>) -> (config: ConsensusConfig)
        ensures
            config.public_key == public_key,
            config.regions == regions,
            config.leader_timeout_secs == DEFAULT_LEADER_TIMEOUT_SECS,
            config.notarization_timeout_secs == DEFAULT_NOTARIZATION_TIMEOUT_SECS,
            config.mailbox_size == DEFAULT_MAILBOX_SIZE,
            config.replay_concurrency == DEFAULT_REPLAY_CONCURRENCY,
    {
        ConsensusConfig {
            public_key,
            regions,
            leader_timeout_secs: 1,
            notarization_timeout_secs: 2,
            mailbox_size: 1024,
            replay_concurrency: 4,
        }
    }

    /// The configuration with another time to wait for a leader.
    pub fn with_leader_timeout(self, timeout_secs: u64) -> (config: ConsensusConfig)
        ensures
            config == (ConsensusConfig { leader_timeout_secs: timeout_secs, ..self }),
    {
        let mut config = self;
        config.leader_timeout_secs = timeout_secs;
        config
    }

    /// The configuration with another time to wait for a notarization.
    pub fn with_notarization_timeout(self, timeout_secs: u64) -> (config: ConsensusConfig)
        ensures
            config == (ConsensusConfig { notarization_timeout_secs: timeout_secs, ..self }),
    {
        let mut config = self;
        config.notarization_timeout_secs = timeout_secs;
        config
    }
}

/// Where the consensus of a node stands.
#[derive(Debug, Clone)]
pub struct ConsensusState {
    /// The current round.
    pub view: u64,
    /// Hash of the latest final block.
    pub latest_hash: [u8; 32],
    /// Height of the latest final block.
    pub latest_number: u64,
}

/// Why the consensus failed.
#[derive(Debug)]
pub enum ConsensusError {
    Network(String),
    Storage(String),
    Relay(RelayError),
    Timeout,
    InvalidProposal,
    NoQuorum,
    Internal(String),
}

/// The parts of a node's consensus, ready for the voting engine, and the
/// first message for the network.
pub struct Consensus {
    pub relay: ConsensusRelay,
    pub beacon: BeaconConsensus,
    pub proposer: Proposer,
    /// The notice that this node joins its region.
    pub announcement: Outbound,
}

/// Sets up the consensus of a node: an election over the configured
/// regions, a relay and a proposer, and the notice that the node joins
/// the first of the regions. Without a region there is nothing to join,
/// and the setup fails.
pub fn init_consensus(config: ConsensusConfig) -> (outcome: Result<Consensus, ConsensusError>)
    ensures
        match outcome {
            Ok(parts) => {
                &&& config.regions@.len() > 0
                &&& parts.beacon@.wf()
                &&& parts.beacon@.regions == name_list(config.regions@)
                &&& parts.beacon@.cursor == 0
                &&& parts.beacon@.all_validators().len() == 0
                &&& parts.relay@.len() == 0
                &&& parts.proposer@ == crate::consensus::proposer::genesis_hash()
                &&& parts.announcement@ == to_all(
                    MessageView::ValidatorAnnounce {
                        public_key: config.public_key@,
                        region: config.regions@[0]@,
                    },
                )
            },
            Err(e) => config.regions@.len() == 0 && (e matches ConsensusError::Internal(reason)
                && reason@ == "No region configured"@),
        },
{
    if config.regions.len() == 0 {
        return Err(ConsensusError::Internal("No region configured".to_owned()));
    }
    let relay = ConsensusRelay::new();
    let primary = config.regions[0].clone();
    let beacon = BeaconConsensus::new(config.regions);
    let announcement = match relay.announce_validator(config.public_key, primary) {
        Ok(announcement) => announcement,
        Err(e) => {
            return Err(ConsensusError::Relay(e));
        },
    };
    let proposer = Proposer::new();
    Ok(Consensus { relay, beacon, proposer, announcement })
}

} // verus!
