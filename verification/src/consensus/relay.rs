//! The messages that nodes exchange, and what a node does with each.
//!
//! The relay decides; it does not send. Every operation that has something
//! for the network hands back an [`Outbound`], which the caller puts on the
//! wire.

use crate::bytes::{bytes_eq, copy_bytes};
use crate::consensus::beacon::{BeaconConsensus, BeaconError};
use crate::identity::keys::{ed25519_public_key, is_public_key};
use crate::storage::BlockStorage;
use crate::types::block::{block_digest, hash_eq, hash_from_slice, Block};
use crate::wire::{
    decode_message, encode_message, lemma_message_bytes_tell_messages_apart, message_bytes,
    writable,
};
use vstd::prelude::*;

verus! {

/// A message between nodes.
#[derive(Debug)]
pub enum ConsensusMessage {
    /// Asks for the block with this hash.
    BlockRequest(Vec<u8>),
    /// Answers a request with the block.
    BlockResponse(Block),
    /// Announces a block.
    NewBlock(Block),
    /// Tells peers that a round was given up.
    ViewChange(u64),
    /// Proposes a leader for a round.
    LeaderProposal(u64, Vec<u8>),
    /// Votes for a leader of a round.
    LeaderVote(u64, Vec<u8>),
    /// Announces the leader of a round.
    LeaderAnnouncement(u64, Vec<u8>),
    /// A validator joins a region.
    ValidatorAnnounce { public_key: Vec<u8>, region: String },
    /// A validator leaves a region.
    ValidatorLeave { public_key: Vec<u8>, region: String },
}

/// A message as contracts see it.
pub enum MessageView {
    BlockRequest(Seq<u8>),
    BlockResponse(Block),
    NewBlock(Block),
    ViewChange(u64),
    LeaderProposal(u64, Seq<u8>),
    LeaderVote(u64, Seq<u8>),
    LeaderAnnouncement(u64, Seq<u8>),
    ValidatorAnnounce { public_key: Seq<u8>, region: Seq<char> },
    ValidatorLeave { public_key: Seq<u8>, region: Seq<char> },
}

impl View for ConsensusMessage {
    type V = MessageView;

    open spec fn view(&self) -> MessageView {
        match *self {
            ConsensusMessage::BlockRequest(hash) => MessageView::BlockRequest(hash@),
            ConsensusMessage::BlockResponse(block) => MessageView::BlockResponse(block),
            ConsensusMessage::NewBlock(block) => MessageView::NewBlock(block),
            ConsensusMessage::ViewChange(view) => MessageView::ViewChange(view),
            ConsensusMessage::LeaderProposal(view, key) => MessageView::LeaderProposal(view, key@),
            ConsensusMessage::LeaderVote(view, key) => MessageView::LeaderVote(view, key@),
            ConsensusMessage::LeaderAnnouncement(view, key) => MessageView::LeaderAnnouncement(
                view,
                key@,
            ),
            ConsensusMessage::ValidatorAnnounce { public_key, region } => {
                MessageView::ValidatorAnnounce { public_key: public_key@, region: region@ }
            },
            ConsensusMessage::ValidatorLeave { public_key, region } => {
                MessageView::ValidatorLeave { public_key: public_key@, region: region@ }
            },
        }
    }
}

/// Who receives a message.
#[derive(Debug)]
pub enum Recipients {
    /// Every peer.
    All,
    /// The peer with this identity.
    One(Vec<u8>),
}

/// The receivers of a message as contracts see them.
pub enum RecipientsView {
    All,
    One(Seq<u8>),
}

impl View for Recipients {
    type V = RecipientsView;

    open spec fn view(&self) -> RecipientsView {
        match *self {
            Recipients::All => RecipientsView::All,
            Recipients::One(peer) => RecipientsView::One(peer@),
        }
    }
}

/// A message on its way out, with its receivers.
#[derive(Debug)]
pub struct Outbound {
    pub recipients: Recipients,
    pub message: ConsensusMessage,
}

/// An outbound message as contracts see it.
pub struct OutboundView {
    pub recipients: RecipientsView,
    pub message: MessageView,
}

impl View for Outbound {
    type V = OutboundView;

    open spec fn view(&self) -> OutboundView {
        OutboundView { recipients: self.recipients@, message: self.message@ }
    }
}

/// The bytes of a message on their way out, with their receivers.
#[derive(Debug)]
pub struct Frame {
    pub recipients: Recipients,
    pub payload: Vec<u8>,
}

/// The message `message` addressed to every peer.
pub open spec fn to_all(message: MessageView) -> OutboundView {
    OutboundView { recipients: RecipientsView::All, message }
}

/// The message `message` addressed to `peer`.
pub open spec fn to_one(peer: Seq<u8>, message: MessageView) -> OutboundView {
    OutboundView { recipients: RecipientsView::One(peer), message }
}

/// What an optional outbound message holds.
pub open spec fn sent(outbound: Option<Outbound>) -> Option<OutboundView> {
    match outbound {
        Some(o) => Some(o@),
        None => None,
    }
}

/// Why the relay failed.
#[derive(Debug)]
pub enum RelayError {
    /// The network refused the message.
    NetworkError,
    /// The block store refused a block.
    StorageError,
    /// The message could not be put into bytes.
    SerializationError,
    /// The message is not one a peer may send.
    InvalidMessage,
    /// The round of a view change is not acceptable.
    InvalidViewChange,
    /// The leader election failed.
    LeaderElectionError,
    /// A validator announced itself in a region that is not known.
    InvalidRegion(String),
    /// A validator announced itself while it is registered elsewhere.
    InvalidValidator,
}

/// What became of a message that was handed to the network.
#[derive(Debug, Clone, Copy, PartialEq, Eq, Structural)]
pub enum Delivery {
    /// The network took the message.
    Sent,
    /// The message could not be put into bytes.
    NotEncoded,
    /// The network refused the message.
    NotSent,
}

/// What the relay reports for a delivery: a message that was not encoded
/// is a serialization error, one that was not sent a network error.
pub fn delivery_outcome(delivery: Delivery) -> (outcome: Result<(), RelayError>)
    ensures
        match delivery {
            Delivery::Sent => outcome is Ok,
            Delivery::NotEncoded => outcome matches Err(RelayError::SerializationError),
            Delivery::NotSent => outcome matches Err(RelayError::NetworkError),
        },
{
    match delivery {
        Delivery::Sent => Ok(()),
        Delivery::NotEncoded => Err(RelayError::SerializationError),
        Delivery::NotSent => Err(RelayError::NetworkError),
    }
}

/// One entry of the relay's record of leader elections.
#[derive(Debug)]
pub enum ElectionRecord {
    /// `voter` voted for `candidate` as leader of round `view`.
    Vote { view: u64, candidate: Vec<u8>, voter: Vec<u8> },
    /// `leader` was announced as leader of round `view`.
    Announcement { view: u64, leader: Vec<u8> },
}

/// An entry of the record as contracts see it.
pub enum RecordView {
    Vote { view: u64, candidate: Seq<u8>, voter: Seq<u8> },
    Announcement { view: u64, leader: Seq<u8> },
}

impl View for ElectionRecord {
    type V = RecordView;

    open spec fn view(&self) -> RecordView {
        match *self {
            ElectionRecord::Vote { view, candidate, voter } => RecordView::Vote {
                view,
                candidate: candidate@,
                voter: voter@,
            },
            ElectionRecord::Announcement { view, leader } => RecordView::Announcement {
                view,
                leader: leader@,
            },
        }
    }
}

/// The entries that a vector of records holds.
pub open spec fn record_list(records: Seq<ElectionRecord>) -> Seq<RecordView> {
    Seq::new(records.len(), |i: int| records[i]@)
}

/// Whether `ledger` holds a vote of `voter` in round `view`.
pub open spec fn has_voted(ledger: Seq<RecordView>, view: u64, voter: Seq<u8>) -> bool {
    exists|i: int|
        0 <= i < ledger.len() && (#[trigger] ledger[i] matches RecordView::Vote {
            view: v,
            candidate: _,
            voter: w,
        } && v == view && w == voter)
}

/// The ledger after `voter` voted for `candidate` in round `view`: a voter
/// has one vote a round, and a second one is not recorded.
pub open spec fn with_vote(
    ledger: Seq<RecordView>,
    view: u64,
    candidate: Seq<u8>,
    voter: Seq<u8>,
) -> Seq<RecordView> {
    if has_voted(ledger, view, voter) {
        ledger
    } else {
        ledger.push(RecordView::Vote { view, candidate, voter })
    }
}

/// The number of votes for `candidate` in round `view` that `ledger` holds.
pub open spec fn votes_for(ledger: Seq<RecordView>, view: u64, candidate: Seq<u8>) -> nat
    decreases ledger.len(),
{
    if ledger.len() == 0 {
        0
    } else {
        let rest = votes_for(ledger.drop_last(), view, candidate);
        if ledger.last() matches RecordView::Vote { view: v, candidate: c, voter: _ } && v == view
            && c == candidate {
            rest + 1
        } else {
            rest
        }
    }
}

/// The leader announced last for round `view`, if `ledger` holds one.
pub open spec fn announced(ledger: Seq<RecordView>, view: u64) -> Option<Seq<u8>>
    decreases ledger.len(),
{
    if ledger.len() == 0 {
        None
    } else {
        match ledger.last() {
            RecordView::Announcement { view: v, leader } => if v == view {
                Some(leader)
            } else {
                announced(ledger.drop_last(), view)
            },
            RecordView::Vote { .. } => announced(ledger.drop_last(), view),
        }
    }
}

/// What a node answers to a request for the block with hash `wanted`.
pub open spec fn block_reply(store: crate::storage::StoreState, wanted: Seq<u8>, peer: Seq<u8>) -> Option<
    OutboundView,
> {
    match store.by_hash(wanted.take(32)) {
        Some(block) => Some(to_one(peer, MessageView::BlockResponse(block))),
        None => None,
    }
}

/// The proposal that a node makes for round `view`, if its election
/// selects a leader.
pub open spec fn leader_proposal(registry: crate::consensus::beacon::Registry, view: u64) -> Option<
    OutboundView,
> {
    match registry.elected(view) {
        Some(key) => Some(to_all(MessageView::LeaderProposal(view, key))),
        None => None,
    }
}

/// The vote that a node gives to the proposal of `proposed` for round
/// `view`: it votes only for the leader that its own election selects.
pub open spec fn leader_vote(
    registry: crate::consensus::beacon::Registry,
    view: u64,
    proposed: Seq<u8>,
) -> Option<OutboundView> {
    if registry.elected(view) == Some(proposed) {
        Some(to_all(MessageView::LeaderVote(view, proposed)))
    } else {
        None
    }
}

/// Whether `outcome` and the store `after` are what taking `block` from a
/// peer gives, where `digest` is the digest of the block's contents: a
/// block that does not carry the digest is refused as an invalid message,
/// a height below the prune point as a storage fault, and else the block
/// is put.
pub open spec fn block_intake(
    before: crate::storage::StoreState,
    after: crate::storage::StoreState,
    block: Block,
    digest: Seq<u8>,
    outcome: Result<Option<Outbound>, RelayError>,
) -> bool {
    if block.hash@ != digest {
        after == before && outcome matches Err(RelayError::InvalidMessage)
    } else if block.number < before.oldest_allowed {
        after == before && outcome matches Err(RelayError::StorageError)
    } else {
        after == before.put(block) && outcome matches Ok(None)
    }
}

/// Whether `outcome` and the registry `after` are what the announcement
/// of `public_key` in `region` gives, where `key_is_valid` tells whether
/// the bytes are a public key: bytes that are no key are refused as an
/// invalid message, an unknown region and a validator of another region
/// are refused, a validator of the region stays, and a new one is
/// registered.
pub open spec fn enrolment(
    before: crate::consensus::beacon::Registry,
    after: crate::consensus::beacon::Registry,
    region: Seq<char>,
    public_key: Seq<u8>,
    key_is_valid: bool,
    outcome: Result<Option<Outbound>, RelayError>,
) -> bool {
    if !key_is_valid {
        after == before && outcome matches Err(RelayError::InvalidMessage)
    } else if !before.known(region) {
        after == before && (outcome matches Err(RelayError::InvalidRegion(name)) && name@
            == region)
    } else if before.validators_in(region).contains(public_key) {
        after == before && outcome matches Ok(None)
    } else if before.holds(public_key) {
        after == before && outcome matches Err(RelayError::InvalidValidator)
    } else {
        after == before.register(region, public_key) && outcome matches Ok(None)
    }
}

/// A node as the relay sees it: its record of elections, its block
/// store and its registry of validators.
pub struct NodeView {
    pub ledger: Seq<RecordView>,
    pub store: crate::storage::StoreState,
    pub registry: crate::consensus::beacon::Registry,
}

/// Whether `outcome` and the node `after` are what handling `message`
/// from the peer `sender` gives.
///
/// A request for a block is answered to the sender where the store has
/// the block. A block is checked for its seal and stored. A view change
/// is answered with a leader proposal, a leader proposal with a vote
/// where this node's election selects the same leader. Votes and
/// announcements are recorded. A validator that announces itself with a
/// public key is registered, one that leaves is removed.
pub open spec fn handling(
    before: NodeView,
    after: NodeView,
    message: MessageView,
    sender: Seq<u8>,
    outcome: Result<Option<Outbound>, RelayError>,
) -> bool {
    match message {
        MessageView::BlockRequest(wanted) => {
            &&& after.ledger == before.ledger
            &&& after.store == before.store
            &&& after.registry == before.registry
            &&& if wanted.len() < 32 {
                outcome matches Err(RelayError::InvalidMessage)
            } else {
                outcome matches Ok(reply) && sent(reply) == block_reply(
                    before.store,
                    wanted,
                    sender,
                )
            }
        },
        MessageView::BlockResponse(block) => {
            &&& after.ledger == before.ledger
            &&& after.registry == before.registry
            &&& block_intake(
                before.store,
                after.store,
                block,
                block_digest(block.number, block.parent_hash@, block.timestamp),
                outcome,
            )
        },
        MessageView::NewBlock(block) => {
            &&& after.ledger == before.ledger
            &&& after.registry == before.registry
            &&& block_intake(
                before.store,
                after.store,
                block,
                block_digest(block.number, block.parent_hash@, block.timestamp),
                outcome,
            )
        },
        MessageView::ViewChange(view) => {
            &&& after.ledger == before.ledger
            &&& after.store == before.store
            &&& after.registry == before.registry
            &&& outcome matches Ok(proposal) && sent(proposal) == leader_proposal(
                before.registry,
                view,
            )
        },
        MessageView::LeaderProposal(view, proposed) => {
            &&& after.ledger == before.ledger
            &&& after.store == before.store
            &&& after.registry == before.registry
            &&& outcome matches Ok(vote) && sent(vote) == leader_vote(
                before.registry,
                view,
                proposed,
            )
        },
        MessageView::LeaderVote(view, candidate) => {
            &&& after.ledger == with_vote(before.ledger, view, candidate, sender)
            &&& after.store == before.store
            &&& after.registry == before.registry
            &&& outcome matches Ok(None)
        },
        MessageView::LeaderAnnouncement(view, leader) => {
            &&& after.ledger == before.ledger.push(RecordView::Announcement { view, leader })
            &&& after.store == before.store
            &&& after.registry == before.registry
            &&& outcome matches Ok(None)
        },
        MessageView::ValidatorAnnounce { public_key, region } => {
            &&& after.ledger == before.ledger
            &&& after.store == before.store
            &&& enrolment(
                before.registry,
                after.registry,
                region,
                public_key,
                ed25519_public_key(public_key),
                outcome,
            )
        },
        MessageView::ValidatorLeave { public_key, region } => {
            &&& after.ledger == before.ledger
            &&& after.store == before.store
            &&& after.registry == before.registry.remove(region, public_key)
            &&& outcome matches Ok(None)
        },
    }
}

/// Exchanges blocks and election gossip with peers.
pub struct ConsensusRelay {
    ledger: Vec<ElectionRecord>,
}

impl View for ConsensusRelay {
    type V = Seq<RecordView>;

    /// The record of votes and announcements, oldest first.
    closed spec fn view(&self) -> Seq<RecordView> {
        record_list(self.ledger@)
    }
}

impl ConsensusRelay {
    /// A relay that has recorded nothing.
    pub fn new() -> (relay: ConsensusRelay)
        ensures
            relay@ == Seq::<RecordView>::empty(),
    {
        let relay = ConsensusRelay { ledger: Vec::new() };
        assert(relay@ =~= Seq::<RecordView>::empty());
        relay
    }

    /// Puts `message` into bytes for `recipient`: the frame to hand to
    /// the network.
    pub fn send_to(&self, recipient: Recipients, message: ConsensusMessage) -> (outcome: Result<
        Frame,
        RelayError,
    >)
        ensures
            outcome matches Ok(frame) && frame.recipients == recipient && frame.payload@
                == message_bytes(message@),
    {
        let payload = encode_message(&message);
        Ok(Frame { recipients: recipient, payload })
    }

    /// Handles the bytes that the peer `sender` sent: bytes that no
    /// message is written as are refused as an invalid message, and a
    /// message is handled as [`ConsensusRelay::handle_message`] handles it.
    pub fn receive(
        &mut self,
        bytes: &[u8],
        sender: Vec<u8>,
        storage: &mut BlockStorage,
        beacon: &mut BeaconConsensus,
    ) -> (outcome: Result<Option<Outbound>, RelayError>)
        requires
            old(storage).wf(),
            old(beacon)@.wf(),
        ensures
            final(storage).wf(),
            final(beacon)@.wf(),
            (forall|v: MessageView| writable(v) ==> #[trigger] message_bytes(v) != bytes@) ==> {
                &&& outcome matches Err(RelayError::InvalidMessage)
                &&& final(self)@ == old(self)@
                &&& final(storage)@ == old(storage)@
                &&& final(beacon)@ == old(beacon)@
            },
            forall|v: MessageView|
                writable(v) && #[trigger] message_bytes(v) == bytes@ ==> handling(
                    NodeView { ledger: old(self)@, store: old(storage)@, registry: old(beacon)@ },
                    NodeView {
                        ledger: final(self)@,
                        store: final(storage)@,
                        registry: final(beacon)@,
                    },
                    v,
                    sender@,
                    outcome,
                ),
    {
        match decode_message(bytes) {
            Some(message) => {
                let ghost read = message@;
                proof {
                    assert forall|v: MessageView|
                        writable(v) && #[trigger] message_bytes(v) == bytes@ implies v == read by {
                        lemma_message_bytes_tell_messages_apart(v, read);
                    }
                }
                self.handle_message(message, sender, storage, beacon)
            },
            None => Err(RelayError::InvalidMessage),
        }
    }

    /// The announcement of the block with the hash in the first 32 bytes
    /// of `payload`; nothing where the payload is shorter or the store does
    /// not have the block.
    pub fn broadcast(&self, storage: &BlockStorage, payload: &[u8]) -> (announcement: Option<
        Outbound,
    >)
        requires
            storage.wf(),
        ensures
            sent(announcement) == if payload@.len() < 32 {
                None
            } else {
                match storage@.by_hash(payload@.take(32)) {
                    Some(block) => Some(to_all(MessageView::NewBlock(block))),
                    None => None,
                }
            },
    {
        let hash = match hash_from_slice(payload) {
            Some(hash) => hash,
            None => {
                return None;
            },
        };
        match storage.get_block_by_hash(&hash) {
            Ok(Some(block)) => Some(
                Outbound { recipients: Recipients::All, message: ConsensusMessage::NewBlock(block) },
            ),
            _ => None,
        }
    }

    /// The notice of a view change, addressed to every peer.
    pub fn broadcast_view_change(&self, view: u64) -> (outcome: Result<Outbound, RelayError>)
        ensures
            outcome matches Ok(outbound) && outbound@ == to_all(MessageView::ViewChange(view)),
    {
        Ok(Outbound { recipients: Recipients::All, message: ConsensusMessage::ViewChange(view) })
    }

    /// The proposal of the leader that the election selects for round
    /// `view`; nothing where it selects none.
    pub fn broadcast_leader_proposal(&self, beacon: &BeaconConsensus, view: u64) -> (outcome: Result<
        Option<Outbound>,
        RelayError,
    >)
        requires
            beacon@.wf(),
        ensures
            outcome matches Ok(proposal) && sent(proposal) == leader_proposal(beacon@, view),
    {
        match beacon.candidate(view) {
            Some(key) => Ok(
                Some(
                    Outbound {
                        recipients: Recipients::All,
                        message: ConsensusMessage::LeaderProposal(view, key),
                    },
                ),
            ),
            None => Ok(None),
        }
    }

    /// Whether `proposed_leader` is the leader that the election selects
    /// for round `view`.
    pub fn verify_leader_proposal(&self, beacon: &BeaconConsensus, view: u64, proposed_leader: &[u8]) -> (outcome:
        Result<bool, RelayError>)
        requires
            beacon@.wf(),
        ensures
            outcome matches Ok(valid) && valid == (beacon@.elected(view) == Some(
                proposed_leader@,
            )),
    {
        match beacon.candidate(view) {
            Some(key) => Ok(bytes_eq(key.as_slice(), proposed_leader)),
            None => Ok(false),
        }
    }

    /// The vote for `leader` in round `view`, addressed to every peer.
    pub fn send_leader_vote(&self, view: u64, leader: Vec<u8>) -> (outcome: Result<
        Outbound,
        RelayError,
    >)
        ensures
            outcome matches Ok(outbound) && outbound@ == to_all(
                MessageView::LeaderVote(view, leader@),
            ),
    {
        Ok(
            Outbound {
                recipients: Recipients::All,
                message: ConsensusMessage::LeaderVote(view, leader),
            },
        )
    }

    /// Whether the record holds a vote of `voter` in round `view`.
    fn voted(&self, view: u64, voter: &[u8]) -> (found: bool)
        ensures
            found == has_voted(self@, view, voter@),
    {
        let mut i: usize = 0;
        while i < self.ledger.len()
            invariant
                i <= self.ledger.len(),
                forall|j: int|
                    0 <= j < i ==> !(#[trigger] self@[j] matches RecordView::Vote {
                        view: v,
                        candidate: _,
                        voter: w,
                    } && v == view && w == voter@),
            decreases self.ledger.len() - i,
        {
            match &self.ledger[i] {
                ElectionRecord::Vote { view: v, candidate: _, voter: w } => {
                    if *v == view && bytes_eq(w.as_slice(), voter) {
                        assert(self@[i as int] matches RecordView::Vote {
                            view: v2,
                            candidate: _,
                            voter: w2,
                        } && v2 == view && w2 == voter@);
                        return true;
                    }
                },
                ElectionRecord::Announcement { view: _, leader: _ } => {},
            }
            i += 1;
        }
        false
    }

    /// Records the vote of `voter` for `vote` in round `view`, unless the
    /// voter has voted in that round before.
    pub fn process_leader_vote(&mut self, view: u64, vote: Vec<u8>, voter: Vec<u8>) -> (outcome:
        Result<(), RelayError>)
        ensures
            outcome is Ok,
            final(self)@ == with_vote(old(self)@, view, vote@, voter@),
    {
        if self.voted(view, voter.as_slice()) {
            return Ok(());
        }
        let ghost before = self@;
        let ghost entry = RecordView::Vote { view, candidate: vote@, voter: voter@ };
        self.ledger.push(ElectionRecord::Vote { view, candidate: vote, voter });
        assert(self@ =~= before.push(entry));
        Ok(())
    }

    /// Records that `leader` was announced as leader of round `view`.
    pub fn handle_leader_announcement(&mut self, view: u64, leader: Vec<u8>) -> (outcome: Result<
        (),
        RelayError,
    >)
        ensures
            outcome is Ok,
            final(self)@ == old(self)@.push(RecordView::Announcement { view, leader: leader@ }),
    {
        let ghost before = self@;
        let ghost entry = RecordView::Announcement { view, leader: leader@ };
        self.ledger.push(ElectionRecord::Announcement { view, leader });
        assert(self@ =~= before.push(entry));
        Ok(())
    }

    /// The number of recorded votes for `candidate` in round `view`.
    pub fn vote_count(&self, view: u64, candidate: &[u8]) -> (count: usize)
        ensures
            count == votes_for(self@, view, candidate@),
    {
        let mut count: usize = 0;
        let mut i: usize = 0;
        while i < self.ledger.len()
            invariant
                i <= self.ledger.len(),
                count <= i,
                count == votes_for(self@.take(i as int), view, candidate@),
            decreases self.ledger.len() - i,
        {
            proof {
                assert(self@.take(i + 1).drop_last() =~= self@.take(i as int));
                assert(self@.take(i + 1).last() == self@[i as int]);
            }
            match &self.ledger[i] {
                ElectionRecord::Vote { view: v, candidate: c, voter: _ } => {
                    if *v == view && bytes_eq(c.as_slice(), candidate) {
                        count += 1;
                    }
                },
                ElectionRecord::Announcement { view: _, leader: _ } => {},
            }
            i += 1;
        }
        assert(self@.take(self.ledger.len() as int) =~= self@);
        count
    }

    /// The leader announced last for round `view`, if one was.
    pub fn announced_leader(&self, view: u64) -> (leader: Option<Vec<u8>>)
        ensures
            match leader {
                Some(key) => announced(self@, view) == Some(key@),
                None => announced(self@, view) is None,
            },
    {
        let mut i: usize = self.ledger.len();
        assert(self@.take(i as int) =~= self@);
        while i > 0
            invariant
                i <= self.ledger.len(),
                announced(self@, view) == announced(self@.take(i as int), view),
            decreases i,
        {
            proof {
                assert(self@.take(i as int).drop_last() =~= self@.take(i - 1));
                assert(self@.take(i as int).last() == self@[i - 1]);
            }
            i -= 1;
            match &self.ledger[i] {
                ElectionRecord::Announcement { view: v, leader } => {
                    if *v == view {
                        return Some(copy_bytes(leader.as_slice()));
                    }
                },
                ElectionRecord::Vote { view: _, candidate: _, voter: _ } => {},
            }
        }
        assert(self@.take(0) =~= Seq::<RecordView>::empty());
        None
    }

    /// The notice that the validator `public_key` joins `region`,
    /// addressed to every peer.
    pub fn announce_validator(&self, public_key: Vec<u8>, region: String) -> (outcome: Result<
        Outbound,
        RelayError,
    >)
        ensures
            outcome matches Ok(outbound) && outbound@ == to_all(
                MessageView::ValidatorAnnounce { public_key: public_key@, region: region@ },
            ),
    {
        Ok(
            Outbound {
                recipients: Recipients::All,
                message: ConsensusMessage::ValidatorAnnounce { public_key, region },
            },
        )
    }

    /// The notice that the validator `public_key` leaves `region`,
    /// addressed to every peer.
    pub fn leave_region(&self, public_key: Vec<u8>, region: String) -> (outcome: Result<
        Outbound,
        RelayError,
    >)
        ensures
            outcome matches Ok(outbound) && outbound@ == to_all(
                MessageView::ValidatorLeave { public_key: public_key@, region: region@ },
            ),
    {
        Ok(
            Outbound {
                recipients: Recipients::All,
                message: ConsensusMessage::ValidatorLeave { public_key, region },
            },
        )
    }
    /// Takes a block that a peer sent, given the digest of the block's
    /// contents: a block that does not carry the digest is refused, one
    /// that does is put into the store.
    pub fn take_block(&self, storage: &mut BlockStorage, block: Block, digest: &[u8; 32]) -> (outcome:
        Result<Option<Outbound>, RelayError>)
        requires
            old(storage).wf(),
        ensures
            final(storage).wf(),
            block_intake(old(storage)@, final(storage)@, block, digest@, outcome),
    {
        if !hash_eq(&block.hash, digest) {
            return Err(RelayError::InvalidMessage);
        }
        match storage.put_block(block) {
            Ok(()) => Ok(None),
            Err(_) => Err(RelayError::StorageError),
        }
    }

    /// Registers the validator `public_key`, which announced itself in
    /// `region`, where `key_is_valid` tells whether the bytes are a public
    /// key. Bytes that are no key are refused as an invalid message.
    pub fn register_announced(
        &self,
        beacon: &mut BeaconConsensus,
        public_key: Vec<u8>,
        region: String,
        key_is_valid: bool,
    ) -> (outcome: Result<Option<Outbound>, RelayError>)
        requires
            old(beacon)@.wf(),
        ensures
            final(beacon)@.wf(),
            enrolment(old(beacon)@, final(beacon)@, region@, public_key@, key_is_valid, outcome),
    {
        if !key_is_valid {
            return Err(RelayError::InvalidMessage);
        }
        match beacon.register_validator(region, public_key) {
            Ok(()) => Ok(None),
            Err(BeaconError::InvalidRegion(name)) => Err(RelayError::InvalidRegion(name)),
            Err(BeaconError::InvalidValidator) => Err(RelayError::InvalidValidator),
            Err(_) => Err(RelayError::LeaderElectionError),
        }
    }

    /// Handles a message that the peer `sender` sent.
    ///
    /// A request for a block is answered to the sender where the store has
    /// the block. A block is checked for its seal and stored. A view change
    /// is answered with a leader proposal, a leader proposal with a vote
    /// where this node's election selects the same leader. Votes and
    /// announcements are recorded. A validator that announces itself with
    /// a public key is registered, one that leaves is removed.
    pub fn handle_message(
        &mut self,
        message: ConsensusMessage,
        sender: Vec<u8>,
        storage: &mut BlockStorage,
        beacon: &mut BeaconConsensus,
    ) -> (outcome: Result<Option<Outbound>, RelayError>)
        requires
            old(storage).wf(),
            old(beacon)@.wf(),
        ensures
            final(storage).wf(),
            final(beacon)@.wf(),
            handling(
                NodeView { ledger: old(self)@, store: old(storage)@, registry: old(beacon)@ },
                NodeView { ledger: final(self)@, store: final(storage)@, registry: final(beacon)@ },
                message@,
                sender@,
                outcome,
            ),
    {
        match message {
            ConsensusMessage::BlockRequest(wanted) => {
                let hash = match hash_from_slice(wanted.as_slice()) {
                    Some(hash) => hash,
                    None => {
                        return Err(RelayError::InvalidMessage);
                    },
                };
                match storage.get_block_by_hash(&hash) {
                    Ok(Some(block)) => Ok(
                        Some(
                            Outbound {
                                recipients: Recipients::One(sender),
                                message: ConsensusMessage::BlockResponse(block),
                            },
                        ),
                    ),
                    _ => Ok(None),
                }
            },
            ConsensusMessage::BlockResponse(block) => {
                let digest = block.calculate_hash();
                self.take_block(storage, block, &digest)
            },
            ConsensusMessage::NewBlock(block) => {
                let digest = block.calculate_hash();
                self.take_block(storage, block, &digest)
            },
            ConsensusMessage::ViewChange(view) => self.broadcast_leader_proposal(beacon, view),
            ConsensusMessage::LeaderProposal(view, proposed) => {
                match self.verify_leader_proposal(beacon, view, proposed.as_slice()) {
                    Ok(true) => match self.send_leader_vote(view, proposed) {
                        Ok(vote) => Ok(Some(vote)),
                        Err(e) => Err(e),
                    },
                    Ok(false) => Ok(None),
                    Err(e) => Err(e),
                }
            },
            ConsensusMessage::LeaderVote(view, candidate) => {
                match self.process_leader_vote(view, candidate, sender) {
                    Ok(()) => Ok(None),
                    Err(e) => Err(e),
                }
            },
            ConsensusMessage::LeaderAnnouncement(view, leader) => {
                match self.handle_leader_announcement(view, leader) {
                    Ok(()) => Ok(None),
                    Err(e) => Err(e),
                }
            },
            ConsensusMessage::ValidatorAnnounce { public_key, region } => {
                let key_is_valid = is_public_key(public_key.as_slice());
                self.register_announced(beacon, public_key, region, key_is_valid)
            },
            ConsensusMessage::ValidatorLeave { public_key, region } => {
                match beacon.remove_validator(region.as_str(), public_key.as_slice()) {
                    Ok(()) => Ok(None),
                    Err(_) => Err(RelayError::LeaderElectionError),
                }
            },
        }
    }
}

} // verus!