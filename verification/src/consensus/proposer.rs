//! Building, checking and committing blocks for the voting engine.
//!
//! The proposer decides; it neither sends nor reads the clock. Where a
//! step has something for the network it hands back an [`Outbound`], and
//! the time of a new block is an argument.

use crate::consensus::relay::{
    sent, to_all, ConsensusMessage, MessageView, Outbound, Recipients, RelayError,
};
use crate::storage::{
    lemma_by_hash_finds, lemma_put_keeps_other_hashes, BlockStorage, StoreState,
};
use crate::types::block::{hash_eq, hash_from_slice, validation, Block, BlockError};
use vstd::prelude::*;

verus! {

/// Why a proposal or a verification was given up.
#[derive(Debug)]
pub enum ProposerError {
    /// The block store or the block rule refused.
    Storage(BlockError),
    /// The network failed.
    Network(String),
    /// The parent block is not in the store.
    MissingParent,
    /// The block does not name the expected parent.
    InvalidParentHash,
    /// The block is not acceptable.
    InvalidBlock,
    /// The relay failed.
    Relay(RelayError),
}

/// The hash that stands for "no parent": 32 bytes of value 1.
pub open spec fn genesis_hash() -> Seq<u8> {
    Seq::new(32, |i: int| 1u8)
}

/// The later of the clock and the second after the parent's timestamp.
pub open spec fn next_timestamp(now: u64, parent_timestamp: u64) -> int {
    if now > parent_timestamp {
        now as int
    } else {
        parent_timestamp + 1
    }
}

/// Whether `block` is the block to propose on `parent_hash` at time `now`:
/// height 0 on the genesis hash, else one above the parent and younger
/// than it.
pub open spec fn is_proposal(
    store: StoreState,
    parent_hash: [u8; 32],
    now: u64,
    block: Block,
) -> bool {
    &&& block.parent_hash == parent_hash
    &&& block.is_sealed()
    &&& if parent_hash@ == genesis_hash() {
        block.number == 0 && block.timestamp == now
    } else {
        store.by_hash(parent_hash@) matches Some(parent) && block.number == parent.number + 1
            && block.timestamp == next_timestamp(now, parent.timestamp)
    }
}

/// Why no block can be proposed on `parent_hash`, if none can: the parent
/// is missing, or the height or the timestamp after the parent's does not
/// exist.
pub open spec fn proposal_refusal(store: StoreState, parent_hash: Seq<u8>, now: u64) -> Option<
    ProposerError,
> {
    if parent_hash == genesis_hash() {
        None
    } else {
        match store.by_hash(parent_hash) {
            None => Some(ProposerError::MissingParent),
            Some(parent) => {
                if parent.number == u64::MAX {
                    Some(ProposerError::Storage(BlockError::InvalidBlockNumber))
                } else if parent.timestamp == u64::MAX {
                    Some(ProposerError::Storage(BlockError::InvalidTimestamp))
                } else {
                    None
                }
            },
        }
    }
}

/// The block rule's answer as the proposer reports it.
pub open spec fn reported(outcome: Result<(), BlockError>) -> Result<(), ProposerError> {
    match outcome {
        Ok(()) => Ok(()),
        Err(e) => Err(ProposerError::Storage(e)),
    }
}

/// What [`Proposer::validate_block`] answers. The checks run in this
/// order: the block names the expected parent; the parent, unless it is
/// the genesis hash, is in the store; the block is sealed; it stands one
/// above its parent (at 0 on the genesis hash); it is younger than its
/// parent.
pub open spec fn admission(store: StoreState, block: Block, expected_parent: Seq<u8>) -> Result<
    (),
    ProposerError,
> {
    if block.parent_hash@ != expected_parent {
        Err(ProposerError::InvalidParentHash)
    } else if expected_parent == genesis_hash() {
        reported(validation(block, None))
    } else {
        match store.by_hash(expected_parent) {
            None => Err(ProposerError::MissingParent),
            Some(parent) => reported(validation(block, Some(parent))),
        }
    }
}

/// A block that was proposed on a parent is admitted on that parent once
/// it is put into the store. This holds of blocks whose hash is not the
/// hash of their own parent.
pub proof fn lemma_proposal_is_admitted(
    store: StoreState,
    parent_hash: [u8; 32],
    now: u64,
    block: Block,
)
    requires
        store.wf(),
        proposal_refusal(store, parent_hash@, now) is None,
        is_proposal(store, parent_hash, now, block),
        block.hash@ != parent_hash@,
    ensures
        admission(store.put(block), block, parent_hash@) is Ok,
{
    if parent_hash@ != genesis_hash() {
        lemma_put_keeps_other_hashes(store, block, parent_hash@);
        lemma_by_hash_finds(store, parent_hash@);
    }
}

/// A proposal on its way: what [`Proposer::propose`] decided.
#[derive(Debug)]
pub enum ProposeStep {
    /// The block was built. The caller sends the message, then calls
    /// [`Proposer::complete_proposal`] with the block and the outcome.
    Announce(Block, Outbound),
    /// The parent is unknown. The caller sends the request; the attempt is
    /// over.
    Fetch(Outbound),
    /// No block can follow the parent; the attempt is over.
    Abandon(ProposerError),
}

/// The answer to a verification, and the request to send where a block is
/// missing.
#[derive(Debug)]
pub struct Verdict {
    pub valid: bool,
    pub request: Option<Outbound>,
}

/// Answers the voting engine's calls for blocks.
pub struct Proposer {
    latest_hash: [u8; 32],
}

impl View for Proposer {
    type V = Seq<u8>;

    /// The hash of the latest block that this node proposed or saw
    /// committed.
    closed spec fn view(&self) -> Seq<u8> {
        self.latest_hash@
    }
}

/// The request for the block with hash `hash`, addressed to every peer.
pub fn request_block(hash: &[u8; 32]) -> (request: Outbound)
    ensures
        request@ == to_all(MessageView::BlockRequest(hash@)),
{
    let mut wanted: Vec<u8> = Vec::new();
    let mut i: usize = 0;
    while i < 32
        invariant
            i <= 32,
            wanted@ == hash@.take(i as int),
        decreases 32 - i,
    {
        wanted.push(hash[i]);
        assert(hash@.take(i as int).push(hash@[i as int]) =~= hash@.take(i + 1));
        i += 1;
    }
    assert(hash@.take(32) =~= hash@);
    Outbound { recipients: Recipients::All, message: ConsensusMessage::BlockRequest(wanted) }
}

/// The announcement of `block`, addressed to every peer.
pub fn broadcast_block(block: Block) -> (announcement: Outbound)
    ensures
        announcement@ == to_all(MessageView::NewBlock(block)),
{
    Outbound { recipients: Recipients::All, message: ConsensusMessage::NewBlock(block) }
}

impl Proposer {
    /// A proposer that has seen no block yet.
    pub fn new() -> (proposer: Proposer)
        ensures
            proposer@ == genesis_hash(),
    {
        let proposer = Proposer { latest_hash: [1u8; 32] };
        assert(proposer@ =~= genesis_hash());
        proposer
    }

    /// The hash that stands for "no parent".
    pub fn genesis(&self) -> (hash: [u8; 32])
        ensures
            hash@ == genesis_hash(),
    {
        let hash = [1u8; 32];
        assert(hash@ =~= genesis_hash());
        hash
    }

    /// The hash of the latest block that this node proposed or saw
    /// committed.
    pub fn latest_hash(&self) -> (hash: [u8; 32])
        ensures
            hash@ == self@,
    {
        self.latest_hash
    }

    /// Builds the block that follows `parent_hash` at time `now`.
    ///
    /// On the genesis hash the block has height 0. Otherwise the parent
    /// must be in the store, and the block stands one above it, with the
    /// later of `now` and the second after the parent's timestamp.
    pub fn create_block(&self, storage: &BlockStorage, parent_hash: [u8; 32], now: u64) -> (outcome:
        Result<Block, ProposerError>)
        requires
            storage.wf(),
        ensures
            match outcome {
                Ok(block) => proposal_refusal(storage@, parent_hash@, now) is None && is_proposal(
                    storage@,
                    parent_hash,
                    now,
                    block,
                ),
                Err(e) => proposal_refusal(storage@, parent_hash@, now) == Some(e),
            },
    {
        let genesis = self.genesis();
        if hash_eq(&parent_hash, &genesis) {
            return Ok(Block::new(0, parent_hash, now));
        }
        let parent = match storage.get_block_by_hash(&parent_hash) {
            Ok(Some(parent)) => parent,
            Ok(None) => {
                return Err(ProposerError::MissingParent);
            },
            Err(e) => {
                return Err(ProposerError::Storage(e));
            },
        };
        if parent.number == u64::MAX {
            return Err(ProposerError::Storage(BlockError::InvalidBlockNumber));
        }
        if parent.timestamp == u64::MAX {
            return Err(ProposerError::Storage(BlockError::InvalidTimestamp));
        }
        let timestamp = if now > parent.timestamp {
            now
        } else {
            parent.timestamp + 1
        };
        Ok(Block::new(parent.number + 1, parent_hash, timestamp))
    }

    /// Checks `block` against the parent the round expects.
    pub fn validate_block(&self, storage: &BlockStorage, block: &Block, expected_parent: [u8; 32]) -> (outcome:
        Result<(), ProposerError>)
        requires
            storage.wf(),
        ensures
            outcome == admission(storage@, *block, expected_parent@),
    {
        if !hash_eq(&block.parent_hash, &expected_parent) {
            return Err(ProposerError::InvalidParentHash);
        }
        let genesis = self.genesis();
        let checked = if hash_eq(&expected_parent, &genesis) {
            block.validate(None)
        } else {
            match storage.get_block_by_hash(&expected_parent) {
                Ok(Some(parent)) => block.validate(Some(&parent)),
                Ok(None) => {
                    return Err(ProposerError::MissingParent);
                },
                Err(e) => {
                    return Err(ProposerError::Storage(e));
                },
            }
        };
        match checked {
            Ok(()) => Ok(()),
            Err(e) => Err(ProposerError::Storage(e)),
        }
    }

    /// Decides a proposal for the round `context.0` on the parent
    /// `context.1` at time `now`. Nothing is stored yet.
    pub fn propose(&self, storage: &BlockStorage, context: (u64, [u8; 32]), now: u64) -> (step:
        ProposeStep)
        requires
            storage.wf(),
        ensures
            match step {
                ProposeStep::Announce(block, announcement) => {
                    &&& proposal_refusal(storage@, context.1@, now) is None
                    &&& is_proposal(storage@, context.1, now, block)
                    &&& announcement@ == to_all(MessageView::NewBlock(block))
                },
                ProposeStep::Fetch(request) => {
                    &&& proposal_refusal(storage@, context.1@, now) == Some(
                        ProposerError::MissingParent,
                    )
                    &&& request@ == to_all(MessageView::BlockRequest(context.1@))
                },
                ProposeStep::Abandon(e) => {
                    &&& proposal_refusal(storage@, context.1@, now) == Some(e)
                    &&& e != ProposerError::MissingParent
                },
            },
    {
        let parent_hash = context.1;
        match self.create_block(storage, parent_hash, now) {
            Ok(block) => ProposeStep::Announce(block, broadcast_block(block)),
            Err(ProposerError::MissingParent) => ProposeStep::Fetch(request_block(&parent_hash)),
            Err(e) => ProposeStep::Abandon(e),
        }
    }

    /// Ends a proposal once its announcement was handed to the network.
    ///
    /// Where the announcement went out and the store takes the block, the
    /// block is stored, it becomes the latest block, and its hash is the
    /// answer to the engine. In every other case nothing changes and
    /// there is no answer: the announcement failed, the height was pruned,
    /// or another block stands at the height.
    pub fn complete_proposal(
        &mut self,
        storage: &mut BlockStorage,
        block: Block,
        announced: bool,
    ) -> (hash: Option<[u8; 32]>)
        requires
            old(storage).wf(),
        ensures
            final(storage).wf(),
            match hash {
                Some(h) => {
                    &&& announced
                    &&& old(storage)@.put(block).by_number(block.number) == Some(block)
                    &&& h == block.hash
                    &&& final(storage)@ == old(storage)@.put(block)
                    &&& final(self)@ == block.hash@
                },
                None => {
                    &&& !announced || old(storage)@.put(block).by_number(block.number) != Some(
                        block,
                    )
                    &&& final(storage)@ == old(storage)@
                    &&& final(self)@ == old(self)@
                },
            },
    {
        if !announced {
            return None;
        }
        proof {
            storage.lemma_state_wf();
        }
        match storage.get_block_by_number(block.number) {
            Ok(Some(held)) => {
                if !same_block(&held, &block) {
                    return None;
                }
            },
            Ok(None) => {},
            Err(_) => {
                return None;
            },
        }
        match storage.put_block(block) {
            Ok(()) => {
                self.latest_hash = block.hash;
                Some(block.hash)
            },
            Err(_) => None,
        }
    }

    /// Checks the block `payload` for the round `context.0` on the parent
    /// `context.1`.
    ///
    /// A block that is not in the store is not valid yet: the verdict asks
    /// for it. So does the verdict for a block whose parent is not in the
    /// store, for the parent.
    pub fn verify(&self, storage: &BlockStorage, context: (u64, [u8; 32]), payload: [u8; 32]) -> (verdict:
        Verdict)
        requires
            storage.wf(),
        ensures
            match storage@.by_hash(payload@) {
                None => !verdict.valid && sent(verdict.request) == Some(
                    to_all(MessageView::BlockRequest(payload@)),
                ),
                Some(block) => {
                    &&& verdict.valid == (admission(storage@, block, context.1@) is Ok)
                    &&& sent(verdict.request) == if admission(storage@, block, context.1@) == Err::<
                        (),
                        ProposerError,
                    >(ProposerError::MissingParent) {
                        Some(to_all(MessageView::BlockRequest(context.1@)))
                    } else {
                        None
                    }
                },
            },
    {
        let block = match storage.get_block_by_hash(&payload) {
            Ok(Some(block)) => block,
            _ => {
                return Verdict { valid: false, request: Some(request_block(&payload)) };
            },
        };
        match self.validate_block(storage, &block, context.1) {
            Ok(()) => Verdict { valid: true, request: None },
            Err(ProposerError::MissingParent) => Verdict {
                valid: false,
                request: Some(request_block(&context.1)),
            },
            Err(_) => Verdict { valid: false, request: None },
        }
    }

    /// Takes note that the block with the hash in the first 32 bytes of
    /// `payload` is final, and announces the block where the store has it.
    /// A shorter payload changes nothing.
    pub fn committed(&mut self, storage: &BlockStorage, payload: &[u8]) -> (announcement: Option<
        Outbound,
    >)
        requires
            storage.wf(),
        ensures
            payload@.len() < 32 ==> announcement is None && final(self)@ == old(self)@,
            payload@.len() >= 32 ==> final(self)@ == payload@.take(32) && sent(announcement)
                == match storage@.by_hash(payload@.take(32)) {
                Some(block) => Some(to_all(MessageView::NewBlock(block))),
                None => None,
            },
    {
        let hash = match hash_from_slice(payload) {
            Some(hash) => hash,
            None => {
                return None;
            },
        };
        self.latest_hash = hash;
        match storage.get_block_by_hash(&hash) {
            Ok(Some(block)) => Some(broadcast_block(block)),
            _ => None,
        }
    }
}

/// Compares two blocks field by field.
pub fn same_block(a: &Block, b: &Block) -> (same: bool)
    ensures
        same <==> *a == *b,
{
    let same = a.number == b.number && a.timestamp == b.timestamp && hash_eq(&a.hash, &b.hash)
        && hash_eq(&a.parent_hash, &b.parent_hash);
    proof {
        if same {
            assert(a.hash =~= b.hash);
            assert(a.parent_hash =~= b.parent_hash);
        }
    }
    same
}

} // verus!
