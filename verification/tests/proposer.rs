use romer_chain::consensus::proposer::{
    broadcast_block, request_block, same_block, ProposeStep, Proposer, ProposerError,
};
use romer_chain::consensus::relay::{ConsensusMessage, Outbound, Recipients};
use romer_chain::storage::BlockStorage;
use romer_chain::types::block::{Block, BlockError};

const GENESIS: [u8; 32] = [1; 32];

fn is_request_for(outbound: &Option<Outbound>, hash: &[u8; 32]) -> bool {
    match outbound {
        Some(Outbound { recipients: Recipients::All, message: ConsensusMessage::BlockRequest(h) }) => {
            h.as_slice() == hash
        },
        _ => false,
    }
}

fn is_announcement_of(outbound: &Outbound, block: &Block) -> bool {
    match outbound {
        Outbound { recipients: Recipients::All, message: ConsensusMessage::NewBlock(b) } => b == block,
        _ => false,
    }
}

fn propose_and_store(proposer: &mut Proposer, storage: &mut BlockStorage, parent: [u8; 32], now: u64) -> Block {
    match proposer.propose(storage, (0, parent), now) {
        ProposeStep::Announce(block, announcement) => {
            assert!(is_announcement_of(&announcement, &block));
            assert_eq!(proposer.complete_proposal(storage, block, true), Some(block.hash));
            block
        },
        other => panic!("unexpected step {:?}", other),
    }
}

#[test]
fn proposer_test_block_creation() {
    let proposer = Proposer::new();
    let storage = BlockStorage::new();

    let parent_hash = [1; 32];
    let block = proposer.create_block(&storage, parent_hash, 1_700_000_000).unwrap();

    // the first block of the chain stands at height 0
    assert_eq!(block.number, 0);
    assert_eq!(block.parent_hash, parent_hash);
    assert!(block.timestamp > 0);
}

#[test]
fn proposer_test_block_validation() {
    let proposer = Proposer::new();
    let storage = BlockStorage::new();

    let parent_hash = [1; 32];
    let valid_block = proposer.create_block(&storage, parent_hash, 1_700_000_000).unwrap();

    assert!(proposer.validate_block(&storage, &valid_block, parent_hash).is_ok());

    let wrong_parent = [2; 32];
    assert!(proposer.validate_block(&storage, &valid_block, wrong_parent).is_err());
}

#[test]
fn test_block_proposal_cycle() {
    let mut proposer = Proposer::new();
    let mut storage = BlockStorage::new();

    let genesis_hash = proposer.genesis();
    assert_eq!(genesis_hash, [1; 32]);

    let (view, parent_hash) = (0u64, genesis_hash);
    let proposed = propose_and_store(&mut proposer, &mut storage, parent_hash, 1_700_000_000);
    let proposed_hash = proposed.hash;

    let verdict = proposer.verify(&storage, (view, parent_hash), proposed_hash);
    assert!(verdict.valid);
}

#[test]
fn proposal_on_genesis_is_verified_and_a_missing_block_is_asked_for() {
    let mut proposer = Proposer::new();
    let mut storage = BlockStorage::new();
    let block = propose_and_store(&mut proposer, &mut storage, GENESIS, 50);
    assert_eq!(block.number, 0);
    assert_eq!(block.timestamp, 50);
    assert_eq!(block.parent_hash, GENESIS);
    assert_eq!(storage.get_block_by_hash(&block.hash), Ok(Some(block)));
    assert_eq!(proposer.latest_hash(), block.hash);

    let verdict = proposer.verify(&storage, (0, GENESIS), block.hash);
    assert!(verdict.valid);
    assert!(verdict.request.is_none());

    let mut tampered = block.hash;
    tampered[0] ^= 0xff;
    let verdict = proposer.verify(&storage, (0, GENESIS), tampered);
    assert!(!verdict.valid);
    assert!(is_request_for(&verdict.request, &tampered));
}

#[test]
fn a_chain_of_proposals() {
    let mut proposer = Proposer::new();
    let mut storage = BlockStorage::new();
    let first = propose_and_store(&mut proposer, &mut storage, GENESIS, 100);
    let second = propose_and_store(&mut proposer, &mut storage, first.hash, 200);
    assert_eq!(second.number, 1);
    assert_eq!(second.timestamp, 200);
    assert_eq!(second.parent_hash, first.hash);
    // the clock stands still: the block is still younger than its parent
    let third = propose_and_store(&mut proposer, &mut storage, second.hash, 200);
    assert_eq!(third.number, 2);
    assert_eq!(third.timestamp, 201);
    // the clock runs backwards
    let fourth = propose_and_store(&mut proposer, &mut storage, third.hash, 7);
    assert_eq!(fourth.timestamp, 202);
    for block in [first, second, third, fourth] {
        let verdict = proposer.verify(&storage, (0, block.parent_hash), block.hash);
        assert!(verdict.valid);
        assert!(verdict.request.is_none());
        assert_eq!(block.hash, block.calculate_hash());
    }
    assert_eq!(proposer.latest_hash(), fourth.hash);
}

#[test]
fn missing_parent_is_asked_for_and_the_proposal_given_up() {
    let proposer = Proposer::new();
    let storage = BlockStorage::new();
    let unknown = [9u8; 32];
    assert!(matches!(
        proposer.create_block(&storage, unknown, 5),
        Err(ProposerError::MissingParent)
    ));
    match proposer.propose(&storage, (3, unknown), 5) {
        ProposeStep::Fetch(request) => assert!(is_request_for(&Some(request), &unknown)),
        other => panic!("unexpected step {:?}", other),
    }
    assert_eq!(proposer.latest_hash(), GENESIS);
}

#[test]
fn a_parent_at_a_limit_has_no_child() {
    let proposer = Proposer::new();
    let mut storage = BlockStorage::new();
    let top = Block::new(u64::MAX, [0u8; 32], 10);
    let last = Block::new(5, [0u8; 32], u64::MAX);
    storage.put_block(top).unwrap();
    storage.put_block(last).unwrap();
    assert!(matches!(
        proposer.propose(&storage, (0, top.hash), 20),
        ProposeStep::Abandon(ProposerError::Storage(BlockError::InvalidBlockNumber))
    ));
    assert!(matches!(
        proposer.propose(&storage, (0, last.hash), 20),
        ProposeStep::Abandon(ProposerError::Storage(BlockError::InvalidTimestamp))
    ));
}

#[test]
fn a_proposal_that_was_not_announced_leaves_no_trace() {
    let mut proposer = Proposer::new();
    let mut storage = BlockStorage::new();
    let block = proposer.create_block(&storage, GENESIS, 10).unwrap();
    assert_eq!(proposer.complete_proposal(&mut storage, block, false), None);
    assert_eq!(storage.has_block(0), Ok(false));
    assert_eq!(proposer.latest_hash(), GENESIS);
    assert_eq!(proposer.complete_proposal(&mut storage, block, true), Some(block.hash));
    assert_eq!(storage.has_block(0), Ok(true));
    // the same block again is fine
    assert_eq!(proposer.complete_proposal(&mut storage, block, true), Some(block.hash));
}

#[test]
fn a_proposal_for_a_taken_or_pruned_height_is_given_up() {
    let mut proposer = Proposer::new();
    let mut storage = BlockStorage::new();
    let first = propose_and_store(&mut proposer, &mut storage, GENESIS, 10);
    let rival = proposer.create_block(&storage, GENESIS, 11).unwrap();
    assert_eq!(rival.number, 0);
    assert_ne!(rival.hash, first.hash);
    assert_eq!(proposer.complete_proposal(&mut storage, rival, true), None);
    assert_eq!(storage.get_block_by_number(0), Ok(Some(first)));
    assert_eq!(proposer.latest_hash(), first.hash);
    storage.prune(65536).unwrap();
    let late = Block::new(3, first.hash, 12);
    assert_eq!(proposer.complete_proposal(&mut storage, late, true), None);
    assert_eq!(proposer.latest_hash(), first.hash);
}

#[test]
fn validation_order_of_the_proposer() {
    let proposer = Proposer::new();
    let mut storage = BlockStorage::new();
    let parent = Block::new(4, [0u8; 32], 100);
    storage.put_block(parent).unwrap();

    let good = Block::new(5, parent.hash, 101);
    assert!(proposer.validate_block(&storage, &good, parent.hash).is_ok());
    // the parent named by the block is checked first
    let mut unsealed = Block::new(9, [7u8; 32], 1);
    unsealed.hash = [0u8; 32];
    assert!(matches!(
        proposer.validate_block(&storage, &unsealed, parent.hash),
        Err(ProposerError::InvalidParentHash)
    ));
    // then the parent must be known
    let orphan = Block::new(9, [7u8; 32], 1);
    assert!(matches!(
        proposer.validate_block(&storage, &orphan, [7u8; 32]),
        Err(ProposerError::MissingParent)
    ));
    // then the seal, the height, the timestamp
    let mut forged = Block::new(9, parent.hash, 1);
    forged.hash[5] ^= 1;
    assert!(matches!(
        proposer.validate_block(&storage, &forged, parent.hash),
        Err(ProposerError::Storage(BlockError::InvalidHash))
    ));
    assert!(matches!(
        proposer.validate_block(&storage, &Block::new(9, parent.hash, 1), parent.hash),
        Err(ProposerError::Storage(BlockError::InvalidBlockNumber))
    ));
    assert!(matches!(
        proposer.validate_block(&storage, &Block::new(5, parent.hash, 100), parent.hash),
        Err(ProposerError::Storage(BlockError::InvalidTimestamp))
    ));
    // on the genesis hash only height 0 is accepted
    assert!(proposer.validate_block(&storage, &Block::new(0, GENESIS, 1), GENESIS).is_ok());
    assert!(matches!(
        proposer.validate_block(&storage, &Block::new(1, GENESIS, 1), GENESIS),
        Err(ProposerError::Storage(BlockError::MissingParent))
    ));
}

#[test]
fn verify_asks_for_a_missing_parent() {
    let proposer = Proposer::new();
    let mut storage = BlockStorage::new();
    let orphan = Block::new(9, [7u8; 32], 1);
    storage.put_block(orphan).unwrap();
    let verdict = proposer.verify(&storage, (2, [7u8; 32]), orphan.hash);
    assert!(!verdict.valid);
    assert!(is_request_for(&verdict.request, &[7u8; 32]));
    // a block on another parent than expected is invalid, and nothing is asked for
    let verdict = proposer.verify(&storage, (2, [8u8; 32]), orphan.hash);
    assert!(!verdict.valid);
    assert!(verdict.request.is_none());
}

#[test]
fn committed_takes_note_and_announces() {
    let mut proposer = Proposer::new();
    let mut storage = BlockStorage::new();
    let block = Block::new(3, [0u8; 32], 30);
    storage.put_block(block).unwrap();
    let mut payload = block.hash.to_vec();
    payload.extend_from_slice(&[0xAA; 8]);
    let announcement = proposer.committed(&storage, &payload).unwrap();
    assert!(is_announcement_of(&announcement, &block));
    assert_eq!(proposer.latest_hash(), block.hash);
    // an unknown block is noted, not announced
    assert!(proposer.committed(&storage, &[5u8; 32]).is_none());
    assert_eq!(proposer.latest_hash(), [5u8; 32]);
    // a short payload changes nothing
    assert!(proposer.committed(&storage, &[6u8; 31]).is_none());
    assert_eq!(proposer.latest_hash(), [5u8; 32]);
}

#[test]
fn outbound_helpers() {
    let block = Block::new(1, [2u8; 32], 3);
    assert!(is_announcement_of(&broadcast_block(block), &block));
    assert!(is_request_for(&Some(request_block(&[4u8; 32])), &[4u8; 32]));
    assert!(same_block(&block, &Block::new(1, [2u8; 32], 3)));
    assert!(!same_block(&block, &Block::new(1, [2u8; 32], 4)));
    let mut other = block;
    other.hash[31] ^= 1;
    assert!(!same_block(&block, &other));
}
