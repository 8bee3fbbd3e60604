use romer_chain::types::block::{hash_eq, hash_from_slice, Block, BlockError};
use std::time::{SystemTime, UNIX_EPOCH};

fn get_timestamp() -> u64 {
    SystemTime::now().duration_since(UNIX_EPOCH).unwrap().as_secs()
}

#[test]
fn block_test_block_creation() {
    let parent_hash = [1u8; 32];
    let timestamp = get_timestamp();
    let block = Block::new(1, parent_hash, timestamp);

    assert_eq!(block.number, 1);
    assert_eq!(block.parent_hash, parent_hash);
    assert_eq!(block.timestamp, timestamp);
    assert_eq!(block.hash, block.calculate_hash());
}

#[test]
fn block_test_block_validation() {
    let timestamp = get_timestamp();

    let parent = Block::new(0, [0u8; 32], timestamp);

    let valid_child = Block::new(1, parent.hash, timestamp + 1);
    assert!(valid_child.validate(Some(&parent)).is_ok());

    let invalid_number = Block::new(2, parent.hash, timestamp + 1);
    assert!(matches!(
        invalid_number.validate(Some(&parent)),
        Err(BlockError::InvalidBlockNumber)
    ));

    let invalid_parent = Block::new(1, [2u8; 32], timestamp + 1);
    assert!(matches!(
        invalid_parent.validate(Some(&parent)),
        Err(BlockError::InvalidParentHash)
    ));

    let invalid_timestamp = Block::new(1, parent.hash, timestamp - 1);
    assert!(matches!(
        invalid_timestamp.validate(Some(&parent)),
        Err(BlockError::InvalidTimestamp)
    ));
}

#[test]
fn storage_test_block_validation() {
    let timestamp = get_timestamp();

    let parent = Block::new(0, [0; 32], timestamp);

    let valid_child = Block::new(1, parent.hash, timestamp + 1);
    assert!(valid_child.validate(Some(&parent)).is_ok());

    let invalid_number = Block::new(2, parent.hash, timestamp + 1);
    assert!(matches!(
        invalid_number.validate(Some(&parent)),
        Err(BlockError::InvalidBlockNumber)
    ));

    let invalid_parent = Block::new(1, [2; 32], timestamp + 1);
    assert!(matches!(
        invalid_parent.validate(Some(&parent)),
        Err(BlockError::InvalidParentHash)
    ));
}

#[test]
fn hash_is_sha256_of_height_parent_and_timestamp() {
    let block = Block::new(0, [0u8; 32], 0);
    let expected: [u8; 32] = [
        23, 176, 118, 31, 135, 176, 129, 213, 207, 16, 117, 124, 204, 137, 241, 43, 227, 85, 199,
        14, 46, 41, 223, 40, 139, 101, 179, 7, 16, 220, 188, 209,
    ];
    assert_eq!(block.hash, expected);

    let other = Block::new(1, [1u8; 32], 1_700_000_000);
    let expected_other: [u8; 32] = [
        0xe8, 0x3f, 0x5c, 0x15, 0x43, 0x19, 0xc2, 0xec, 0x9d, 0x2d, 0x86, 0x1d, 0xb4, 0xf9, 0x2a,
        0xf0, 0xd4, 0x2a, 0x6d, 0x33, 0x33, 0x66, 0xe0, 0xe5, 0xc5, 0x64, 0x51, 0x30, 0x9d, 0x1e,
        0x49, 0xa3,
    ];
    assert_eq!(other.hash, expected_other);
}

#[test]
fn hash_depends_on_every_field() {
    let base = Block::new(5, [9u8; 32], 100);
    assert_ne!(base.hash, Block::new(6, [9u8; 32], 100).hash);
    assert_ne!(base.hash, Block::new(5, [8u8; 32], 100).hash);
    assert_ne!(base.hash, Block::new(5, [9u8; 32], 101).hash);
    assert_eq!(base.hash, Block::new(5, [9u8; 32], 100).hash);
}

#[test]
fn parent_hash_is_checked_before_the_seal() {
    let parent = Block::new(0, [0u8; 32], 10);
    // neither names the parent nor is sealed: the parent is reported
    let mut child = Block::new(7, [3u8; 32], 5);
    child.hash[0] ^= 1;
    assert_eq!(child.validate(Some(&parent)), Err(BlockError::InvalidParentHash));
    // names the parent, but is not sealed
    let mut forged = Block::new(7, parent.hash, 5);
    forged.hash[0] ^= 1;
    assert_eq!(forged.validate(Some(&parent)), Err(BlockError::InvalidHash));
    // without a parent the seal comes first
    assert_eq!(child.validate(None), Err(BlockError::InvalidHash));
    let mut first = Block::new(0, [3u8; 32], 5);
    first.hash[0] ^= 1;
    assert_eq!(first.validate(None), Err(BlockError::InvalidHash));
}

#[test]
fn checks_against_a_given_digest() {
    let parent = Block { number: 4, parent_hash: [0u8; 32], hash: [1u8; 32], timestamp: 10 };
    let child = Block { number: 5, parent_hash: [1u8; 32], hash: [2u8; 32], timestamp: 11 };
    assert_eq!(child.validate_with(&[2u8; 32], Some(&parent)), Ok(()));
    assert_eq!(child.validate_with(&[9u8; 32], Some(&parent)), Err(BlockError::InvalidHash));
    let stranger = Block { number: 9, parent_hash: [7u8; 32], hash: [2u8; 32], timestamp: 1 };
    assert_eq!(
        stranger.validate_with(&[9u8; 32], Some(&parent)),
        Err(BlockError::InvalidParentHash)
    );
    assert_eq!(
        stranger.validate_with(&[2u8; 32], Some(&parent)),
        Err(BlockError::InvalidParentHash)
    );
    assert_eq!(stranger.validate_with(&[9u8; 32], None), Err(BlockError::InvalidHash));
    assert_eq!(stranger.validate_with(&[2u8; 32], None), Err(BlockError::MissingParent));
}

#[test]
fn validation_checks_run_in_order() {
    let parent = Block::new(4, [0u8; 32], 10);
    // wrong parent, wrong height and wrong timestamp: the parent is reported
    let all_wrong = Block::new(9, [3u8; 32], 5);
    assert_eq!(all_wrong.validate(Some(&parent)), Err(BlockError::InvalidParentHash));
    // right parent, wrong height and wrong timestamp: the height is reported
    let two_wrong = Block::new(9, parent.hash, 5);
    assert_eq!(two_wrong.validate(Some(&parent)), Err(BlockError::InvalidBlockNumber));
    // only the timestamp wrong; an equal timestamp is not younger
    let same_time = Block::new(5, parent.hash, 10);
    assert_eq!(same_time.validate(Some(&parent)), Err(BlockError::InvalidTimestamp));
    let fine = Block::new(5, parent.hash, 11);
    assert_eq!(fine.validate(Some(&parent)), Ok(()));
}

#[test]
fn without_parent_only_height_zero_is_valid() {
    assert_eq!(Block::new(0, [1u8; 32], 1).validate(None), Ok(()));
    assert_eq!(Block::new(1, [1u8; 32], 1).validate(None), Err(BlockError::MissingParent));
}

#[test]
fn parent_at_greatest_height_has_no_child() {
    let parent = Block::new(u64::MAX, [0u8; 32], 1);
    let child = Block::new(0, parent.hash, 2);
    assert_eq!(child.validate(Some(&parent)), Err(BlockError::InvalidBlockNumber));
}

#[test]
fn hashes_compare_byte_by_byte() {
    let a = [7u8; 32];
    let mut b = [7u8; 32];
    assert!(hash_eq(&a, &b));
    b[31] = 8;
    assert!(!hash_eq(&a, &b));
}

#[test]
fn hash_is_read_from_the_first_32_bytes() {
    let mut bytes = vec![5u8; 40];
    bytes[0] = 1;
    bytes[32] = 9;
    let mut expected = [5u8; 32];
    expected[0] = 1;
    assert_eq!(hash_from_slice(&bytes), Some(expected));
    assert_eq!(hash_from_slice(&bytes[..32]), Some(expected));
    assert_eq!(hash_from_slice(&bytes[..31]), None);
    assert_eq!(hash_from_slice(&[]), None);
}
