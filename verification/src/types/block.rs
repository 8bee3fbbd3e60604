//! Blocks and the rule that links a block to its parent.

use crate::digest::{sha256, sha256_digest};
use vstd::bytes::{spec_u64_to_le_bytes, u64_to_le_bytes};
use vstd::prelude::*;

verus! {

/// One block of the chain. A block is never changed once it is built.
#[derive(Clone, Copy, Debug, PartialEq, Eq)]
pub struct Block {
    /// Height in the chain; the first block has height 0.
    pub number: u64,
    /// Hash of the block before this one.
    pub parent_hash: [u8; 32],
    /// Digest of `number`, `parent_hash` and `timestamp`.
    pub hash: [u8; 32],
    /// Seconds since the epoch at which the block was built.
    pub timestamp: u64,
}

/// Why a block was turned down.
#[derive(Clone, Copy, Debug, PartialEq, Eq, Structural)]
pub enum BlockError {
    /// The store refused the operation.
    Archive,
    /// Stored bytes do not form a block.
    Serialization,
    /// The block's hash is not the digest of its contents.
    InvalidHash,
    /// The block does not name the expected parent.
    InvalidParentHash,
    /// The block's height is not its parent's plus one.
    InvalidBlockNumber,
    /// The block is not younger than its parent.
    InvalidTimestamp,
    /// A block above height 0 came without its parent.
    MissingParent,
}

/// The bytes that are hashed for a block: the height in little-endian order,
/// the parent hash, then the timestamp in little-endian order.
pub open spec fn hash_preimage(number: u64, parent_hash: Seq<u8>, timestamp: u64) -> Seq<u8> {
    spec_u64_to_le_bytes(number) + parent_hash + spec_u64_to_le_bytes(timestamp)
}

/// The hash that a block with these contents must carry.
pub open spec fn block_digest(number: u64, parent_hash: Seq<u8>, timestamp: u64) -> Seq<u8> {
    sha256(hash_preimage(number, parent_hash, timestamp))
}

/// What [`Block::validate`] answers for a block and the parent it is held against.
pub open spec fn validation(block: Block, parent: Option<Block>) -> Result<(), BlockError> {
    validation_with(
        block,
        block_digest(block.number, block.parent_hash@, block.timestamp),
        parent,
    )
}

/// What [`Block::validate_with`] answers for a block, the digest of its
/// contents and the parent it is held against.
///
/// Against a parent the checks run in this order, and the first that
/// fails is the answer: the block names the parent, it carries the digest,
/// it stands one above the parent, it is younger than the parent. Without
/// a parent the block must carry the digest and stand at height 0.
pub open spec fn validation_with(block: Block, digest: Seq<u8>, parent: Option<Block>) -> Result<
    (),
    BlockError,
> {
    match parent {
        Some(p) => {
            if block.parent_hash@ != p.hash@ {
                Err(BlockError::InvalidParentHash)
            } else if block.hash@ != digest {
                Err(BlockError::InvalidHash)
            } else if block.number != p.number + 1 {
                Err(BlockError::InvalidBlockNumber)
            } else if block.timestamp <= p.timestamp {
                Err(BlockError::InvalidTimestamp)
            } else {
                Ok(())
            }
        },
        None => {
            if block.hash@ != digest {
                Err(BlockError::InvalidHash)
            } else if block.number != 0 {
                Err(BlockError::MissingParent)
            } else {
                Ok(())
            }
        },
    }
}

/// A block held against its parent is accepted exactly when it is sealed,
/// names the parent, stands one above it and is younger than it.
pub proof fn lemma_validation_accepts(block: Block, parent: Block)
    ensures
        validation(block, Some(parent)) is Ok <==> block.is_sealed() && block.parent_hash@
            == parent.hash@ && block.number == parent.number + 1 && block.timestamp
            > parent.timestamp,
{
}

/// A block held against no parent is accepted exactly when it is sealed and
/// stands at height 0.
pub proof fn lemma_validation_accepts_first(block: Block)
    ensures
        validation(block, None) is Ok <==> block.is_sealed() && block.number == 0,
{
}

/// Compares two hashes byte by byte.
pub fn hash_eq(a: &[u8; 32], b: &[u8; 32]) -> (same: bool)
    ensures
        same <==> a@ == b@,
{
    let mut i: usize = 0;
    while i < 32
        invariant
            i <= 32,
            forall|j: int| 0 <= j < i ==> a@[j] == b@[j],
        decreases 32 - i,
    {
        if a[i] != b[i] {
            return false;
        }
        i += 1;
    }
    assert(a@ =~= b@);
    true
}

/// Reads a hash from the first 32 bytes of `bytes`; nothing where there
/// are fewer.
pub fn hash_from_slice(bytes: &[u8]) -> (hash: Option<[u8; 32]>)
    ensures
        match hash {
            Some(h) => bytes@.len() >= 32 && h@ == bytes@.take(32),
            None => bytes@.len() < 32,
        },
{
    if bytes.len() < 32 {
        return None;
    }
    let mut hash = [0u8; 32];
    let mut i: usize = 0;
    while i < 32
        invariant
            i <= 32,
            bytes@.len() >= 32,
            forall|j: int| 0 <= j < i ==> hash@[j] == bytes@[j],
        decreases 32 - i,
    {
        hash[i] = bytes[i];
        i += 1;
    }
    assert(hash@ =~= bytes@.take(32));
    Some(hash)
}

impl Block {
    /// Whether the block carries the digest of its own contents.
    pub open spec fn is_sealed(self) -> bool {
        self.hash@ == block_digest(self.number, self.parent_hash@, self.timestamp)
    }

    /// Builds a block and seals it with the digest of its contents.
    pub fn new(number: u64, parent_hash: [u8; 32], timestamp: u64) -> (block: Block)
        ensures
            block.number == number,
            block.parent_hash == parent_hash,
            block.timestamp == timestamp,
            block.is_sealed(),
    {
        let mut block = Block { number, parent_hash, hash: [0u8; 32], timestamp };
        block.hash = block.calculate_hash();
        block
    }

    /// Computes the digest of the block's height, parent hash and timestamp.
    pub fn calculate_hash(&self) -> (digest: [u8; 32])
        ensures
            digest@ == block_digest(self.number, self.parent_hash@, self.timestamp),
    {
        let mut buffer: Vec<u8> = u64_to_le_bytes(self.number);
        buffer.extend_from_slice(self.parent_hash.as_slice());
        let stamp = u64_to_le_bytes(self.timestamp);
        buffer.extend_from_slice(stamp.as_slice());
        assert(buffer@ =~= hash_preimage(self.number, self.parent_hash@, self.timestamp));
        let digest = sha256_digest(buffer.as_slice());
        let mut fixed = [0u8; 32];
        let mut i: usize = 0;
        while i < 32
            invariant
                i <= 32,
                digest@.len() == 32,
                forall|j: int| 0 <= j < i ==> fixed@[j] == digest@[j],
            decreases 32 - i,
        {
            fixed[i] = digest[i];
            i += 1;
        }
        assert(fixed@ =~= digest@);
        fixed
    }

    /// Checks that the block follows its parent, where one is given, and
    /// that it is sealed. The checks run in a fixed order and the first
    /// failure is the answer: against a parent the parent's hash, the seal,
    /// the height, the timestamp; without a parent the seal, then the
    /// height, which must be 0.
    pub fn validate(&self, parent: Option<&Block>) -> (outcome: Result<(), BlockError>)
        ensures
            outcome == validation(
                *self,
                match parent {
                    Some(p) => Some(*p),
                    None => None,
                },
            ),
    {
        let digest = self.calculate_hash();
        self.validate_with(&digest, parent)
    }

    /// Checks the block against its parent, where one is given, and
    /// against `digest`, the digest of its contents. The checks run in a
    /// fixed order and the first failure is the answer: against a parent
    /// the parent's hash, the hash, the height, the timestamp; without a
    /// parent the hash, then the height, which must be 0.
    pub fn validate_with(&self, digest: &[u8; 32], parent: Option<&Block>) -> (outcome: Result<
        (),
        BlockError,
    >)
        ensures
            outcome == validation_with(
                *self,
                digest@,
                match parent {
                    Some(p) => Some(*p),
                    None => None,
                },
            ),
    {
        match parent {
            Some(p) => {
                if !hash_eq(&self.parent_hash, &p.hash) {
                    return Err(BlockError::InvalidParentHash);
                }
                if !hash_eq(&self.hash, digest) {
                    return Err(BlockError::InvalidHash);
                }
                if p.number == u64::MAX || self.number != p.number + 1 {
                    return Err(BlockError::InvalidBlockNumber);
                }
                if self.timestamp <= p.timestamp {
                    return Err(BlockError::InvalidTimestamp);
                }
                Ok(())
            },
            None => {
                if !hash_eq(&self.hash, digest) {
                    return Err(BlockError::InvalidHash);
                }
                if self.number != 0 {
                    return Err(BlockError::MissingParent);
                }
                Ok(())
            },
        }
    }
}

} // verus!
