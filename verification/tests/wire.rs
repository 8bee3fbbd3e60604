use romer_chain::consensus::relay::ConsensusMessage;
use romer_chain::types::block::{Block, BlockError};
use romer_chain::wire::{decode_block, decode_message, encode_block, encode_message, BLOCK_LEN};
use serde::ser::{SerializeStruct, SerializeStructVariant, SerializeTupleVariant};
use serde::{Serialize, Serializer};

/// A block as `serde` is to see it: a structure of four fields.
struct BlockShape(Block);

impl Serialize for BlockShape {
    fn serialize<S: Serializer>(&self, serializer: S) -> Result<S::Ok, S::Error> {
        let mut shape = serializer.serialize_struct("Block", 4)?;
        shape.serialize_field("number", &self.0.number)?;
        shape.serialize_field("parent_hash", &self.0.parent_hash)?;
        shape.serialize_field("hash", &self.0.hash)?;
        shape.serialize_field("timestamp", &self.0.timestamp)?;
        shape.end()
    }
}

/// A message as `serde` is to see it: an enumeration of nine variants.
struct MessageShape<'a>(&'a ConsensusMessage);

impl Serialize for MessageShape<'_> {
    fn serialize<S: Serializer>(&self, serializer: S) -> Result<S::Ok, S::Error> {
        let name = "ConsensusMessage";
        match self.0 {
            ConsensusMessage::BlockRequest(hash) => {
                serializer.serialize_newtype_variant(name, 0, "BlockRequest", hash)
            },
            ConsensusMessage::BlockResponse(block) => {
                serializer.serialize_newtype_variant(name, 1, "BlockResponse", &BlockShape(*block))
            },
            ConsensusMessage::NewBlock(block) => {
                serializer.serialize_newtype_variant(name, 2, "NewBlock", &BlockShape(*block))
            },
            ConsensusMessage::ViewChange(view) => {
                serializer.serialize_newtype_variant(name, 3, "ViewChange", view)
            },
            ConsensusMessage::LeaderProposal(view, key) => {
                let mut shape = serializer.serialize_tuple_variant(name, 4, "LeaderProposal", 2)?;
                shape.serialize_field(view)?;
                shape.serialize_field(key)?;
                shape.end()
            },
            ConsensusMessage::LeaderVote(view, key) => {
                let mut shape = serializer.serialize_tuple_variant(name, 5, "LeaderVote", 2)?;
                shape.serialize_field(view)?;
                shape.serialize_field(key)?;
                shape.end()
            },
            ConsensusMessage::LeaderAnnouncement(view, key) => {
                let mut shape =
                    serializer.serialize_tuple_variant(name, 6, "LeaderAnnouncement", 2)?;
                shape.serialize_field(view)?;
                shape.serialize_field(key)?;
                shape.end()
            },
            ConsensusMessage::ValidatorAnnounce { public_key, region } => {
                let mut shape =
                    serializer.serialize_struct_variant(name, 7, "ValidatorAnnounce", 2)?;
                shape.serialize_field("public_key", public_key)?;
                shape.serialize_field("region", region)?;
                shape.end()
            },
            ConsensusMessage::ValidatorLeave { public_key, region } => {
                let mut shape = serializer.serialize_struct_variant(name, 8, "ValidatorLeave", 2)?;
                shape.serialize_field("public_key", public_key)?;
                shape.serialize_field("region", region)?;
                shape.end()
            },
        }
    }
}

fn sample_block() -> Block {
    Block::new(0x0102_0304_0506_0708, [0xAB; 32], 0x1122_3344_5566_7788)
}

fn samples() -> Vec<ConsensusMessage> {
    vec![
        ConsensusMessage::BlockRequest(vec![7u8; 32]),
        ConsensusMessage::BlockRequest(vec![]),
        ConsensusMessage::BlockResponse(sample_block()),
        ConsensusMessage::NewBlock(Block::new(0, [1u8; 32], 0)),
        ConsensusMessage::ViewChange(u64::MAX),
        ConsensusMessage::LeaderProposal(3, vec![1, 2, 3]),
        ConsensusMessage::LeaderVote(4, vec![]),
        ConsensusMessage::LeaderAnnouncement(0, vec![9u8; 40]),
        ConsensusMessage::ValidatorAnnounce {
            public_key: vec![5u8; 32],
            region: "S\u{e3}o Paulo".to_string(),
        },
        ConsensusMessage::ValidatorLeave { public_key: vec![], region: String::new() },
    ]
}

fn same(a: &ConsensusMessage, b: &ConsensusMessage) -> bool {
    match (a, b) {
        (ConsensusMessage::BlockRequest(x), ConsensusMessage::BlockRequest(y)) => x == y,
        (ConsensusMessage::BlockResponse(x), ConsensusMessage::BlockResponse(y)) => x == y,
        (ConsensusMessage::NewBlock(x), ConsensusMessage::NewBlock(y)) => x == y,
        (ConsensusMessage::ViewChange(x), ConsensusMessage::ViewChange(y)) => x == y,
        (ConsensusMessage::LeaderProposal(v, x), ConsensusMessage::LeaderProposal(w, y)) => {
            v == w && x == y
        },
        (ConsensusMessage::LeaderVote(v, x), ConsensusMessage::LeaderVote(w, y)) => {
            v == w && x == y
        },
        (ConsensusMessage::LeaderAnnouncement(v, x), ConsensusMessage::LeaderAnnouncement(w, y)) => {
            v == w && x == y
        },
        (
            ConsensusMessage::ValidatorAnnounce { public_key: k, region: r },
            ConsensusMessage::ValidatorAnnounce { public_key: l, region: q },
        ) => k == l && r == q,
        (
            ConsensusMessage::ValidatorLeave { public_key: k, region: r },
            ConsensusMessage::ValidatorLeave { public_key: l, region: q },
        ) => k == l && r == q,
        _ => false,
    }
}

#[test]
fn block_layout() {
    let block = sample_block();
    let bytes = encode_block(&block);
    assert_eq!(bytes.len(), BLOCK_LEN);
    assert_eq!(&bytes[..8], &[8, 7, 6, 5, 4, 3, 2, 1]);
    assert_eq!(&bytes[8..40], &[0xAB; 32]);
    assert_eq!(&bytes[40..72], &block.hash);
    assert_eq!(&bytes[72..], &[0x88, 0x77, 0x66, 0x55, 0x44, 0x33, 0x22, 0x11]);
}

#[test]
fn block_round_trip() {
    for block in [sample_block(), Block::new(0, [0u8; 32], 0), Block::new(u64::MAX, [9u8; 32], u64::MAX)] {
        assert_eq!(decode_block(&encode_block(&block)), Ok(block));
    }
    let unsealed = Block { number: 4, parent_hash: [1u8; 32], hash: [2u8; 32], timestamp: 9 };
    assert_eq!(decode_block(&encode_block(&unsealed)), Ok(unsealed));
}

#[test]
fn bytes_of_another_length_hold_no_block() {
    let bytes = encode_block(&sample_block());
    assert_eq!(decode_block(&bytes[..79]), Err(BlockError::Serialization));
    assert_eq!(decode_block(&[]), Err(BlockError::Serialization));
    let mut longer = bytes.clone();
    longer.push(0);
    assert_eq!(decode_block(&longer), Err(BlockError::Serialization));
}

#[test]
fn message_layout() {
    assert_eq!(
        encode_message(&ConsensusMessage::ViewChange(0x0102)),
        vec![3, 0, 0, 0, 2, 1, 0, 0, 0, 0, 0, 0]
    );
    assert_eq!(
        encode_message(&ConsensusMessage::BlockRequest(vec![0xAA, 0xBB])),
        vec![0, 0, 0, 0, 2, 0, 0, 0, 0, 0, 0, 0, 0xAA, 0xBB]
    );
    assert_eq!(
        encode_message(&ConsensusMessage::LeaderVote(1, vec![9])),
        vec![5, 0, 0, 0, 1, 0, 0, 0, 0, 0, 0, 0, 1, 0, 0, 0, 0, 0, 0, 0, 9]
    );
    assert_eq!(
        encode_message(&ConsensusMessage::ValidatorLeave {
            public_key: vec![7],
            region: "\u{e9}".to_string()
        }),
        vec![8, 0, 0, 0, 1, 0, 0, 0, 0, 0, 0, 0, 7, 2, 0, 0, 0, 0, 0, 0, 0, 0xC3, 0xA9]
    );
    let block = sample_block();
    let mut expected = vec![2, 0, 0, 0];
    expected.extend_from_slice(&encode_block(&block));
    assert_eq!(encode_message(&ConsensusMessage::NewBlock(block)), expected);
}

#[test]
fn message_round_trip() {
    for message in samples() {
        let bytes = encode_message(&message);
        let read = decode_message(&bytes).expect("a written message is read back");
        assert!(same(&read, &message), "{:?} came back as {:?}", message, read);
    }
}

#[test]
fn layout_is_that_of_bincode() {
    for message in samples() {
        assert_eq!(encode_message(&message), bincode::serialize(&MessageShape(&message)).unwrap());
    }
    let block = sample_block();
    assert_eq!(encode_block(&block), bincode::serialize(&BlockShape(block)).unwrap());
}

#[test]
fn malformed_bytes_hold_no_message() {
    // too short for a tag, or an unknown tag
    assert!(decode_message(&[]).is_none());
    assert!(decode_message(&[0, 0, 0]).is_none());
    assert!(decode_message(&[9, 0, 0, 0]).is_none());
    assert!(decode_message(&[3, 0, 0, 1, 0, 0, 0, 0, 0, 0, 0, 0]).is_none());
    for message in samples() {
        let bytes = encode_message(&message);
        // cut short anywhere, or with a byte too many
        for cut in 0..bytes.len() {
            let read = decode_message(&bytes[..cut]);
            assert!(read.is_none(), "{:?} cut to {} came back as {:?}", message, cut, read);
        }
        let mut longer = bytes.clone();
        longer.push(0);
        assert!(decode_message(&longer).is_none());
    }
    // a length that promises more than there is
    assert!(decode_message(&[0, 0, 0, 0, 3, 0, 0, 0, 0, 0, 0, 0, 1, 2]).is_none());
    assert!(decode_message(&[0, 0, 0, 0, 0xff, 0xff, 0xff, 0xff, 0xff, 0xff, 0xff, 0xff]).is_none());
    // a region that is not text
    assert!(decode_message(&[
        7, 0, 0, 0, 0, 0, 0, 0, 0, 0, 0, 0, 1, 0, 0, 0, 0, 0, 0, 0, 0xff
    ])
    .is_none());
    assert!(decode_message(&[
        7, 0, 0, 0, 0, 0, 0, 0, 0, 0, 0, 0, 1, 0, 0, 0, 0, 0, 0, 0, b'A'
    ])
    .is_some());
}
