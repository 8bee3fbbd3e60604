//! The bytes that blocks and messages travel and rest as.
//!
//! Numbers are written least significant byte first, in eight bytes, the
//! tag of a message in four. A byte string is written as its length and
//! then its bytes, a text as the byte string of its UTF-8 form, a hash as
//! its 32 bytes, and a block as its height, its parent's hash, its hash
//! and its timestamp.

use crate::bytes::{copy_bytes, text_from_utf8};
use crate::consensus::relay::{ConsensusMessage, MessageView};
use crate::types::block::{Block, BlockError};
use vstd::bytes::{
    lemma_auto_spec_u32_to_from_le_bytes, lemma_auto_spec_u64_to_from_le_bytes,
    spec_u32_from_le_bytes, spec_u32_to_le_bytes, spec_u64_from_le_bytes, spec_u64_to_le_bytes,
    u32_from_le_bytes, u32_to_le_bytes, u64_from_le_bytes, u64_to_le_bytes,
};
use vstd::prelude::*;
use vstd::slice::slice_subrange;
use vstd::utf8::{encode_utf8, encode_utf8_valid_utf8};

verus! {

/// Number of bytes of a block.
pub const BLOCK_LEN: usize = 80;

/// The bytes of a block.
pub open spec fn block_bytes(block: Block) -> Seq<u8> {
    spec_u64_to_le_bytes(block.number) + block.parent_hash@ + block.hash@ + spec_u64_to_le_bytes(
        block.timestamp,
    )
}

/// The bytes of a byte string: its length, then the string.
pub open spec fn field_bytes(content: Seq<u8>) -> Seq<u8> {
    spec_u64_to_le_bytes(content.len() as u64) + content
}

/// The tag that tells the kind of a message.
pub open spec fn tag(message: MessageView) -> u32 {
    match message {
        MessageView::BlockRequest(_) => 0,
        MessageView::BlockResponse(_) => 1,
        MessageView::NewBlock(_) => 2,
        MessageView::ViewChange(_) => 3,
        MessageView::LeaderProposal(_, _) => 4,
        MessageView::LeaderVote(_, _) => 5,
        MessageView::LeaderAnnouncement(_, _) => 6,
        MessageView::ValidatorAnnounce { .. } => 7,
        MessageView::ValidatorLeave { .. } => 8,
    }
}

/// The bytes of what a message holds, behind its tag.
pub open spec fn body_bytes(message: MessageView) -> Seq<u8> {
    match message {
        MessageView::BlockRequest(hash) => field_bytes(hash),
        MessageView::BlockResponse(block) => block_bytes(block),
        MessageView::NewBlock(block) => block_bytes(block),
        MessageView::ViewChange(view) => spec_u64_to_le_bytes(view),
        MessageView::LeaderProposal(view, key) => spec_u64_to_le_bytes(view) + field_bytes(key),
        MessageView::LeaderVote(view, key) => spec_u64_to_le_bytes(view) + field_bytes(key),
        MessageView::LeaderAnnouncement(view, key) => spec_u64_to_le_bytes(view) + field_bytes(
            key,
        ),
        MessageView::ValidatorAnnounce { public_key, region } => field_bytes(public_key)
            + field_bytes(encode_utf8(region)),
        MessageView::ValidatorLeave { public_key, region } => field_bytes(public_key)
            + field_bytes(encode_utf8(region)),
    }
}

/// The bytes of a message: its tag, then what it holds.
pub open spec fn message_bytes(message: MessageView) -> Seq<u8> {
    spec_u32_to_le_bytes(tag(message)) + body_bytes(message)
}

/// Whether a message can be written: each of its byte strings has a
/// length that fits the eight bytes it is written in.
pub open spec fn writable(message: MessageView) -> bool {
    match message {
        MessageView::BlockRequest(hash) => hash.len() <= u64::MAX,
        MessageView::LeaderProposal(_, key) => key.len() <= u64::MAX,
        MessageView::LeaderVote(_, key) => key.len() <= u64::MAX,
        MessageView::LeaderAnnouncement(_, key) => key.len() <= u64::MAX,
        MessageView::ValidatorAnnounce { public_key, region } => public_key.len() <= u64::MAX
            && encode_utf8(region).len() <= u64::MAX,
        MessageView::ValidatorLeave { public_key, region } => public_key.len() <= u64::MAX
            && encode_utf8(region).len() <= u64::MAX,
        _ => true,
    }
}

/// Appends a number in eight bytes.
fn put_u64(buffer: &mut Vec<u8>, x: u64)
    ensures
        final(buffer)@ == old(buffer)@ + spec_u64_to_le_bytes(x),
{
    let bytes = u64_to_le_bytes(x);
    buffer.extend_from_slice(bytes.as_slice());
}

/// Appends a byte string behind its length.
fn put_field(buffer: &mut Vec<u8>, content: &[u8])
    ensures
        final(buffer)@ == old(buffer)@ + field_bytes(content@),
        content@.len() <= usize::MAX,
{
    let ghost before = buffer@;
    put_u64(buffer, content.len() as u64);
    buffer.extend_from_slice(content);
    assert(buffer@ =~= before + field_bytes(content@));
}

/// Appends a block.
fn put_block(buffer: &mut Vec<u8>, block: &Block)
    ensures
        final(buffer)@ == old(buffer)@ + block_bytes(*block),
{
    let ghost before = buffer@;
    put_u64(buffer, block.number);
    buffer.extend_from_slice(block.parent_hash.as_slice());
    buffer.extend_from_slice(block.hash.as_slice());
    put_u64(buffer, block.timestamp);
    assert(buffer@ =~= before + block_bytes(*block));
}

/// Writes a block as bytes.
pub fn encode_block(block: &Block) -> (bytes: Vec<u8>)
    ensures
        bytes@ == block_bytes(*block),
        bytes@.len() == BLOCK_LEN,
{
    let mut buffer: Vec<u8> = Vec::new();
    put_block(&mut buffer, block);
    proof {
        lemma_auto_spec_u64_to_from_le_bytes();
        assert(buffer@ =~= block_bytes(*block));
    }
    buffer
}

/// Writes a message as bytes.
pub fn encode_message(message: &ConsensusMessage) -> (bytes: Vec<u8>)
    ensures
        bytes@ == message_bytes(message@),
        writable(message@),
{
    let mut buffer: Vec<u8> = Vec::new();
    match message {
        ConsensusMessage::BlockRequest(hash) => {
            buffer = u32_to_le_bytes(0);
            put_field(&mut buffer, hash.as_slice());
        },
        ConsensusMessage::BlockResponse(block) => {
            buffer = u32_to_le_bytes(1);
            put_block(&mut buffer, block);
        },
        ConsensusMessage::NewBlock(block) => {
            buffer = u32_to_le_bytes(2);
            put_block(&mut buffer, block);
        },
        ConsensusMessage::ViewChange(view) => {
            buffer = u32_to_le_bytes(3);
            put_u64(&mut buffer, *view);
        },
        ConsensusMessage::LeaderProposal(view, key) => {
            buffer = u32_to_le_bytes(4);
            put_u64(&mut buffer, *view);
            put_field(&mut buffer, key.as_slice());
        },
        ConsensusMessage::LeaderVote(view, key) => {
            buffer = u32_to_le_bytes(5);
            put_u64(&mut buffer, *view);
            put_field(&mut buffer, key.as_slice());
        },
        ConsensusMessage::LeaderAnnouncement(view, key) => {
            buffer = u32_to_le_bytes(6);
            put_u64(&mut buffer, *view);
            put_field(&mut buffer, key.as_slice());
        },
        ConsensusMessage::ValidatorAnnounce { public_key, region } => {
            buffer = u32_to_le_bytes(7);
            put_field(&mut buffer, public_key.as_slice());
            put_field(&mut buffer, region.as_str().as_bytes());
        },
        ConsensusMessage::ValidatorLeave { public_key, region } => {
            buffer = u32_to_le_bytes(8);
            put_field(&mut buffer, public_key.as_slice());
            put_field(&mut buffer, region.as_str().as_bytes());
        },
    }
    assert(buffer@ =~= message_bytes(message@));
    buffer
}

/// Two numbers written in front of byte strings agree with what follows
/// them, if the whole agrees.
pub proof fn lemma_number_prefix(x: u64, after_x: Seq<u8>, y: u64, after_y: Seq<u8>)
    requires
        spec_u64_to_le_bytes(x) + after_x == spec_u64_to_le_bytes(y) + after_y,
    ensures
        x == y,
        after_x == after_y,
{
    lemma_auto_spec_u64_to_from_le_bytes();
    let whole = spec_u64_to_le_bytes(x) + after_x;
    assert(whole.take(8) =~= spec_u64_to_le_bytes(x));
    assert(whole.take(8) =~= spec_u64_to_le_bytes(y));
    assert(whole.skip(8) =~= after_x);
    assert(whole.skip(8) =~= after_y);
}

/// Two byte strings written in front of byte strings agree with what
/// follows them, if the whole agrees.
pub proof fn lemma_field_prefix(a: Seq<u8>, after_a: Seq<u8>, b: Seq<u8>, after_b: Seq<u8>)
    requires
        a.len() <= u64::MAX,
        b.len() <= u64::MAX,
        field_bytes(a) + after_a == field_bytes(b) + after_b,
    ensures
        a == b,
        after_a == after_b,
{
    assert(field_bytes(a) + after_a =~= spec_u64_to_le_bytes(a.len() as u64) + (a + after_a));
    assert(field_bytes(b) + after_b =~= spec_u64_to_le_bytes(b.len() as u64) + (b + after_b));
    lemma_number_prefix(a.len() as u64, a + after_a, b.len() as u64, b + after_b);
    let rest = a + after_a;
    assert(rest.take(a.len() as int) =~= a);
    assert(rest.take(b.len() as int) =~= b);
    assert(rest.skip(a.len() as int) =~= after_a);
    assert(rest.skip(b.len() as int) =~= after_b);
}

/// Two blocks written in front of byte strings agree with what follows
/// them, if the whole agrees.
pub proof fn lemma_block_prefix(a: Block, after_a: Seq<u8>, b: Block, after_b: Seq<u8>)
    requires
        block_bytes(a) + after_a == block_bytes(b) + after_b,
    ensures
        a == b,
        after_a == after_b,
{
    lemma_auto_spec_u64_to_from_le_bytes();
    let whole = block_bytes(a) + after_a;
    assert(whole.take(8) =~= spec_u64_to_le_bytes(a.number));
    assert(whole.take(8) =~= spec_u64_to_le_bytes(b.number));
    assert(whole.subrange(8, 40) =~= a.parent_hash@);
    assert(whole.subrange(8, 40) =~= b.parent_hash@);
    assert(whole.subrange(40, 72) =~= a.hash@);
    assert(whole.subrange(40, 72) =~= b.hash@);
    assert(whole.subrange(72, 80) =~= spec_u64_to_le_bytes(a.timestamp));
    assert(whole.subrange(72, 80) =~= spec_u64_to_le_bytes(b.timestamp));
    assert(whole.skip(80) =~= after_a);
    assert(whole.skip(80) =~= after_b);
    assert(a.parent_hash =~= b.parent_hash);
    assert(a.hash =~= b.hash);
}

/// A block is read back from its bytes: no two blocks have the same
/// bytes.
pub proof fn lemma_block_bytes_tell_blocks_apart(a: Block, b: Block)
    ensures
        block_bytes(a).len() == BLOCK_LEN,
        block_bytes(a) == block_bytes(b) ==> a == b,
{
    lemma_auto_spec_u64_to_from_le_bytes();
    if block_bytes(a) == block_bytes(b) {
        assert(block_bytes(a) + Seq::<u8>::empty() =~= block_bytes(b) + Seq::<u8>::empty());
        lemma_block_prefix(a, Seq::empty(), b, Seq::empty());
    }
}

/// A message is read back from its bytes: no two messages that can be
/// written have the same bytes.
pub proof fn lemma_message_bytes_tell_messages_apart(a: MessageView, b: MessageView)
    requires
        writable(a),
        writable(b),
        message_bytes(a) == message_bytes(b),
    ensures
        a == b,
{
    lemma_auto_spec_u32_to_from_le_bytes();
    let whole = message_bytes(a);
    assert(whole.take(4) =~= spec_u32_to_le_bytes(tag(a)));
    assert(whole.take(4) =~= spec_u32_to_le_bytes(tag(b)));
    assert(tag(a) == tag(b));
    assert(whole.skip(4) =~= body_bytes(a));
    assert(whole.skip(4) =~= body_bytes(b));
    lemma_body_bytes_tell_messages_apart(a, Seq::empty(), b, Seq::empty());
}

/// Two messages of one kind agree, and so does what follows them, if
/// their bodies with what follows agree.
pub proof fn lemma_body_bytes_tell_messages_apart(
    a: MessageView,
    after_a: Seq<u8>,
    b: MessageView,
    after_b: Seq<u8>,
)
    requires
        writable(a),
        writable(b),
        tag(a) == tag(b),
        body_bytes(a) + after_a == body_bytes(b) + after_b,
    ensures
        a == b,
        after_a == after_b,
{
    match (a, b) {
        (MessageView::BlockRequest(x), MessageView::BlockRequest(y)) => {
            lemma_field_prefix(x, after_a, y, after_b);
        },
        (MessageView::BlockResponse(x), MessageView::BlockResponse(y)) => {
            lemma_block_prefix(x, after_a, y, after_b);
        },
        (MessageView::NewBlock(x), MessageView::NewBlock(y)) => {
            lemma_block_prefix(x, after_a, y, after_b);
        },
        (MessageView::ViewChange(x), MessageView::ViewChange(y)) => {
            lemma_number_prefix(x, after_a, y, after_b);
        },
        (MessageView::LeaderProposal(v, x), MessageView::LeaderProposal(w, y)) => {
            lemma_keyed(v, x, after_a, w, y, after_b);
        },
        (MessageView::LeaderVote(v, x), MessageView::LeaderVote(w, y)) => {
            lemma_keyed(v, x, after_a, w, y, after_b);
        },
        (MessageView::LeaderAnnouncement(v, x), MessageView::LeaderAnnouncement(w, y)) => {
            lemma_keyed(v, x, after_a, w, y, after_b);
        },
        (
            MessageView::ValidatorAnnounce { public_key: k, region: r },
            MessageView::ValidatorAnnounce { public_key: l, region: q },
        ) => {
            lemma_membership(k, r, after_a, l, q, after_b);
        },
        (
            MessageView::ValidatorLeave { public_key: k, region: r },
            MessageView::ValidatorLeave { public_key: l, region: q },
        ) => {
            lemma_membership(k, r, after_a, l, q, after_b);
        },
        _ => {},
    }
}

/// A round and a key are told by their bytes.
proof fn lemma_keyed(
    v: u64,
    x: Seq<u8>,
    after_x: Seq<u8>,
    w: u64,
    y: Seq<u8>,
    after_y: Seq<u8>,
)
    requires
        x.len() <= u64::MAX,
        y.len() <= u64::MAX,
        spec_u64_to_le_bytes(v) + field_bytes(x) + after_x == spec_u64_to_le_bytes(w)
            + field_bytes(y) + after_y,
    ensures
        v == w,
        x == y,
        after_x == after_y,
{
    assert(spec_u64_to_le_bytes(v) + field_bytes(x) + after_x =~= spec_u64_to_le_bytes(v) + (
    field_bytes(x) + after_x));
    assert(spec_u64_to_le_bytes(w) + field_bytes(y) + after_y =~= spec_u64_to_le_bytes(w) + (
    field_bytes(y) + after_y));
    lemma_number_prefix(v, field_bytes(x) + after_x, w, field_bytes(y) + after_y);
    lemma_field_prefix(x, after_x, y, after_y);
}

/// A key and a region are told by their bytes.
proof fn lemma_membership(
    k: Seq<u8>,
    r: Seq<char>,
    after_r: Seq<u8>,
    l: Seq<u8>,
    q: Seq<char>,
    after_q: Seq<u8>,
)
    requires
        k.len() <= u64::MAX,
        l.len() <= u64::MAX,
        encode_utf8(r).len() <= u64::MAX,
        encode_utf8(q).len() <= u64::MAX,
        field_bytes(k) + field_bytes(encode_utf8(r)) + after_r == field_bytes(l) + field_bytes(
            encode_utf8(q),
        ) + after_q,
    ensures
        k == l,
        r == q,
        after_r == after_q,
{
    broadcast use vstd::utf8::encode_utf8_decode_utf8;

    assert(field_bytes(k) + field_bytes(encode_utf8(r)) + after_r =~= field_bytes(k) + (
    field_bytes(encode_utf8(r)) + after_r));
    assert(field_bytes(l) + field_bytes(encode_utf8(q)) + after_q =~= field_bytes(l) + (
    field_bytes(encode_utf8(q)) + after_q));
    lemma_field_prefix(
        k,
        field_bytes(encode_utf8(r)) + after_r,
        l,
        field_bytes(encode_utf8(q)) + after_q,
    );
    lemma_field_prefix(encode_utf8(r), after_r, encode_utf8(q), after_q);
    assert(vstd::utf8::decode_utf8(encode_utf8(r)) == r);
    assert(vstd::utf8::decode_utf8(encode_utf8(q)) == q);
}

/// Reads the number written in the eight bytes at `at`.
fn get_u64(bytes: &[u8], at: usize) -> (x: Option<u64>)
    requires
        at <= bytes@.len(),
    ensures
        match x {
            Some(v) => at + 8 <= bytes@.len() && bytes@.subrange(at as int, at + 8)
                == spec_u64_to_le_bytes(v),
            None => bytes@.len() < at + 8,
        },
{
    if bytes.len() - at < 8 {
        return None;
    }
    let part = slice_subrange(bytes, at, at + 8);
    let v = u64_from_le_bytes(part);
    proof {
        lemma_auto_spec_u64_to_from_le_bytes();
    }
    Some(v)
}

/// Reads the byte string written at `at`, and gives the place behind it.
fn get_field(bytes: &[u8], at: usize) -> (field: Option<(Vec<u8>, usize)>)
    requires
        at <= bytes@.len(),
    ensures
        match field {
            Some((content, next)) => at + 8 <= next <= bytes@.len() && bytes@.subrange(
                at as int,
                next as int,
            ) == field_bytes(content@),
            None => forall|content: Seq<u8>, rest: Seq<u8>|
                content.len() <= u64::MAX ==> bytes@.skip(at as int) != #[trigger] (field_bytes(
                    content,
                ) + rest),
        },
{
    let declared = match get_u64(bytes, at) {
        Some(declared) => declared,
        None => {
            proof {
                lemma_auto_spec_u64_to_from_le_bytes();
                assert forall|content: Seq<u8>, rest: Seq<u8>|
                    content.len() <= u64::MAX implies bytes@.skip(at as int) != #[trigger] (
                field_bytes(content) + rest) by {
                    assert(spec_u64_to_le_bytes(content.len() as u64).len() == 8);
                    assert((field_bytes(content) + rest).len() >= 8);
                    assert(bytes@.skip(at as int).len() < 8);
                }
            }
            return None;
        },
    };
    let available = bytes.len() - at - 8;
    if declared > available as u64 {
        proof {
            assert forall|content: Seq<u8>, rest: Seq<u8>|
                content.len() <= u64::MAX implies bytes@.skip(at as int) != #[trigger] (
            field_bytes(content) + rest) by {
                if bytes@.skip(at as int) == field_bytes(content) + rest {
                    let tail = bytes@.skip(at as int);
                    assert(tail =~= spec_u64_to_le_bytes(declared) + tail.skip(8)) by {
                        assert(tail.take(8) =~= bytes@.subrange(at as int, at + 8));
                    }
                    assert(tail =~= spec_u64_to_le_bytes(content.len() as u64) + (content
                        + rest));
                    lemma_number_prefix(
                        declared,
                        tail.skip(8),
                        content.len() as u64,
                        content + rest,
                    );
                }
            }
        }
        return None;
    }
    let next = at + 8 + declared as usize;
    let content = copy_bytes(slice_subrange(bytes, at + 8, next));
    proof {
        assert(bytes@.subrange(at as int, next as int) =~= bytes@.subrange(at as int, at + 8)
            + bytes@.subrange(at + 8, next as int));
    }
    Some((content, next))
}

/// Reads the hash written in the 32 bytes at `at`.
fn get_hash(bytes: &[u8], at: usize) -> (hash: [u8; 32])
    requires
        at + 32 <= bytes.len(),
    ensures
        hash@ == bytes@.subrange(at as int, at + 32),
{
    let mut hash = [0u8; 32];
    let mut i: usize = 0;
    while i < 32
        invariant
            i <= 32,
            at + 32 <= bytes.len(),
            forall|j: int| 0 <= j < i ==> hash@[j] == bytes@[at + j],
        decreases 32 - i,
    {
        hash[i] = bytes[at + i];
        i += 1;
    }
    assert(hash@ =~= bytes@.subrange(at as int, at + 32));
    hash
}

/// Reads the block written in the 80 bytes at `at`.
fn get_block(bytes: &[u8], at: usize) -> (block: Block)
    requires
        at + 80 <= bytes.len(),
    ensures
        block_bytes(block) == bytes@.subrange(at as int, at + 80),
{
    let number = u64_from_le_bytes(slice_subrange(bytes, at, at + 8));
    let parent_hash = get_hash(bytes, at + 8);
    let hash = get_hash(bytes, at + 40);
    let timestamp = u64_from_le_bytes(slice_subrange(bytes, at + 72, at + 80));
    let block = Block { number, parent_hash, hash, timestamp };
    proof {
        lemma_auto_spec_u64_to_from_le_bytes();
        assert(block_bytes(block) =~= bytes@.subrange(at as int, at + 80));
    }
    block
}

/// Reads a block from bytes. Bytes of another length than a block's hold
/// no block.
pub fn decode_block(bytes: &[u8]) -> (outcome: Result<Block, BlockError>)
    ensures
        match outcome {
            Ok(block) => block_bytes(block) == bytes@,
            Err(e) => e == BlockError::Serialization && bytes@.len() != BLOCK_LEN,
        },
{
    if bytes.len() != 80 {
        return Err(BlockError::Serialization);
    }
    let block = get_block(bytes, 0);
    assert(bytes@.subrange(0, 80) =~= bytes@);
    Ok(block)
}

/// Reads a round and a key from the body of a message.
fn get_keyed(bytes: &[u8]) -> (parts: Option<(u64, Vec<u8>)>)
    requires
        bytes@.len() >= 4,
    ensures
        match parts {
            Some((view, key)) => bytes@.skip(4) == spec_u64_to_le_bytes(view) + field_bytes(key@),
            None => forall|view: u64, key: Seq<u8>|
                key.len() <= u64::MAX ==> bytes@.skip(4) != #[trigger] (spec_u64_to_le_bytes(view)
                    + field_bytes(key)),
        },
{
    let ghost body = bytes@.skip(4);
    let view = match get_u64(bytes, 4) {
        Some(view) => view,
        None => {
            proof {
                lemma_auto_spec_u64_to_from_le_bytes();
                assert forall|w: u64, k: Seq<u8>| k.len() <= u64::MAX implies body != #[trigger] (
                spec_u64_to_le_bytes(w) + field_bytes(k)) by {
                    assert(spec_u64_to_le_bytes(w).len() == 8);
                    assert((spec_u64_to_le_bytes(w) + field_bytes(k)).len() >= 8);
                    assert(body.len() < 8);
                }
            }
            return None;
        },
    };
    proof {
        assert(body =~= spec_u64_to_le_bytes(view) + bytes@.skip(12)) by {
            assert(body.take(8) =~= bytes@.subrange(4, 12));
        }
    }
    let (key, next) = match get_field(bytes, 12) {
        Some(field) => field,
        None => {
            proof {
                assert forall|w: u64, k: Seq<u8>| k.len() <= u64::MAX implies body != #[trigger] (
                spec_u64_to_le_bytes(w) + field_bytes(k)) by {
                    if body == spec_u64_to_le_bytes(w) + field_bytes(k) {
                        lemma_number_prefix(view, bytes@.skip(12), w, field_bytes(k));
                        assert(bytes@.skip(12) == field_bytes(k) + Seq::<u8>::empty());
                    }
                }
            }
            return None;
        },
    };
    proof {
        assert(bytes@.skip(12) =~= field_bytes(key@) + bytes@.skip(next as int)) by {
            assert(bytes@.skip(12).take(next - 12) =~= bytes@.subrange(12, next as int));
        }
    }
    if next != bytes.len() {
        proof {
            assert forall|w: u64, k: Seq<u8>| k.len() <= u64::MAX implies body != #[trigger] (
            spec_u64_to_le_bytes(w) + field_bytes(k)) by {
                if body == spec_u64_to_le_bytes(w) + field_bytes(k) {
                    lemma_number_prefix(view, bytes@.skip(12), w, field_bytes(k));
                    assert(field_bytes(k) =~= field_bytes(k) + Seq::<u8>::empty());
                    lemma_field_prefix(key@, bytes@.skip(next as int), k, Seq::empty());
                }
            }
        }
        return None;
    }
    proof {
        assert(bytes@.skip(next as int) =~= Seq::<u8>::empty());
        assert(body =~= spec_u64_to_le_bytes(view) + field_bytes(key@));
    }
    Some((view, key))
}

/// Reads a key and a region from the body of a message.
fn get_membership(bytes: &[u8]) -> (parts: Option<(Vec<u8>, String)>)
    requires
        bytes@.len() >= 4,
    ensures
        match parts {
            Some((key, region)) => bytes@.skip(4) == field_bytes(key@) + field_bytes(
                encode_utf8(region@),
            ) && encode_utf8(region@).len() <= usize::MAX,
            None => forall|key: Seq<u8>, region: Seq<char>|
                key.len() <= u64::MAX && encode_utf8(region).len() <= u64::MAX ==> bytes@.skip(4)
                    != #[trigger] (field_bytes(key) + field_bytes(encode_utf8(region))),
        },
{
    let ghost body = bytes@.skip(4);
    let (key, middle) = match get_field(bytes, 4) {
        Some(field) => field,
        None => {
            return None;
        },
    };
    proof {
        assert(body =~= field_bytes(key@) + bytes@.skip(middle as int)) by {
            assert(body.take(middle - 4) =~= bytes@.subrange(4, middle as int));
        }
    }
    let (name, next) = match get_field(bytes, middle) {
        Some(field) => field,
        None => {
            proof {
                assert forall|k: Seq<u8>, r: Seq<char>|
                    k.len() <= u64::MAX && encode_utf8(r).len() <= u64::MAX implies body
                    != #[trigger] (field_bytes(k) + field_bytes(encode_utf8(r))) by {
                    if body == field_bytes(k) + field_bytes(encode_utf8(r)) {
                        lemma_field_prefix(
                            key@,
                            bytes@.skip(middle as int),
                            k,
                            field_bytes(encode_utf8(r)),
                        );
                        assert(bytes@.skip(middle as int) == field_bytes(encode_utf8(r))
                            + Seq::<u8>::empty());
                    }
                }
            }
            return None;
        },
    };
    proof {
        assert(bytes@.skip(middle as int) =~= field_bytes(name@) + bytes@.skip(next as int)) by {
            assert(bytes@.skip(middle as int).take(next - middle) =~= bytes@.subrange(
                middle as int,
                next as int,
            ));
        }
    }
    let ghost name_bytes = name@;
    let region = if next == bytes.len() {
        text_from_utf8(name)
    } else {
        None
    };
    match region {
        Some(region) => {
            proof {
                assert(bytes@.skip(next as int) =~= Seq::<u8>::empty());
                assert(body =~= field_bytes(key@) + field_bytes(encode_utf8(region@)));
            }
            Some((key, region))
        },
        None => {
            proof {
                assert forall|k: Seq<u8>, r: Seq<char>|
                    k.len() <= u64::MAX && encode_utf8(r).len() <= u64::MAX implies body
                    != #[trigger] (field_bytes(k) + field_bytes(encode_utf8(r))) by {
                    if body == field_bytes(k) + field_bytes(encode_utf8(r)) {
                        lemma_field_prefix(
                            key@,
                            bytes@.skip(middle as int),
                            k,
                            field_bytes(encode_utf8(r)),
                        );
                        assert(field_bytes(encode_utf8(r)) =~= field_bytes(encode_utf8(r))
                            + Seq::<u8>::empty());
                        lemma_field_prefix(
                            name_bytes,
                            bytes@.skip(next as int),
                            encode_utf8(r),
                            Seq::empty(),
                        );
                        encode_utf8_valid_utf8(r);
                    }
                }
            }
            None
        },
    }
}

/// Reads a message from bytes; bytes that no message is written as hold
/// no message.
pub fn decode_message(bytes: &[u8]) -> (message: Option<ConsensusMessage>)
    ensures
        match message {
            Some(m) => message_bytes(m@) == bytes@ && writable(m@),
            None => forall|v: MessageView| writable(v) ==> #[trigger] message_bytes(v) != bytes@,
        },
{
    proof {
        lemma_auto_spec_u32_to_from_le_bytes();
        lemma_auto_spec_u64_to_from_le_bytes();
    }
    if bytes.len() < 4 {
        return None;
    }
    let kind = u32_from_le_bytes(slice_subrange(bytes, 0, 4));
    let ghost body = bytes@.skip(4);
    proof {
        assert(bytes@ =~= spec_u32_to_le_bytes(kind) + body) by {
            assert(bytes@.take(4) =~= bytes@.subrange(0, 4));
        }
        assert forall|v: MessageView| #[trigger] message_bytes(v) == bytes@ implies tag(v) == kind
            && body_bytes(v) == body by {
            assert(message_bytes(v).take(4) =~= spec_u32_to_le_bytes(tag(v)));
            assert(message_bytes(v).skip(4) =~= body_bytes(v));
        }
    }
    if kind == 0 {
        match get_field(bytes, 4) {
            Some((hash, next)) => {
                proof {
                    assert(body =~= field_bytes(hash@) + bytes@.skip(next as int)) by {
                        assert(body.take(next - 4) =~= bytes@.subrange(4, next as int));
                    }
                }
                if next != bytes.len() {
                    proof {
                        assert forall|v: MessageView| writable(v) implies #[trigger] message_bytes(
                            v,
                        ) != bytes@ by {
                            if message_bytes(v) == bytes@ {
                                let wanted = v->BlockRequest_0;
                                assert(field_bytes(wanted) =~= field_bytes(wanted)
                                    + Seq::<u8>::empty());
                                lemma_field_prefix(
                                    hash@,
                                    bytes@.skip(next as int),
                                    wanted,
                                    Seq::empty(),
                                );
                            }
                        }
                    }
                    return None;
                }
                proof {
                    assert(bytes@.skip(next as int) =~= Seq::<u8>::empty());
                    assert(body =~= field_bytes(hash@));
                }
                Some(ConsensusMessage::BlockRequest(hash))
            },
            None => {
                proof {
                    assert forall|v: MessageView| writable(v) implies #[trigger] message_bytes(v)
                        != bytes@ by {
                        if message_bytes(v) == bytes@ {
                            let wanted = v->BlockRequest_0;
                            assert(body == field_bytes(wanted) + Seq::<u8>::empty());
                        }
                    }
                }
                None
            },
        }
    } else if kind == 1 || kind == 2 {
        if bytes.len() != 84 {
            proof {
                assert forall|v: MessageView| writable(v) implies #[trigger] message_bytes(v)
                    != bytes@ by {}
            }
            return None;
        }
        let block = get_block(bytes, 4);
        assert(bytes@.subrange(4, 84) =~= body);
        if kind == 1 {
            Some(ConsensusMessage::BlockResponse(block))
        } else {
            Some(ConsensusMessage::NewBlock(block))
        }
    } else if kind == 3 {
        if bytes.len() != 12 {
            proof {
                assert forall|v: MessageView| writable(v) implies #[trigger] message_bytes(v)
                    != bytes@ by {}
            }
            return None;
        }
        let view = u64_from_le_bytes(slice_subrange(bytes, 4, 12));
        assert(bytes@.subrange(4, 12) =~= body);
        Some(ConsensusMessage::ViewChange(view))
    } else if kind == 4 || kind == 5 || kind == 6 {
        match get_keyed(bytes) {
            Some((view, key)) => {
                if kind == 4 {
                    Some(ConsensusMessage::LeaderProposal(view, key))
                } else if kind == 5 {
                    Some(ConsensusMessage::LeaderVote(view, key))
                } else {
                    Some(ConsensusMessage::LeaderAnnouncement(view, key))
                }
            },
            None => {
                proof {
                    assert forall|v: MessageView| writable(v) implies #[trigger] message_bytes(v)
                        != bytes@ by {
                        if message_bytes(v) == bytes@ {
                            match v {
                                MessageView::LeaderProposal(w, k) => {
                                    assert(body == spec_u64_to_le_bytes(w) + field_bytes(k));
                                },
                                MessageView::LeaderVote(w, k) => {
                                    assert(body == spec_u64_to_le_bytes(w) + field_bytes(k));
                                },
                                MessageView::LeaderAnnouncement(w, k) => {
                                    assert(body == spec_u64_to_le_bytes(w) + field_bytes(k));
                                },
                                _ => {},
                            }
                        }
                    }
                }
                None
            },
        }
    } else if kind == 7 || kind == 8 {
        match get_membership(bytes) {
            Some((public_key, region)) => {
                if kind == 7 {
                    Some(ConsensusMessage::ValidatorAnnounce { public_key, region })
                } else {
                    Some(ConsensusMessage::ValidatorLeave { public_key, region })
                }
            },
            None => {
                proof {
                    assert forall|v: MessageView| writable(v) implies #[trigger] message_bytes(v)
                        != bytes@ by {
                        if message_bytes(v) == bytes@ {
                            match v {
                                MessageView::ValidatorAnnounce { public_key, region } => {
                                    assert(body == field_bytes(public_key) + field_bytes(
                                        encode_utf8(region),
                                    ));
                                },
                                MessageView::ValidatorLeave { public_key, region } => {
                                    assert(body == field_bytes(public_key) + field_bytes(
                                        encode_utf8(region),
                                    ));
                                },
                                _ => {},
                            }
                        }
                    }
                }
                None
            },
        }
    } else {
        proof {
            assert forall|v: MessageView| writable(v) implies #[trigger] message_bytes(v)
                != bytes@ by {}
        }
        None
    }
}

} // verus!