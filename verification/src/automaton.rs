//! A plain automaton for a network of one: its payloads are lines of text
//! that name the round they were built for.

use crate::bytes::{contains_bytes, copy_bytes, occurs_in, text_from_utf8};
use vstd::bytes::{spec_u64_to_le_bytes, u64_to_le_bytes};
use vstd::prelude::*;
use vstd::utf8::{encode_utf8, encode_utf8_valid_utf8, valid_utf8};

verus! {

/// The decimal digits of a number, in ASCII.
pub open spec fn decimal(n: nat) -> Seq<u8>
    decreases n,
{
    if n < 10 {
        seq![(48 + n) as u8]
    } else {
        decimal(n / 10).push((48 + n % 10) as u8)
    }
}

/// Writes a number in decimal digits.
pub fn to_decimal(n: u64) -> (digits: Vec<u8>)
    ensures
        digits@ == decimal(n as nat),
    decreases n,
{
    if n < 10 {
        let mut digits: Vec<u8> = Vec::new();
        digits.push(48 + n as u8);
        assert(digits@ =~= decimal(n as nat));
        digits
    } else {
        let mut digits = to_decimal(n / 10);
        digits.push(48 + (n % 10) as u8);
        digits
    }
}

/// The payload proposed in round `view` at time `timestamp`.
pub open spec fn block_text(view: u64, timestamp: u64) -> Seq<u8> {
    encode_utf8("Block at view "@) + decimal(view as nat) + encode_utf8(": "@) + decimal(
        timestamp as nat,
    )
}

/// The words by which a payload names round `view`.
pub open spec fn view_mark(view: u64) -> Seq<u8> {
    encode_utf8("view "@) + decimal(view as nat)
}

/// Whether a payload is valid in round `view`, where `is_text` tells
/// whether it is valid UTF-8: it is not empty, it is text, and it names
/// the round.
pub open spec fn names_view(payload: Seq<u8>, is_text: bool, view: u64) -> bool {
    payload.len() > 0 && is_text && occurs_in(view_mark(view), payload)
}

/// The notice that a payload was validated in round `view`.
pub open spec fn validation_text(view: u64, payload: Seq<u8>) -> Seq<u8> {
    encode_utf8("Block validated for view "@) + decimal(view as nat) + encode_utf8(": "@)
        + payload
}

/// The bytes of a number, most significant first.
pub open spec fn be_bytes(x: u64) -> Seq<u8> {
    spec_u64_to_le_bytes(x).reverse()
}

/// The first payload of a chain that begins at `genesis_time`, built by
/// the validator `public_key`: round 0 in four bytes, height 0 and the time
/// in eight bytes each, most significant byte first, three empty hashes of
/// 32 bytes, the key, and a utilization of zero in eight bytes.
pub open spec fn genesis_bytes(genesis_time: u64, public_key: Seq<u8>) -> Seq<u8> {
    Seq::new(4, |i: int| 0u8) + be_bytes(0) + be_bytes(genesis_time) + Seq::new(96, |i: int| 0u8)
        + public_key + Seq::new(8, |i: int| 0u8)
}

/// An answer to a verification, with the notice to broadcast where the
/// payload is valid.
#[derive(Debug)]
pub struct Verification {
    pub valid: bool,
    pub notice: Option<Vec<u8>>,
}

/// An automaton that proposes lines of text.
#[derive(Debug, Clone)]
pub struct BlockchainAutomaton {
    /// The public key of this validator.
    pub signer: Vec<u8>,
}

/// Appends `count` zero bytes.
fn push_zeros(buffer: &mut Vec<u8>, count: usize)
    ensures
        final(buffer)@ == old(buffer)@ + Seq::new(count as nat, |i: int| 0u8),
{
    let ghost before = buffer@;
    let mut i: usize = 0;
    while i < count
        invariant
            i <= count,
            buffer@ == before + Seq::new(i as nat, |j: int| 0u8),
        decreases count - i,
    {
        buffer.push(0);
        assert(buffer@ =~= before + Seq::new((i + 1) as nat, |j: int| 0u8));
        i += 1;
    }
}

/// Appends the bytes of `x`, most significant first.
fn push_be(buffer: &mut Vec<u8>, x: u64)
    ensures
        final(buffer)@ == old(buffer)@ + be_bytes(x),
{
    let ghost before = buffer@;
    let le = u64_to_le_bytes(x);
    let mut i: usize = 8;
    while i > 0
        invariant
            i <= 8,
            le@.len() == 8,
            le@ == spec_u64_to_le_bytes(x),
            buffer@ == before + le@.reverse().take(8 - i),
        decreases i,
    {
        i -= 1;
        buffer.push(le[i]);
        assert(buffer@ =~= before + le@.reverse().take(8 - i));
    }
    assert(le@.reverse().take(8) =~= le@.reverse());
}

impl BlockchainAutomaton {
    /// An automaton for the validator with the key `signer`.
    pub fn new(signer: Vec<u8>) -> (automaton: BlockchainAutomaton)
        ensures
            automaton.signer == signer,
    {
        BlockchainAutomaton { signer }
    }

    /// The first payload of a chain that begins at `genesis_time`.
    pub fn genesis(&self, genesis_time: u64) -> (payload: Vec<u8>)
        ensures
            payload@ == genesis_bytes(genesis_time, self.signer@),
    {
        let mut buffer: Vec<u8> = Vec::new();
        push_zeros(&mut buffer, 4);
        push_be(&mut buffer, 0);
        push_be(&mut buffer, genesis_time);
        push_zeros(&mut buffer, 96);
        buffer.extend_from_slice(self.signer.as_slice());
        push_zeros(&mut buffer, 8);
        assert(buffer@ =~= genesis_bytes(genesis_time, self.signer@));
        buffer
    }

    /// The payload to propose and broadcast in round `view` at time
    /// `timestamp`.
    pub fn propose(&self, view: u64, timestamp: u64) -> (payload: Vec<u8>)
        ensures
            payload@ == block_text(view, timestamp),
    {
        let mut buffer: Vec<u8> = Vec::new();
        buffer.extend_from_slice("Block at view ".as_bytes());
        let digits = to_decimal(view);
        buffer.extend_from_slice(digits.as_slice());
        buffer.extend_from_slice(": ".as_bytes());
        let stamp = to_decimal(timestamp);
        buffer.extend_from_slice(stamp.as_slice());
        assert(buffer@ =~= block_text(view, timestamp));
        buffer
    }

    /// Verifies a payload for round `view`: it must be text that names the
    /// round. A valid payload is answered with a notice to broadcast.
    pub fn verify(&self, view: u64, payload: &[u8]) -> (verification: Verification)
        ensures
            verification.valid == names_view(payload@, valid_utf8(payload@), view),
            match verification.notice {
                Some(notice) => verification.valid && notice@ == validation_text(view, payload@),
                None => !verification.valid,
            },
    {
        let is_text = match text_from_utf8(copy_bytes(payload)) {
            Some(text) => {
                proof {
                    encode_utf8_valid_utf8(text@);
                }
                true
            },
            None => false,
        };
        self.verify_text(view, payload, is_text)
    }

    /// Verifies a payload for round `view`, where `is_text` tells whether
    /// the payload is valid UTF-8.
    pub fn verify_text(&self, view: u64, payload: &[u8], is_text: bool) -> (verification:
        Verification)
        ensures
            verification.valid == names_view(payload@, is_text, view),
            match verification.notice {
                Some(notice) => verification.valid && notice@ == validation_text(view, payload@),
                None => !verification.valid,
            },
    {
        if payload.len() == 0 || !is_text {
            return Verification { valid: false, notice: None };
        }
        let digits = to_decimal(view);
        let mut mark: Vec<u8> = Vec::new();
        mark.extend_from_slice("view ".as_bytes());
        mark.extend_from_slice(digits.as_slice());
        assert(mark@ =~= view_mark(view));
        if !contains_bytes(payload, mark.as_slice()) {
            return Verification { valid: false, notice: None };
        }
        let mut notice: Vec<u8> = Vec::new();
        notice.extend_from_slice("Block validated for view ".as_bytes());
        notice.extend_from_slice(digits.as_slice());
        notice.extend_from_slice(": ".as_bytes());
        notice.extend_from_slice(payload);
        assert(notice@ =~= validation_text(view, payload@));
        Verification { valid: true, notice: Some(notice) }
    }

    /// The leader of every round: this validator.
    pub fn leader(&self, index: u64, seed: ()) -> (leader: Option<Vec<u8>>)
        ensures
            leader matches Some(key) && key@ == self.signer@,
    {
        Some(copy_bytes(self.signer.as_slice()))
    }

    /// The participants of a round: not known to this automaton.
    pub fn participants(&self, index: u64) -> (all: Option<Vec<Vec<u8>>>)
        ensures
            all is None,
    {
        None
    }

    /// The position of a candidate: every candidate stands first.
    pub fn is_participant(&self, index: u64, candidate: &[u8]) -> (position: Option<u32>)
        ensures
            position == Some(0u32),
    {
        Some(0)
    }
}

} // verus!
