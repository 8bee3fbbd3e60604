//! Addresses of accounts.
//!
//! An address is the last 20 bytes of the SHA-256 digest of a public key.
//! In text it is the network's identifier, the address and a checksum of
//! four bytes, all in Base58.

use crate::bytes::bytes_eq;
use crate::domain::network::NetworkParameters;
use sha2::Digest;
use vstd::prelude::*;

verus! {

/// Number of bytes of an address.
pub const ADDRESS_LEN: usize = 20;

/// Number of bytes of an address in text, before the Base58 encoding: the
/// network's identifier, the address and the checksum.
pub const ENCODED_LEN: usize = 25;

/// The digest that `sha2::Sha256` gives for a message.
pub uninterp spec fn sha2_256(message: Seq<u8>) -> Seq<u8>;

/// The text that `bs58` encodes bytes to, in its default alphabet.
pub uninterp spec fn base58(data: Seq<u8>) -> Seq<char>;

/// The bytes that `bs58` decodes a text to, in its default alphabet, and
/// nothing where it refuses the text.
pub uninterp spec fn base58_decoded(text: Seq<char>) -> Option<Seq<u8>>;

/// Calls `sha2::Sha256::digest` on `message`.
///
/// Nothing is proved of the digest. The contract names it, as [`sha2_256`]
/// of the message bytes, and states that it is 32 bytes long, as every
/// SHA-256 digest is.
#[verifier::external_body]
fn sha2_digest(message: &[u8]) -> (digest: Vec<u8>)
    ensures
        digest@ == sha2_256(message@),
        digest@.len() == 32,
{
    sha2::Sha256::digest(message).to_vec()
}

/// Calls `bs58::encode` on `data` and takes the result as a string.
///
/// Nothing is proved of the text: the contract names it, as [`base58`] of
/// the bytes.
#[verifier::external_body]
fn base58_encode(data: &[u8]) -> (text: String)
    ensures
        text@ == base58(data@),
{
    bs58::encode(data).into_string()
}

/// Calls `bs58::decode` on `text` and takes the result as a vector.
///
/// Nothing is proved of the bytes: the contract names the result, as
/// [`base58_decoded`] of the text, which is nothing where `bs58` reports
/// an error.
#[verifier::external_body]
fn base58_decode(text: &str) -> (data: Option<Vec<u8>>)
    ensures
        match data {
            Some(bytes) => base58_decoded(text@) == Some(bytes@),
            None => base58_decoded(text@) is None,
        },
{
    bs58::decode(text).into_vec().ok()
}

/// Why a text is not an address of a network.
#[derive(Debug, Clone, Copy, PartialEq, Eq)]
pub enum AddressError {
    /// The text is not Base58, or not of the length of an address.
    InvalidFormat,
    /// The checksum does not fit the address.
    InvalidChecksum,
    /// The address belongs to another network.
    WrongNetwork { expected: u8, actual: u8 },
}

/// The address of an account.
#[derive(Debug, Clone, PartialEq, Eq, Hash)]
pub struct Address {
    data: [u8; 20],
}

/// The bytes that are checked and encoded for the address `data` on the
/// network `network_id`.
pub open spec fn payload(network_id: u8, data: Seq<u8>) -> Seq<u8> {
    seq![network_id] + data
}

/// The checksum of a payload: the first four bytes of the digest of its
/// digest.
pub open spec fn checksum(payload: Seq<u8>) -> Seq<u8> {
    sha2_256(sha2_256(payload)).take(4)
}

/// The address `data` in text, for the network `network_id`.
pub open spec fn encoded(network_id: u8, data: Seq<u8>) -> Seq<char> {
    base58(payload(network_id, data) + checksum(payload(network_id, data)))
}

/// What [`Address::from_decoded`] answers for the bytes `bytes` and the
/// checksum `expected` of their first 21: the address bytes, or why there
/// are none.
pub open spec fn parsed_with(bytes: Seq<u8>, expected: Seq<u8>, network_id: u8) -> Result<
    Seq<u8>,
    AddressError,
> {
    if bytes.len() != ENCODED_LEN {
        Err(AddressError::InvalidFormat)
    } else if bytes[0] != network_id {
        Err(AddressError::WrongNetwork { expected: network_id, actual: bytes[0] })
    } else if bytes.subrange(21, 25) != expected {
        Err(AddressError::InvalidChecksum)
    } else {
        Ok(bytes.subrange(1, 21))
    }
}

/// What [`Address::from_string`] answers for a text that decodes to
/// `decoded`: the address bytes, or why there are none. A text that does
/// not decode has the wrong format.
pub open spec fn parsed(decoded: Option<Seq<u8>>, network_id: u8) -> Result<Seq<u8>, AddressError> {
    match decoded {
        None => Err(AddressError::InvalidFormat),
        Some(bytes) => parsed_with(bytes, checksum(bytes.take(21)), network_id),
    }
}

/// Computes the checksum of `payload`.
fn compute_checksum(payload: &[u8]) -> (sum: Vec<u8>)
    ensures
        sum@ == checksum(payload@),
{
    let first = sha2_digest(payload);
    let second = sha2_digest(first.as_slice());
    let mut sum: Vec<u8> = Vec::new();
    let mut i: usize = 0;
    while i < 4
        invariant
            i <= 4,
            second@.len() == 32,
            sum@ == second@.take(i as int),
        decreases 4 - i,
    {
        sum.push(second[i]);
        assert(second@.take(i as int).push(second@[i as int]) =~= second@.take(i + 1));
        i += 1;
    }
    sum
}

impl Address {
    /// The address bytes.
    pub closed spec fn bytes(&self) -> Seq<u8> {
        self.data@
    }

    /// The address of the account with the key `public_key`: the last 20
    /// bytes of the key's digest.
    pub fn from_public_key(public_key: &[u8]) -> (address: Address)
        ensures
            address.bytes() == sha2_256(public_key@).subrange(12, 32),
    {
        let digest = sha2_digest(public_key);
        match Address::from_digest(digest.as_slice()) {
            Some(address) => address,
            None => Address { data: [0u8; 20] },
        }
    }

    /// The address made of the last 20 bytes of a digest of 32 bytes;
    /// nothing for another length.
    pub fn from_digest(digest: &[u8]) -> (address: Option<Address>)
        ensures
            match address {
                Some(made) => digest@.len() == 32 && made.bytes() == digest@.subrange(12, 32),
                None => digest@.len() != 32,
            },
    {
        if digest.len() != 32 {
            return None;
        }
        let mut data = [0u8; 20];
        let mut i: usize = 0;
        while i < 20
            invariant
                i <= 20,
                digest@.len() == 32,
                forall|j: int| 0 <= j < i ==> data@[j] == digest@[j + 12],
            decreases 20 - i,
        {
            data[i] = digest[i + 12];
            i += 1;
        }
        assert(data@ =~= digest@.subrange(12, 32));
        Some(Address { data })
    }

    /// The bytes that are checked and encoded for the address on
    /// `network`: the network's identifier, then the address.
    pub fn payload(&self, network: &NetworkParameters) -> (bytes: Vec<u8>)
        ensures
            bytes@ == payload(network.network_id(), self.bytes()),
    {
        let mut bytes: Vec<u8> = Vec::new();
        bytes.push(network.network_id());
        let mut i: usize = 0;
        while i < 20
            invariant
                i <= 20,
                bytes@ == seq![network.network_id()] + self.data@.take(i as int),
            decreases 20 - i,
        {
            bytes.push(self.data[i]);
            assert(bytes@ =~= seq![network.network_id()] + self.data@.take(i + 1));
            i += 1;
        }
        assert(self.data@.take(20) =~= self.data@);
        bytes
    }

    /// The address in text, for `network`.
    pub fn to_string(&self, network: &NetworkParameters) -> (text: String)
        ensures
            text@ == encoded(network.network_id(), self.bytes()),
    {
        let mut bytes = self.payload(network);
        let ghost content = bytes@;
        let sum = compute_checksum(bytes.as_slice());
        bytes.extend_from_slice(sum.as_slice());
        assert(bytes@ =~= content + checksum(content));
        base58_encode(bytes.as_slice())
    }

    /// Reads an address of `network` from text.
    ///
    /// The text must be Base58 for 25 bytes: the identifier of `network`,
    /// the address, and the checksum of the two. The checks run in this
    /// order, and the first that fails is the answer.
    pub fn from_string(s: &str, network: &NetworkParameters) -> (outcome: Result<
        Address,
        AddressError,
    >)
        ensures
            match outcome {
                Ok(address) => parsed(base58_decoded(s@), network.network_id()) == Ok::<
                    Seq<u8>,
                    AddressError,
                >(address.bytes()),
                Err(e) => parsed(base58_decoded(s@), network.network_id()) == Err::<
                    Seq<u8>,
                    AddressError,
                >(e),
            },
    {
        let decoded = match base58_decode(s) {
            Some(decoded) => decoded,
            None => {
                return Err(AddressError::InvalidFormat);
            },
        };
        let sum = if decoded.len() == 25 {
            let mut content: Vec<u8> = Vec::new();
            let mut i: usize = 0;
            while i < 21
                invariant
                    i <= 21,
                    decoded@.len() == 25,
                    content@ == decoded@.take(i as int),
                decreases 21 - i,
            {
                content.push(decoded[i]);
                assert(decoded@.take(i as int).push(decoded@[i as int]) =~= decoded@.take(i + 1));
                i += 1;
            }
            compute_checksum(content.as_slice())
        } else {
            Vec::new()
        };
        Address::from_decoded(decoded.as_slice(), sum.as_slice(), network)
    }

    /// Reads an address of `network` from the 25 bytes that its text
    /// stands for, given the checksum of the first 21 of them. The checks
    /// run in this order, and the first that fails is the answer: the
    /// length, the network, the checksum.
    pub fn from_decoded(decoded: &[u8], expected_checksum: &[u8], network: &NetworkParameters) -> (outcome:
        Result<Address, AddressError>)
        ensures
            match outcome {
                Ok(address) => parsed_with(decoded@, expected_checksum@, network.network_id())
                    == Ok::<Seq<u8>, AddressError>(address.bytes()),
                Err(e) => parsed_with(decoded@, expected_checksum@, network.network_id()) == Err::<
                    Seq<u8>,
                    AddressError,
                >(e),
            },
    {
        if decoded.len() != 25 {
            return Err(AddressError::InvalidFormat);
        }
        let received = decoded[0];
        if received != network.network_id() {
            return Err(
                AddressError::WrongNetwork { expected: network.network_id(), actual: received },
            );
        }
        let mut received_sum: Vec<u8> = Vec::new();
        let mut k: usize = 21;
        while k < 25
            invariant
                21 <= k <= 25,
                decoded@.len() == 25,
                received_sum@ == decoded@.subrange(21, k as int),
            decreases 25 - k,
        {
            received_sum.push(decoded[k]);
            assert(decoded@.subrange(21, k as int).push(decoded@[k as int]) =~= decoded@.subrange(
                21,
                k + 1,
            ));
            k += 1;
        }
        if !bytes_eq(received_sum.as_slice(), expected_checksum) {
            return Err(AddressError::InvalidChecksum);
        }
        let mut data = [0u8; 20];
        let mut j: usize = 0;
        while j < 20
            invariant
                j <= 20,
                decoded@.len() == 25,
                forall|m: int| 0 <= m < j ==> data@[m] == decoded@[m + 1],
            decreases 20 - j,
        {
            data[j] = decoded[j + 1];
            j += 1;
        }
        assert(data@ =~= decoded@.subrange(1, 21));
        Ok(Address { data })
    }

    /// The address bytes.
    pub fn as_bytes(&self) -> (bytes: &[u8; 20])
        ensures
            bytes@ == self.bytes(),
    {
        &self.data
    }
}

} // verus!
