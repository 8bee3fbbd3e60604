//! SHA-256 digests, computed by `commonware_utils`.

use vstd::prelude::*;

verus! {

/// The digest that `commonware_utils::hash` gives for a message.
pub uninterp spec fn sha256(message: Seq<u8>) -> Seq<u8>;

/// Calls `commonware_utils::hash`, which runs SHA-256 over `message`.
///
/// Nothing is proved of the digest. The contract names it, as [`sha256`] of
/// the message bytes, and states that it is 32 bytes long, as every SHA-256
/// digest is.
#[verifier::external_body]
pub(crate) fn sha256_digest(message: &[u8]) -> (digest: Vec<u8>)
    ensures
        digest@ == sha256(message@),
        digest@.len() == 32,
{
    commonware_utils::hash(message)
}

} // verus!
