//! What operations cost.

use vstd::prelude::*;

verus! {

/// The base cost of each operation, in the smallest unit of the token.
#[derive(Debug, Clone)]
pub struct OperationCosts {
    pub token_transfer: u64,
}

} // verus!
