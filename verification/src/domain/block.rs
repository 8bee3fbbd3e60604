//! Transactions as blocks carry them.

use vstd::prelude::*;

verus! {

/// A transaction.
#[derive(Debug, Clone)]
pub struct Transaction {
    pub transaction_type: TransactionType,
    /// Address of the sender, in Base58.
    pub from: String,
    /// Sequence number of the transaction at its sender.
    pub nonce: u64,
    pub gas_amount: u64,
    /// Signature of the sender over the transaction.
    pub signature: Vec<u8>,
}

/// What a transaction does.
#[derive(Debug, Clone)]
pub enum TransactionType {
    /// Moves `amount`, in the smallest unit of the token, to the address
    /// `to`.
    TokenTransfer { to: String, amount: u64 },
}

} // verus!
