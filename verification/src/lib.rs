//! Block lifecycle and leader selection for a proof-of-stake validator node.
//!
//! The crate holds the rules a node applies between its voting engine and its
//! network and disk: how blocks are built, checked, stored and found again,
//! which messages peers exchange, and which validator leads a round.

pub mod automaton;
pub mod bytes;
pub mod config;
pub mod consensus;
pub mod digest;
pub mod domain;
pub mod identity;
pub mod node;
pub mod regions;
pub mod storage;
pub mod types;
pub mod wire;
