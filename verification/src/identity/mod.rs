//! The key that identifies a node.

pub mod keys;
