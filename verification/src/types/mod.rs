//! Plain data of the chain: blocks, regions and rewards.

pub mod block;
pub mod region;
pub mod reward;
