//! The regions that an operator configures.

pub mod region;
