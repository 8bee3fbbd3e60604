//! The vocabulary of the chain: networks, addresses, cities, tokens.

pub mod address;
pub mod block;
pub mod coin;
pub mod economics;
pub mod network;
pub mod region;
pub mod validator;
