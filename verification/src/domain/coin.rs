//! The token and how its first supply is shared out.

use vstd::prelude::*;

verus! {

/// The token of the chain.
#[derive(Debug, Clone)]
pub struct TokenConfig {
    pub name: String,
    pub symbol: String,
    /// Number of decimal places of one token.
    pub decimals: u8,
    /// Supply at genesis.
    pub initial_supply: u64,
    pub distribution: TokenDistribution,
}

/// The shares of the supply at genesis.
#[derive(Debug, Clone)]
pub struct TokenDistribution {
    pub treasury: u64,
    pub mainnet_contributors: u64,
    pub burn_reserve: u64,
}

} // verus!
