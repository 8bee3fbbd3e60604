//! What the chain knows of a validator.

use crate::domain::region::ValidatorCity;
use vstd::prelude::*;

verus! {

/// A validator: its key, where it runs and on what.
#[derive(Debug, Clone)]
pub struct ValidatorInfo {
    pub public_key: Vec<u8>,
    pub location: ValidatorCity,
    pub hardware_specs: HardwareRequirements,
    pub physical_proof: Option<PhysicalProof>,
    /// Tokens earned for each block produced.
    pub block_reward: u64,
}

impl ValidatorInfo {
    /// A validator without a proof of its hardware yet.
    pub fn new(
        public_key: Vec<u8>,
        location: ValidatorCity,
        hardware_specs: HardwareRequirements,
        block_reward: u64,
    ) -> (info: ValidatorInfo)
        ensures
            info.public_key == public_key,
            info.location == location,
            info.hardware_specs == hardware_specs,
            info.physical_proof is None,
            info.block_reward == block_reward,
    {
        ValidatorInfo { public_key, location, hardware_specs, physical_proof: None, block_reward }
    }

    /// Whether the validator runs in a city that is open to validators.
    pub fn validate_location(&self) -> (valid: bool)
        ensures
            valid == self.location.is_active,
    {
        self.location.is_active
    }
}

/// The least hardware a validator needs.
#[derive(Debug, Clone)]
pub struct HardwareRequirements {
    pub ram_gb: u32,
    pub cpu_cores: u32,
    pub storage_gb: u32,
    pub network_mbps: u32,
}

/// A proof that a validator runs on hardware of its own.
#[derive(Debug, Clone)]
pub struct PhysicalProof {
    pub proof_hash: String,
    /// Seconds since the epoch at which the proof was handed in.
    pub submission_date: u64,
    /// Seconds since the epoch at which the proof was last checked.
    pub last_verification: u64,
}

} // verus!
