//! The parameters that tell one network from another.

use vstd::prelude::*;

verus! {

/// Identifier of the main network.
pub const MAINNET_ID: u8 = 0x3C;

/// Identifier of the test network.
pub const TESTNET_ID: u8 = 0x3D;

/// Version of the protocol that both networks speak.
pub const PROTOCOL_VERSION: u8 = 0x01;

/// The parameters of a network.
#[derive(Debug, Clone, Copy, PartialEq, Eq)]
pub struct NetworkParameters {
    network_id: u8,
    protocol_version: u8,
}

impl NetworkParameters {
    /// The parameters of the main network.
    pub fn mainnet() -> (parameters: NetworkParameters)
        ensures
            parameters.spec_network_id() == MAINNET_ID,
            parameters.spec_protocol_version() == PROTOCOL_VERSION,
    {
        NetworkParameters { network_id: 0x3C, protocol_version: 0x01 }
    }

    /// The parameters of the test network.
    pub fn testnet() -> (parameters: NetworkParameters)
        ensures
            parameters.spec_network_id() == TESTNET_ID,
            parameters.spec_protocol_version() == PROTOCOL_VERSION,
    {
        NetworkParameters { network_id: 0x3D, protocol_version: 0x01 }
    }

    /// The identifier that prefixes addresses of this network.
    pub closed spec fn spec_network_id(&self) -> u8 {
        self.network_id
    }

    /// The version of the protocol.
    pub closed spec fn spec_protocol_version(&self) -> u8 {
        self.protocol_version
    }

    /// The identifier that prefixes addresses of this network.
    #[verifier::when_used_as_spec(spec_network_id)]
    pub fn network_id(&self) -> (id: u8)
        ensures
            id == self.spec_network_id(),
    {
        self.network_id
    }

    /// The version of the protocol.
    #[verifier::when_used_as_spec(spec_protocol_version)]
    pub fn protocol_version(&self) -> (version: u8)
        ensures
            version == self.spec_protocol_version(),
    {
        self.protocol_version
    }
}

} // verus!
