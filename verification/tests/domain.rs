use romer_chain::domain::network::NetworkParameters;
use romer_chain::domain::region::{NetworkCategory, ValidatorCity};
use romer_chain::domain::validator::{HardwareRequirements, ValidatorInfo};

#[test]
fn test_brisbane_configuration() {
    let brisbane = ValidatorCity::brisbane();
    assert_eq!(brisbane.name, "Brisbane");
    assert_eq!(brisbane.jurisdiction.country, "Australia");
    assert_eq!(brisbane.jurisdiction.region, "Queensland");
    assert!(brisbane.is_active);
}

#[test]
fn brisbane_is_the_default_city() {
    assert_eq!(ValidatorCity::default(), ValidatorCity::brisbane());
    assert_eq!(ValidatorCity::brisbane().category, NetworkCategory::RegionalInternetExchange);
}

#[test]
fn latency_is_known_for_brisbane_only() {
    let brisbane = ValidatorCity::brisbane();
    assert_eq!(brisbane.internal_latency(), 15);
    let mut elsewhere = ValidatorCity::brisbane();
    elsewhere.name = "Perth".to_string();
    assert_eq!(elsewhere.internal_latency(), 50);
    elsewhere.name = "brisbane".to_string();
    assert_eq!(elsewhere.internal_latency(), 50);
}

#[test]
fn networks_differ_by_identifier() {
    let mainnet = NetworkParameters::mainnet();
    let testnet = NetworkParameters::testnet();
    assert_eq!(mainnet.network_id(), 0x3C);
    assert_eq!(testnet.network_id(), 0x3D);
    assert_eq!(mainnet.protocol_version(), 0x01);
    assert_eq!(testnet.protocol_version(), 0x01);
    assert_ne!(mainnet, testnet);
}

#[test]
fn a_new_validator_has_no_proof_yet() {
    let specs = HardwareRequirements { ram_gb: 32, cpu_cores: 8, storage_gb: 4000, network_mbps: 1000 };
    let info = ValidatorInfo::new(vec![7u8; 32], ValidatorCity::brisbane(), specs, 16);
    assert_eq!(info.public_key, vec![7u8; 32]);
    assert!(info.physical_proof.is_none());
    assert_eq!(info.block_reward, 16);
    assert_eq!(info.hardware_specs.cpu_cores, 8);
    assert!(info.validate_location());
    let mut closed = ValidatorCity::brisbane();
    closed.is_active = false;
    let specs = HardwareRequirements { ram_gb: 32, cpu_cores: 8, storage_gb: 4000, network_mbps: 1000 };
    assert!(!ValidatorInfo::new(vec![7u8; 32], closed, specs, 16).validate_location());
}
