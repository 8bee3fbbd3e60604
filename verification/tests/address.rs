use commonware_cryptography::{Ed25519, Scheme};
use romer_chain::domain::address::{Address, AddressError};
use romer_chain::domain::network::NetworkParameters;

#[test]
fn test_address_roundtrip() {
    let network = NetworkParameters::mainnet();
    let signer = Ed25519::from_seed(42);
    let addr = Address::from_public_key(&signer.public_key());
    let encoded = addr.to_string(&network);
    let decoded = Address::from_string(&encoded, &network).unwrap();
    assert_eq!(addr, decoded);
}

#[test]
fn test_wrong_network() {
    let mainnet = NetworkParameters::mainnet();
    let testnet = NetworkParameters::testnet();

    let signer = Ed25519::from_seed(42);
    let addr = Address::from_public_key(&signer.public_key());
    let encoded = addr.to_string(&mainnet);

    assert!(matches!(
        Address::from_string(&encoded, &testnet),
        Err(AddressError::WrongNetwork { .. })
    ));
}

fn sample_key() -> Vec<u8> {
    (0u8..32).collect()
}

#[test]
fn address_is_the_end_of_the_keys_digest() {
    let addr = Address::from_public_key(&sample_key());
    let expected: [u8; 20] = [
        187, 178, 91, 79, 244, 18, 164, 156, 115, 45, 178, 200, 171, 193, 184, 88, 27, 215, 16, 221,
    ];
    assert_eq!(addr.as_bytes(), &expected);
    let mut digest = [0u8; 32];
    digest[12..].copy_from_slice(&expected);
    assert_eq!(Address::from_digest(&digest), Some(addr));
    assert_eq!(Address::from_digest(&digest[..31]), None);
    assert_eq!(Address::from_digest(&[0u8; 33]), None);
}

#[test]
fn address_text_by_network() {
    let addr = Address::from_public_key(&sample_key());
    assert_eq!(addr.to_string(&NetworkParameters::mainnet()), "RSPe6pznTruf8qT1DAoRtCryc8T4kswmcp");
    assert_eq!(addr.to_string(&NetworkParameters::testnet()), "RqjF5wJ5B3NXxGb6Eb8kNL8mEdi1UQ6hKN");
    let mut payload = vec![0x3Cu8];
    payload.extend_from_slice(addr.as_bytes());
    assert_eq!(addr.payload(&NetworkParameters::mainnet()), payload);
}

#[test]
fn address_is_read_back_from_text() {
    let addr = Address::from_public_key(&sample_key());
    assert_eq!(
        Address::from_string("RSPe6pznTruf8qT1DAoRtCryc8T4kswmcp", &NetworkParameters::mainnet()),
        Ok(addr.clone())
    );
    assert_eq!(
        Address::from_string("RqjF5wJ5B3NXxGb6Eb8kNL8mEdi1UQ6hKN", &NetworkParameters::testnet()),
        Ok(addr)
    );
}

#[test]
fn address_errors_in_order() {
    let mainnet = NetworkParameters::mainnet();
    // not Base58: the characters 0, O, I and l are not in the alphabet
    assert_eq!(Address::from_string("0OIl", &mainnet), Err(AddressError::InvalidFormat));
    // Base58, but not 25 bytes
    assert_eq!(Address::from_string("abc", &mainnet), Err(AddressError::InvalidFormat));
    assert_eq!(Address::from_string("", &mainnet), Err(AddressError::InvalidFormat));
    // another network
    assert_eq!(
        Address::from_string("RqjF5wJ5B3NXxGb6Eb8kNL8mEdi1UQ6hKN", &mainnet),
        Err(AddressError::WrongNetwork { expected: 0x3C, actual: 0x3D })
    );
    // one character changed: the checksum no longer fits
    assert_eq!(
        Address::from_string("RSPe6pznTruf8qT1DAoRtCryc8T4kswmcq", &mainnet),
        Err(AddressError::InvalidChecksum)
    );
}

#[test]
fn decoded_bytes_are_checked_in_order() {
    let mainnet = NetworkParameters::mainnet();
    let mut decoded = vec![0x3Cu8];
    decoded.extend_from_slice(&[7u8; 20]);
    decoded.extend_from_slice(&[1, 2, 3, 4]);
    let address = Address::from_decoded(&decoded, &[1, 2, 3, 4], &mainnet).unwrap();
    assert_eq!(address.as_bytes(), &[7u8; 20]);
    assert_eq!(
        Address::from_decoded(&decoded, &[1, 2, 3, 5], &mainnet),
        Err(AddressError::InvalidChecksum)
    );
    assert_eq!(
        Address::from_decoded(&decoded, &[1, 2, 3], &mainnet),
        Err(AddressError::InvalidChecksum)
    );
    assert_eq!(
        Address::from_decoded(&decoded, &[9, 9, 9, 9], &NetworkParameters::testnet()),
        Err(AddressError::WrongNetwork { expected: 0x3D, actual: 0x3C })
    );
    assert_eq!(
        Address::from_decoded(&decoded[..24], &[1, 2, 3, 4], &mainnet),
        Err(AddressError::InvalidFormat)
    );
    decoded.push(0);
    assert_eq!(
        Address::from_decoded(&decoded, &[1, 2, 3, 4], &mainnet),
        Err(AddressError::InvalidFormat)
    );
}
