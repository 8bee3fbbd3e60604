use commonware_cryptography::{Ed25519, Scheme};
use romer_chain::consensus::beacon::{BeaconConsensus, BeaconError};

fn key(seed: u64) -> Vec<u8> {
    Ed25519::from_seed(seed).public_key().to_vec()
}

fn setup_test_beacon() -> BeaconConsensus {
    BeaconConsensus::new(vec![
        "Frankfurt".to_string(),
        "London".to_string(),
        "Amsterdam".to_string(),
    ])
}

fn abc() -> BeaconConsensus {
    BeaconConsensus::new(vec!["A".to_string(), "B".to_string(), "C".to_string()])
}

#[test]
fn test_validator_registration() {
    let mut beacon = setup_test_beacon();
    let validator = key(1);

    assert!(beacon.register_validator("Frankfurt".to_string(), validator.clone()).is_ok());

    assert!(beacon.register_validator("Invalid".to_string(), validator).is_err());
}

#[test]
fn test_region_rotation() {
    let mut beacon = setup_test_beacon();

    let validator1 = key(1);
    let validator2 = key(2);
    let validator3 = key(3);

    beacon.register_validator("Frankfurt".to_string(), validator1).unwrap();
    beacon.register_validator("London".to_string(), validator2).unwrap();
    beacon.register_validator("Amsterdam".to_string(), validator3).unwrap();

    let leader1 = beacon.leader(0, ());
    let leader2 = beacon.leader(1, ());
    let leader3 = beacon.leader(2, ());

    assert!(leader1.is_some());
    assert!(leader2.is_some());
    assert!(leader3.is_some());

    assert_ne!(leader1, leader2);
    assert_ne!(leader2, leader3);
}

#[test]
fn test_empty_region_skipping() {
    let mut beacon = setup_test_beacon();

    let validator1 = key(1);
    let validator2 = key(2);

    beacon.register_validator("Frankfurt".to_string(), validator1).unwrap();
    beacon.register_validator("Amsterdam".to_string(), validator2).unwrap();

    let leader1 = beacon.leader(0, ());
    let leader2 = beacon.leader(1, ());

    assert!(leader1.is_some());
    assert!(leader2.is_some());
    assert_ne!(leader1, leader2);
}

#[test]
fn test_validator_removal() {
    let mut beacon = setup_test_beacon();
    let validator = key(1);
    let region = "Frankfurt".to_string();

    beacon.register_validator(region.clone(), validator.clone()).unwrap();
    assert!(beacon.remove_validator(&region, &validator).is_ok());

    assert!(beacon.get_region_validators(&region).unwrap().is_empty());
}

#[test]
fn unknown_region_is_reported_by_name() {
    let mut beacon = setup_test_beacon();
    match beacon.register_validator("Atlantis".to_string(), key(1)) {
        Err(BeaconError::InvalidRegion(name)) => assert_eq!(name, "Atlantis"),
        other => panic!("unexpected outcome {:?}", other),
    }
    assert_eq!(beacon.get_all_validators().unwrap().len(), 0);
    assert_eq!(beacon.participants(0), None);
}

#[test]
fn registering_twice_keeps_one_entry() {
    let mut beacon = setup_test_beacon();
    beacon.register_validator("London".to_string(), key(1)).unwrap();
    assert!(beacon.register_validator("London".to_string(), key(1)).is_ok());
    assert_eq!(beacon.get_region_validators("London").unwrap(), vec![key(1)]);
}

#[test]
fn a_validator_belongs_to_one_region() {
    let mut beacon = setup_test_beacon();
    beacon.register_validator("London".to_string(), key(1)).unwrap();
    assert!(matches!(
        beacon.register_validator("Frankfurt".to_string(), key(1)),
        Err(BeaconError::InvalidValidator)
    ));
    assert!(beacon.get_region_validators("Frankfurt").unwrap().is_empty());
    // after leaving, the validator may join elsewhere
    beacon.remove_validator("London", &key(1)).unwrap();
    assert!(beacon.register_validator("Frankfurt".to_string(), key(1)).is_ok());
    assert_eq!(beacon.get_region_validators("Frankfurt").unwrap(), vec![key(1)]);
}

#[test]
fn removing_an_absent_validator_changes_nothing() {
    let mut beacon = setup_test_beacon();
    beacon.register_validator("London".to_string(), key(1)).unwrap();
    beacon.register_validator("London".to_string(), key(2)).unwrap();
    assert!(beacon.remove_validator("London", &key(3)).is_ok());
    assert!(beacon.remove_validator("Frankfurt", &key(1)).is_ok());
    assert!(beacon.remove_validator("Atlantis", &key(1)).is_ok());
    assert_eq!(beacon.get_region_validators("London").unwrap(), vec![key(1), key(2)]);
    assert!(beacon.remove_validator("London", &key(1)).is_ok());
    assert!(beacon.remove_validator("London", &key(1)).is_ok());
    assert_eq!(beacon.get_region_validators("London").unwrap(), vec![key(2)]);
}

#[test]
fn empty_region_is_always_skipped() {
    let mut beacon = abc();
    beacon.register_validator("A".to_string(), key(1)).unwrap();
    beacon.register_validator("C".to_string(), key(3)).unwrap();
    assert_eq!(beacon.leader(0, ()), Some(key(1)));
    assert_eq!(beacon.leader(1, ()), Some(key(3)));
    assert_eq!(beacon.leader(2, ()), Some(key(1)));
    assert_eq!(beacon.leader(3, ()), Some(key(3)));
}

#[test]
fn removed_validator_leaves_its_region_to_be_skipped() {
    let mut beacon = abc();
    beacon.register_validator("A".to_string(), key(1)).unwrap();
    beacon.register_validator("B".to_string(), key(2)).unwrap();
    beacon.register_validator("C".to_string(), key(3)).unwrap();
    assert_eq!(beacon.leader(0, ()), Some(key(1)));
    beacon.remove_validator("B", &key(2)).unwrap();
    assert_eq!(beacon.leader(1, ()), Some(key(3)));
    assert_eq!(beacon.leader(2, ()), Some(key(1)));
}

#[test]
fn leader_within_a_region_goes_by_round() {
    let mut beacon = BeaconConsensus::new(vec!["A".to_string()]);
    beacon.register_validator("A".to_string(), key(1)).unwrap();
    beacon.register_validator("A".to_string(), key(2)).unwrap();
    beacon.register_validator("A".to_string(), key(3)).unwrap();
    assert_eq!(beacon.leader(0, ()), Some(key(1)));
    assert_eq!(beacon.leader(1, ()), Some(key(2)));
    assert_eq!(beacon.leader(2, ()), Some(key(3)));
    assert_eq!(beacon.leader(3, ()), Some(key(1)));
    assert_eq!(beacon.leader(7, ()), Some(key(2)));
    assert_eq!(beacon.leader(u64::MAX, ()), Some(key(1)));
}

#[test]
fn without_validators_there_is_no_leader() {
    let mut beacon = abc();
    assert_eq!(beacon.leader(0, ()), None);
    assert_eq!(beacon.candidate(0), None);
    assert_eq!(beacon.next_active_region(), None);
    let mut none = BeaconConsensus::new(vec![]);
    assert_eq!(none.leader(0, ()), None);
    assert_eq!(none.participants(0), None);
    assert!(none.register_validator("A".to_string(), key(1)).is_err());
    // a scan that finds nothing leaves the cursor where it was
    beacon.register_validator("B".to_string(), key(2)).unwrap();
    assert_eq!(beacon.next_active_region(), Some(1));
    beacon.register_validator("A".to_string(), key(1)).unwrap();
    beacon.register_validator("C".to_string(), key(3)).unwrap();
    assert_eq!(beacon.next_active_region(), Some(2));
    assert_eq!(beacon.next_active_region(), Some(0));
}

#[test]
fn candidate_does_not_move_the_rotation() {
    let mut beacon = abc();
    beacon.register_validator("A".to_string(), key(1)).unwrap();
    beacon.register_validator("C".to_string(), key(3)).unwrap();
    assert_eq!(beacon.candidate(0), Some(key(1)));
    assert_eq!(beacon.candidate(5), Some(key(1)));
    assert_eq!(beacon.leader(0, ()), Some(key(1)));
    assert_eq!(beacon.candidate(0), Some(key(3)));
    assert_eq!(beacon.leader(0, ()), Some(key(3)));
}

#[test]
fn participants_in_region_order_then_registration_order() {
    let mut beacon = abc();
    beacon.register_validator("C".to_string(), key(5)).unwrap();
    beacon.register_validator("A".to_string(), key(2)).unwrap();
    beacon.register_validator("C".to_string(), key(4)).unwrap();
    beacon.register_validator("A".to_string(), key(1)).unwrap();
    beacon.register_validator("B".to_string(), key(3)).unwrap();
    let expected = vec![key(2), key(1), key(3), key(5), key(4)];
    assert_eq!(beacon.get_all_validators().unwrap(), expected);
    assert_eq!(beacon.participants(0), Some(expected.clone()));
    assert_eq!(beacon.participants(99), Some(expected));
    assert_eq!(beacon.is_participant(0, &key(2)), Some(0));
    assert_eq!(beacon.is_participant(0, &key(1)), Some(1));
    assert_eq!(beacon.is_participant(0, &key(3)), Some(2));
    assert_eq!(beacon.is_participant(7, &key(5)), Some(3));
    assert_eq!(beacon.is_participant(0, &key(4)), Some(4));
    assert_eq!(beacon.is_participant(0, &key(6)), None);
}

#[test]
fn a_region_named_twice_shares_its_validators() {
    let mut beacon =
        BeaconConsensus::new(vec!["A".to_string(), "B".to_string(), "A".to_string()]);
    beacon.register_validator("A".to_string(), key(1)).unwrap();
    beacon.register_validator("B".to_string(), key(2)).unwrap();
    assert_eq!(beacon.get_all_validators().unwrap(), vec![key(1), key(2)]);
    assert_eq!(beacon.leader(0, ()), Some(key(1)));
    assert_eq!(beacon.leader(0, ()), Some(key(2)));
    assert_eq!(beacon.leader(0, ()), Some(key(1)));
    assert_eq!(beacon.leader(0, ()), Some(key(1)));
}
