use romer_chain::regions::region::{CityRegion, RegionConfig, RegionError, RegionTypes};
use romer_chain::types::region::{
    eq_ignore_ascii_case, Jurisdiction, Region, RegionCategory, RegionRegistry,
};

#[test]
fn test_region_creation() {
    let region = Region::new(
        "Frankfurt",
        RegionCategory::MajorInternetExchange,
        Jurisdiction::with_subdivision("European Union", "Germany"),
    );

    assert_eq!(region.city, "Frankfurt");
    assert_eq!(region.category, RegionCategory::MajorInternetExchange);
    assert_eq!(region.jurisdiction.primary, "European Union");
    assert_eq!(region.jurisdiction.subdivision, Some("Germany".to_string()));
}

#[test]
fn test_region_registry() {
    let registry = RegionRegistry::new();

    let frankfurt = registry.region_by_city("Frankfurt");
    assert!(frankfurt.is_some());

    let major_exchanges = registry.regions_by_category(&RegionCategory::MajorInternetExchange);
    assert!(!major_exchanges.is_empty());

    let eu_regions = registry
        .regions_by_jurisdiction(&Jurisdiction::with_subdivision("European Union", "Germany"));
    assert!(!eu_regions.is_empty());
}

#[test]
fn test_city_display() {
    let mut city_regions = Vec::new();
    city_regions.push((
        "gold-coast".to_string(),
        CityRegion {
            city: "Gold Coast".to_string(),
            jurisdiction_country: "Australia".to_string(),
            jurisdiction_state: "Queensland".to_string(),
            flag: "\u{1f1e6}\u{1f1fa}".to_string(),
            internet_exchange: "IX Australia QLD".to_string(),
        },
    ));

    let region_types = RegionTypes { city: city_regions };
    let config = RegionConfig { regions: region_types };

    let display = config.get_city_display("gold-coast").unwrap();
    assert!(display.contains("\u{1f1e6}\u{1f1fa}"));
    assert!(display.contains("Gold Coast"));
    assert!(display.contains("Queensland"));
    assert!(display.contains("Australia"));
}

fn city(name: &str, flag: &str) -> CityRegion {
    CityRegion {
        city: name.to_string(),
        jurisdiction_country: "Australia".to_string(),
        jurisdiction_state: "Queensland".to_string(),
        flag: flag.to_string(),
        internet_exchange: "IX".to_string(),
    }
}

#[test]
fn city_display_is_exact() {
    let config = RegionConfig {
        regions: RegionTypes {
            city: vec![
                ("cairns".to_string(), city("Cairns", "AU")),
                ("gold-coast".to_string(), city("Gold Coast", "\u{1f1e6}\u{1f1fa}")),
                ("cairns".to_string(), city("Second", "XX")),
            ],
        },
    };
    assert_eq!(
        config.get_city_display("gold-coast"),
        Some("\u{1f1e6}\u{1f1fa} Gold Coast (Queensland, Australia)".to_string())
    );
    assert_eq!(
        config.get_city_display("cairns"),
        Some("AU Cairns (Queensland, Australia)".to_string())
    );
    assert_eq!(config.get_city_display("perth"), None);
    assert_eq!(config.get_city_display("Gold-Coast"), None);
}

fn reason(outcome: Result<(), RegionError>) -> String {
    match outcome {
        Err(RegionError::ValidationError(reason)) => reason,
        other => panic!("unexpected outcome {:?}", other),
    }
}

#[test]
fn region_config_rules() {
    let empty = RegionConfig { regions: RegionTypes { city: vec![] } };
    assert_eq!(reason(empty.validate()), "At least one city region must be defined");
    let fine = RegionConfig {
        regions: RegionTypes { city: vec![("a".to_string(), city("A", "f"))] },
    };
    assert!(fine.validate().is_ok());
    let nameless = RegionConfig {
        regions: RegionTypes {
            city: vec![("a".to_string(), city("A", "f")), ("b".to_string(), city("", ""))],
        },
    };
    assert_eq!(reason(nameless.validate()), "City region b must have a name");
    let flagless = RegionConfig {
        regions: RegionTypes {
            city: vec![("c".to_string(), city("C", "")), ("b".to_string(), city("", "f"))],
        },
    };
    assert_eq!(reason(flagless.validate()), "City region c must have a flag emoji");
}

#[test]
fn registry_lists_fifty_regions() {
    let registry = RegionRegistry::new();
    let all = registry.all_regions();
    assert_eq!(all.len(), 50);
    assert_eq!(all[0].city, "Frankfurt");
    assert_eq!(all[0].metadata, vec![("exchange".to_string(), "DE-CIX".to_string())]);
    assert_eq!(all[3].city, "Marseille");
    assert!(all[3].metadata.is_empty());
    assert_eq!(all[17].city, "S\u{e3}o Paulo");
    assert_eq!(all[49].city, "Muscat");
    assert_eq!(all[49].jurisdiction, Jurisdiction::new("Oman"));
    assert_eq!(all[49].category, RegionCategory::EmergingStrategicPoint);
}

#[test]
fn registry_by_category_and_jurisdiction() {
    let registry = RegionRegistry::new();
    let count = |category: RegionCategory| registry.regions_by_category(&category).len();
    assert_eq!(count(RegionCategory::MajorInternetExchange), 10);
    assert_eq!(count(RegionCategory::SubmarineCableLanding), 10);
    assert_eq!(count(RegionCategory::StrategicTerrestrialCrossing), 10);
    assert_eq!(count(RegionCategory::RegionalInternetExchange), 10);
    assert_eq!(count(RegionCategory::EmergingStrategicPoint), 10);
    let exchanges = registry.regions_by_category(&RegionCategory::MajorInternetExchange);
    let cities: Vec<&str> = exchanges.iter().map(|r| r.city.as_str()).collect();
    assert_eq!(
        cities,
        vec![
            "Frankfurt", "Amsterdam", "London", "Ashburn VA", "New York/NJ", "Tokyo", "Singapore",
            "Hong Kong", "Sydney", "S\u{e3}o Paulo"
        ]
    );
    let france = registry
        .regions_by_jurisdiction(&Jurisdiction::with_subdivision("European Union", "France"));
    let cities: Vec<&str> = france.iter().map(|r| r.city.as_str()).collect();
    assert_eq!(cities, vec!["Marseille", "Paris"]);
    let australia = registry.regions_by_jurisdiction(&Jurisdiction::new("Australia"));
    assert_eq!(australia.len(), 2);
    assert!(registry.regions_by_jurisdiction(&Jurisdiction::new("European Union")).is_empty());
    assert!(registry
        .regions_by_jurisdiction(&Jurisdiction::with_subdivision("Australia", "Queensland"))
        .is_empty());
}

#[test]
fn city_is_found_whatever_the_case() {
    let registry = RegionRegistry::new();
    assert_eq!(registry.region_by_city("frankfurt").unwrap().city, "Frankfurt");
    assert_eq!(registry.region_by_city("HONG KONG").unwrap().city, "Hong Kong");
    assert_eq!(registry.region_by_city("new york/nj").unwrap().city, "New York/NJ");
    assert_eq!(registry.region_by_city("s\u{e3}o paulo").unwrap().city, "S\u{e3}o Paulo");
    // only ASCII letters lose their case
    assert!(registry.region_by_city("S\u{c3}O PAULO").is_none());
    assert!(registry.region_by_city("Frankfur").is_none());
    assert!(registry.region_by_city("Frankfurt ").is_none());
    assert!(registry.region_by_city("").is_none());
    assert!(eq_ignore_ascii_case("aZ[`{", "Az[`{"));
    assert!(!eq_ignore_ascii_case("@", "`"));
    assert!(!eq_ignore_ascii_case("[", "{"));
}

#[test]
fn metadata_is_kept_in_order() {
    let region = Region::new("X", RegionCategory::EmergingStrategicPoint, Jurisdiction::new("Y"))
        .with_metadata("exchange", "A")
        .with_metadata("note", "B");
    assert_eq!(
        region.metadata,
        vec![
            ("exchange".to_string(), "A".to_string()),
            ("note".to_string(), "B".to_string())
        ]
    );
    assert!(Jurisdiction::new("Y").same_as(&Jurisdiction::new("Y")));
    assert!(!Jurisdiction::new("Y").same_as(&Jurisdiction::with_subdivision("Y", "Z")));
    assert!(!Jurisdiction::with_subdivision("Y", "Z").same_as(&Jurisdiction::with_subdivision("Y", "W")));
    assert!(Jurisdiction::with_subdivision("Y", "Z").same_as(&Jurisdiction::with_subdivision("Y", "Z")));
}
