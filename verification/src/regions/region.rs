//! The configured city regions and how they are shown.

use vstd::prelude::*;
use vstd::string::StringExecFns;

verus! {

/// Why the configuration of regions was not accepted.
#[derive(Debug, Clone)]
pub enum RegionError {
    /// The configuration could not be read.
    IoError(String),
    /// The configuration is not in the expected format.
    ParseError(String),
    /// The configuration breaks a rule.
    ValidationError(String),
}

/// A city in which validators run.
#[derive(Debug, Clone)]
pub struct CityRegion {
    pub city: String,
    pub jurisdiction_country: String,
    pub jurisdiction_state: String,
    pub flag: String,
    pub internet_exchange: String,
}

/// The regions of each kind.
#[derive(Debug, Clone)]
pub struct RegionTypes {
    /// The city regions, each under its identifier. Of two regions under
    /// one identifier the first counts.
    pub city: Vec<(String, CityRegion)>,
}

/// The configuration of regions.
#[derive(Debug, Clone)]
pub struct RegionConfig {
    pub regions: RegionTypes,
}

/// How a city region is shown: its flag, its city, and in brackets its
/// state and its country.
pub open spec fn display(region: CityRegion) -> Seq<char> {
    region.flag@ + " "@ + region.city@ + " ("@ + region.jurisdiction_state@ + ", "@
        + region.jurisdiction_country@ + ")"@
}

/// The identifiers of the configured city regions.
pub open spec fn identifiers(cities: Seq<(String, CityRegion)>) -> Seq<Seq<char>> {
    Seq::new(cities.len(), |i: int| cities[i].0@)
}

/// Whether the city region at position `i` lacks its name.
pub open spec fn nameless(cities: Seq<(String, CityRegion)>, i: int) -> bool {
    cities[i].1.city@.len() == 0
}

/// Whether the city region at position `i` lacks its flag.
pub open spec fn flagless(cities: Seq<(String, CityRegion)>, i: int) -> bool {
    cities[i].1.flag@.len() == 0
}

/// Whether every city region before position `i` has a name and a flag.
pub open spec fn sound_before(cities: Seq<(String, CityRegion)>, i: int) -> bool {
    forall|j: int| 0 <= j < i ==> !nameless(cities, j) && !flagless(cities, j)
}

impl RegionConfig {
    /// Checks the configuration: there is a city region, and each has a
    /// name and a flag. The first region that lacks one is reported, and
    /// of a region that lacks both the name.
    pub fn validate(&self) -> (outcome: Result<(), RegionError>)
        ensures
            match outcome {
                Ok(()) => self.regions.city@.len() > 0 && sound_before(
                    self.regions.city@,
                    self.regions.city@.len() as int,
                ),
                Err(RegionError::ValidationError(reason)) => {
                    ||| self.regions.city@.len() == 0 && reason@
                        == "At least one city region must be defined"@
                    ||| exists|i: int|
                        0 <= i < self.regions.city@.len() && sound_before(self.regions.city@, i)
                            && #[trigger] nameless(self.regions.city@, i) && reason@
                            == "City region "@ + self.regions.city@[i].0@ + " must have a name"@
                    ||| exists|i: int|
                        0 <= i < self.regions.city@.len() && sound_before(self.regions.city@, i)
                            && !nameless(self.regions.city@, i) && #[trigger] flagless(
                            self.regions.city@,
                            i,
                        ) && reason@ == "City region "@ + self.regions.city@[i].0@
                            + " must have a flag emoji"@
                },
                Err(_) => false,
            },
    {
        let cities = &self.regions.city;
        if cities.len() == 0 {
            return Err(
                RegionError::ValidationError("At least one city region must be defined".to_owned()),
            );
        }
        let mut i: usize = 0;
        while i < cities.len()
            invariant
                i <= cities.len(),
                cities@ == self.regions.city@,
                sound_before(cities@, i as int),
            decreases cities.len() - i,
        {
            if cities[i].1.city.as_str().is_empty() {
                let reason = "City region ".to_owned().concat(cities[i].0.as_str()).concat(
                    " must have a name",
                );
                assert(nameless(cities@, i as int));
                return Err(RegionError::ValidationError(reason));
            }
            if cities[i].1.flag.as_str().is_empty() {
                let reason = "City region ".to_owned().concat(cities[i].0.as_str()).concat(
                    " must have a flag emoji",
                );
                assert(flagless(cities@, i as int));
                return Err(RegionError::ValidationError(reason));
            }
            i += 1;
        }
        Ok(())
    }

    /// How the city region under `region_id` is shown; nothing where no
    /// region stands under that identifier.
    pub fn get_city_display(&self, region_id: &str) -> (shown: Option<String>)
        ensures
            match shown {
                Some(text) => exists|i: int|
                    0 <= i < self.regions.city@.len() && #[trigger] identifiers(
                        self.regions.city@,
                    )[i] == region_id@ && text@ == display(self.regions.city@[i].1) && forall|
                        j: int,
                    |
                        0 <= j < i ==> #[trigger] identifiers(self.regions.city@)[j] != region_id@,
                None => !identifiers(self.regions.city@).contains(region_id@),
            },
    {
        let wanted = region_id.to_owned();
        let cities = &self.regions.city;
        let mut i: usize = 0;
        while i < cities.len()
            invariant
                i <= cities.len(),
                cities@ == self.regions.city@,
                wanted@ == region_id@,
                forall|j: int| 0 <= j < i ==> #[trigger] identifiers(cities@)[j] != region_id@,
            decreases cities.len() - i,
        {
            if cities[i].0 == wanted {
                let region = &cities[i].1;
                let text = region.flag.clone().concat(" ").concat(region.city.as_str()).concat(
                    " (",
                ).concat(region.jurisdiction_state.as_str()).concat(", ").concat(
                    region.jurisdiction_country.as_str(),
                ).concat(")");
                assert(identifiers(cities@)[i as int] == region_id@);
                return Some(text);
            }
            i += 1;
        }
        None
    }
}

} // verus!
