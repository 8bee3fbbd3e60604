//! The regions of the network and the registry that lists them.

use vstd::prelude::*;
use vstd::utf8::encode_utf8;

verus! {

/// The kind of a region.
#[derive(Debug, Clone, Copy, PartialEq, Eq, Hash, Structural)]
pub enum RegionCategory {
    MajorInternetExchange,
    SubmarineCableLanding,
    StrategicTerrestrialCrossing,
    RegionalInternetExchange,
    EmergingStrategicPoint,
}

/// The jurisdiction of a region.
#[derive(Debug, Clone, PartialEq, Eq, Hash)]
pub struct Jurisdiction {
    /// Country, or union of countries.
    pub primary: String,
    /// State, province or member country.
    pub subdivision: Option<String>,
}

/// What an optional string holds.
pub open spec fn text_of(text: Option<String>) -> Option<Seq<char>> {
    match text {
        Some(t) => Some(t@),
        None => None,
    }
}

impl Jurisdiction {
    /// A jurisdiction without a subdivision.
    pub fn new(primary: &str) -> (jurisdiction: Jurisdiction)
        ensures
            jurisdiction.primary@ == primary@,
            jurisdiction.subdivision is None,
    {
        Jurisdiction { primary: primary.to_owned(), subdivision: None }
    }

    /// A jurisdiction with a subdivision.
    pub fn with_subdivision(primary: &str, subdivision: &str) -> (jurisdiction: Jurisdiction)
        ensures
            jurisdiction.primary@ == primary@,
            text_of(jurisdiction.subdivision) == Some(subdivision@),
    {
        Jurisdiction { primary: primary.to_owned(), subdivision: Some(subdivision.to_owned()) }
    }

    /// Whether two jurisdictions name the same place.
    pub fn same_as(&self, other: &Jurisdiction) -> (same: bool)
        ensures
            same <==> self.primary@ == other.primary@ && text_of(self.subdivision) == text_of(
                other.subdivision,
            ),
    {
        if !(self.primary == other.primary) {
            return false;
        }
        match (&self.subdivision, &other.subdivision) {
            (Some(a), Some(b)) => *a == *b,
            (None, None) => true,
            _ => false,
        }
    }
}

/// A region of the network.
#[derive(Debug, Clone)]
pub struct Region {
    pub city: String,
    pub category: RegionCategory,
    pub jurisdiction: Jurisdiction,
    /// Notes on the region, as pairs of a key and a value. Of two pairs
    /// with one key the later counts.
    pub metadata: Vec<(String, String)>,
}

/// A region as contracts see it.
pub struct RegionView {
    pub city: Seq<char>,
    pub category: RegionCategory,
    pub primary: Seq<char>,
    pub subdivision: Option<Seq<char>>,
    pub metadata: Seq<(Seq<char>, Seq<char>)>,
}

/// The pairs of texts that a vector of pairs of strings holds.
pub open spec fn pairs_view(pairs: Seq<(String, String)>) -> Seq<(Seq<char>, Seq<char>)> {
    Seq::new(pairs.len(), |i: int| (pairs[i].0@, pairs[i].1@))
}

impl View for Region {
    type V = RegionView;

    open spec fn view(&self) -> RegionView {
        RegionView {
            city: self.city@,
            category: self.category,
            primary: self.jurisdiction.primary@,
            subdivision: text_of(self.jurisdiction.subdivision),
            metadata: pairs_view(self.metadata@),
        }
    }
}

impl Region {
    /// A region without notes.
    pub fn new(city: &str, category: RegionCategory, jurisdiction: Jurisdiction) -> (region: Region)
        ensures
            region@ == (RegionView {
                city: city@,
                category,
                primary: jurisdiction.primary@,
                subdivision: text_of(jurisdiction.subdivision),
                metadata: Seq::empty(),
            }),
    {
        let region = Region { city: city.to_owned(), category, jurisdiction, metadata: Vec::new() };
        assert(region@.metadata =~= Seq::empty());
        region
    }

    /// The region with one note more.
    pub fn with_metadata(self, key: &str, value: &str) -> (region: Region)
        ensures
            region@ == (RegionView { metadata: self@.metadata.push((key@, value@)), ..self@ }),
    {
        let mut region = self;
        region.metadata.push((key.to_owned(), value.to_owned()));
        assert(region@.metadata =~= self@.metadata.push((key@, value@)));
        region
    }
}

/// The lower-case form of an ASCII letter; any other byte is itself.
pub open spec fn ascii_lower(byte: u8) -> u8 {
    if 0x41 <= byte <= 0x5a {
        (byte + 32) as u8
    } else {
        byte
    }
}

/// Whether two byte strings are equal but for the case of ASCII letters.
pub open spec fn eq_ignoring_ascii_case(a: Seq<u8>, b: Seq<u8>) -> bool {
    a.len() == b.len() && forall|i: int| 0 <= i < a.len() ==> ascii_lower(a[i]) == ascii_lower(b[i])
}

/// Whether two city names are equal but for the case of ASCII letters.
pub open spec fn same_city(a: Seq<char>, b: Seq<char>) -> bool {
    eq_ignoring_ascii_case(encode_utf8(a), encode_utf8(b))
}

/// Compares two texts without regard to the case of ASCII letters.
pub fn eq_ignore_ascii_case(a: &str, b: &str) -> (same: bool)
    ensures
        same <==> same_city(a@, b@),
{
    let x = a.as_bytes();
    let y = b.as_bytes();
    if x.len() != y.len() {
        return false;
    }
    let mut i: usize = 0;
    while i < x.len()
        invariant
            i <= x.len(),
            x.len() == y.len(),
            x@ == encode_utf8(a@),
            y@ == encode_utf8(b@),
            forall|j: int| 0 <= j < i ==> ascii_lower(x@[j]) == ascii_lower(y@[j]),
        decreases x.len() - i,
    {
        let p = if 0x41 <= x[i] && x[i] <= 0x5a {
            x[i] + 32
        } else {
            x[i]
        };
        let q = if 0x41 <= y[i] && y[i] <= 0x5a {
            y[i] + 32
        } else {
            y[i]
        };
        if p != q {
            assert(ascii_lower(x@[i as int]) != ascii_lower(y@[i as int]));
            return false;
        }
        i += 1;
    }
    true
}

/// The regions that a vector of regions holds.
pub open spec fn regions_view(regions: Seq<Region>) -> Seq<RegionView> {
    Seq::new(regions.len(), |i: int| regions[i]@)
}

/// The regions that a vector of references holds.
pub open spec fn refs_view(regions: Seq<&Region>) -> Seq<RegionView> {
    Seq::new(regions.len(), |i: int| regions[i]@)
}

/// The test that the regions of `category` pass.
pub open spec fn of_category(category: RegionCategory) -> spec_fn(RegionView) -> bool {
    |region: RegionView| region.category == category
}

/// The test that the regions under the jurisdiction pass.
pub open spec fn under_jurisdiction(primary: Seq<char>, subdivision: Option<Seq<char>>) -> spec_fn(
    RegionView,
) -> bool {
    |region: RegionView| region.primary == primary && region.subdivision == subdivision
}

/// The regions of the network, in the order they are listed.
pub open spec fn catalogue() -> Seq<RegionView> {
    seq![
        RegionView { city: "Frankfurt"@, category: RegionCategory::MajorInternetExchange, primary: "European Union"@, subdivision: Some("Germany"@), metadata: seq![("exchange"@, "DE-CIX"@)] },
        RegionView { city: "Amsterdam"@, category: RegionCategory::MajorInternetExchange, primary: "European Union"@, subdivision: Some("Netherlands"@), metadata: seq![("exchange"@, "AMS-IX"@)] },
        RegionView { city: "London"@, category: RegionCategory::MajorInternetExchange, primary: "United Kingdom"@, subdivision: None, metadata: seq![("exchange"@, "LINX"@)] },
        RegionView { city: "Marseille"@, category: RegionCategory::SubmarineCableLanding, primary: "European Union"@, subdivision: Some("France"@), metadata: Seq::empty() },
        RegionView { city: "Los Angeles"@, category: RegionCategory::SubmarineCableLanding, primary: "United States"@, subdivision: Some("California"@), metadata: Seq::empty() },
        RegionView { city: "Stockholm"@, category: RegionCategory::StrategicTerrestrialCrossing, primary: "European Union"@, subdivision: Some("Sweden"@), metadata: Seq::empty() },
        RegionView { city: "Beijing"@, category: RegionCategory::StrategicTerrestrialCrossing, primary: "China"@, subdivision: None, metadata: Seq::empty() },
        RegionView { city: "Paris"@, category: RegionCategory::RegionalInternetExchange, primary: "European Union"@, subdivision: Some("France"@), metadata: seq![("exchange"@, "France-IX"@)] },
        RegionView { city: "Madrid"@, category: RegionCategory::RegionalInternetExchange, primary: "European Union"@, subdivision: Some("Spain"@), metadata: seq![("exchange"@, "ESPANIX"@)] },
        RegionView { city: "Dublin"@, category: RegionCategory::EmergingStrategicPoint, primary: "European Union"@, subdivision: Some("Ireland"@), metadata: Seq::empty() },
        RegionView { city: "Montreal"@, category: RegionCategory::EmergingStrategicPoint, primary: "Canada"@, subdivision: Some("Quebec"@), metadata: Seq::empty() },
        RegionView { city: "Ashburn VA"@, category: RegionCategory::MajorInternetExchange, primary: "United States"@, subdivision: Some("Federal"@), metadata: seq![("exchange"@, "Equinix"@)] },
        RegionView { city: "New York/NJ"@, category: RegionCategory::MajorInternetExchange, primary: "United States"@, subdivision: Some("Federal"@), metadata: seq![("exchange"@, "NYIIX"@)] },
        RegionView { city: "Tokyo"@, category: RegionCategory::MajorInternetExchange, primary: "Japan"@, subdivision: None, metadata: seq![("exchange"@, "JPNAP"@)] },
        RegionView { city: "Singapore"@, category: RegionCategory::MajorInternetExchange, primary: "Singapore"@, subdivision: None, metadata: seq![("exchange"@, "SGIX"@)] },
        RegionView { city: "Hong Kong"@, category: RegionCategory::MajorInternetExchange, primary: "Hong Kong SAR"@, subdivision: None, metadata: seq![("exchange"@, "HKIX"@)] },
        RegionView { city: "Sydney"@, category: RegionCategory::MajorInternetExchange, primary: "Australia"@, subdivision: None, metadata: seq![("exchange"@, "IX Australia"@)] },
        RegionView { city: "São Paulo"@, category: RegionCategory::MajorInternetExchange, primary: "Brazil"@, subdivision: None, metadata: seq![("exchange"@, "IX.br"@)] },
        RegionView { city: "Seattle"@, category: RegionCategory::SubmarineCableLanding, primary: "United States"@, subdivision: Some("Washington"@), metadata: Seq::empty() },
        RegionView { city: "Miami"@, category: RegionCategory::SubmarineCableLanding, primary: "United States"@, subdivision: Some("Florida"@), metadata: Seq::empty() },
        RegionView { city: "Toronto"@, category: RegionCategory::SubmarineCableLanding, primary: "Canada"@, subdivision: Some("Ontario"@), metadata: Seq::empty() },
        RegionView { city: "Dubai"@, category: RegionCategory::SubmarineCableLanding, primary: "UAE"@, subdivision: None, metadata: Seq::empty() },
        RegionView { city: "Mumbai"@, category: RegionCategory::SubmarineCableLanding, primary: "India"@, subdivision: None, metadata: Seq::empty() },
        RegionView { city: "Chennai"@, category: RegionCategory::SubmarineCableLanding, primary: "India"@, subdivision: None, metadata: Seq::empty() },
        RegionView { city: "Fortaleza"@, category: RegionCategory::SubmarineCableLanding, primary: "Brazil"@, subdivision: None, metadata: Seq::empty() },
        RegionView { city: "Manila"@, category: RegionCategory::SubmarineCableLanding, primary: "Philippines"@, subdivision: None, metadata: Seq::empty() },
        RegionView { city: "Warsaw"@, category: RegionCategory::StrategicTerrestrialCrossing, primary: "European Union"@, subdivision: Some("Poland"@), metadata: Seq::empty() },
        RegionView { city: "Istanbul"@, category: RegionCategory::StrategicTerrestrialCrossing, primary: "Turkey"@, subdivision: None, metadata: Seq::empty() },
        RegionView { city: "Cairo"@, category: RegionCategory::StrategicTerrestrialCrossing, primary: "Egypt"@, subdivision: None, metadata: Seq::empty() },
        RegionView { city: "Moscow"@, category: RegionCategory::StrategicTerrestrialCrossing, primary: "Russia"@, subdivision: None, metadata: Seq::empty() },
        RegionView { city: "Seoul"@, category: RegionCategory::StrategicTerrestrialCrossing, primary: "South Korea"@, subdivision: None, metadata: Seq::empty() },
        RegionView { city: "Taipei"@, category: RegionCategory::StrategicTerrestrialCrossing, primary: "Taiwan"@, subdivision: None, metadata: Seq::empty() },
        RegionView { city: "Jakarta"@, category: RegionCategory::StrategicTerrestrialCrossing, primary: "Indonesia"@, subdivision: None, metadata: Seq::empty() },
        RegionView { city: "Auckland"@, category: RegionCategory::StrategicTerrestrialCrossing, primary: "New Zealand"@, subdivision: None, metadata: Seq::empty() },
        RegionView { city: "Milan"@, category: RegionCategory::RegionalInternetExchange, primary: "European Union"@, subdivision: Some("Italy"@), metadata: seq![("exchange"@, "MIX"@)] },
        RegionView { city: "Vienna"@, category: RegionCategory::RegionalInternetExchange, primary: "European Union"@, subdivision: Some("Austria"@), metadata: seq![("exchange"@, "VIX"@)] },
        RegionView { city: "Prague"@, category: RegionCategory::RegionalInternetExchange, primary: "European Union"@, subdivision: Some("Czech Republic"@), metadata: seq![("exchange"@, "NIX.CZ"@)] },
        RegionView { city: "Copenhagen"@, category: RegionCategory::RegionalInternetExchange, primary: "European Union"@, subdivision: Some("Denmark"@), metadata: seq![("exchange"@, "Netnod"@)] },
        RegionView { city: "Helsinki"@, category: RegionCategory::RegionalInternetExchange, primary: "European Union"@, subdivision: Some("Finland"@), metadata: seq![("exchange"@, "FICIX"@)] },
        RegionView { city: "Tel Aviv"@, category: RegionCategory::RegionalInternetExchange, primary: "Israel"@, subdivision: None, metadata: seq![("exchange"@, "IIX"@)] },
        RegionView { city: "Johannesburg"@, category: RegionCategory::RegionalInternetExchange, primary: "South Africa"@, subdivision: None, metadata: seq![("exchange"@, "NAPAfrica"@)] },
        RegionView { city: "Lagos"@, category: RegionCategory::RegionalInternetExchange, primary: "Nigeria"@, subdivision: None, metadata: seq![("exchange"@, "IXPN"@)] },
        RegionView { city: "Nairobi"@, category: RegionCategory::EmergingStrategicPoint, primary: "Kenya"@, subdivision: None, metadata: Seq::empty() },
        RegionView { city: "Cape Town"@, category: RegionCategory::EmergingStrategicPoint, primary: "South Africa"@, subdivision: None, metadata: Seq::empty() },
        RegionView { city: "Panama City"@, category: RegionCategory::EmergingStrategicPoint, primary: "Panama"@, subdivision: None, metadata: Seq::empty() },
        RegionView { city: "Santiago"@, category: RegionCategory::EmergingStrategicPoint, primary: "Chile"@, subdivision: None, metadata: Seq::empty() },
        RegionView { city: "Vancouver"@, category: RegionCategory::EmergingStrategicPoint, primary: "Canada"@, subdivision: Some("British Columbia"@), metadata: Seq::empty() },
        RegionView { city: "Perth"@, category: RegionCategory::EmergingStrategicPoint, primary: "Australia"@, subdivision: None, metadata: Seq::empty() },
        RegionView { city: "Kuala Lumpur"@, category: RegionCategory::EmergingStrategicPoint, primary: "Malaysia"@, subdivision: None, metadata: Seq::empty() },
        RegionView { city: "Muscat"@, category: RegionCategory::EmergingStrategicPoint, primary: "Oman"@, subdivision: None, metadata: Seq::empty() },
    ]
}

/// The list of all regions.
#[derive(Debug, Clone)]
pub struct RegionRegistry {
    regions: Vec<Region>,
}

impl View for RegionRegistry {
    type V = Seq<RegionView>;

    closed spec fn view(&self) -> Seq<RegionView> {
        regions_view(self.regions@)
    }
}

impl RegionRegistry {
    /// The registry of the regions of the network.
    pub fn new() -> (registry: RegionRegistry)
        ensures
            registry@ == catalogue(),
    {
        let mut regions: Vec<Region> = Vec::new();
        regions.push(Region::new("Frankfurt", RegionCategory::MajorInternetExchange, Jurisdiction::with_subdivision("European Union", "Germany")).with_metadata("exchange", "DE-CIX"));
        regions.push(Region::new("Amsterdam", RegionCategory::MajorInternetExchange, Jurisdiction::with_subdivision("European Union", "Netherlands")).with_metadata("exchange", "AMS-IX"));
        regions.push(Region::new("London", RegionCategory::MajorInternetExchange, Jurisdiction::new("United Kingdom")).with_metadata("exchange", "LINX"));
        regions.push(Region::new("Marseille", RegionCategory::SubmarineCableLanding, Jurisdiction::with_subdivision("European Union", "France")));
        regions.push(Region::new("Los Angeles", RegionCategory::SubmarineCableLanding, Jurisdiction::with_subdivision("United States", "California")));
        regions.push(Region::new("Stockholm", RegionCategory::StrategicTerrestrialCrossing, Jurisdiction::with_subdivision("European Union", "Sweden")));
        regions.push(Region::new("Beijing", RegionCategory::StrategicTerrestrialCrossing, Jurisdiction::new("China")));
        regions.push(Region::new("Paris", RegionCategory::RegionalInternetExchange, Jurisdiction::with_subdivision("European Union", "France")).with_metadata("exchange", "France-IX"));
        regions.push(Region::new("Madrid", RegionCategory::RegionalInternetExchange, Jurisdiction::with_subdivision("European Union", "Spain")).with_metadata("exchange", "ESPANIX"));
        regions.push(Region::new("Dublin", RegionCategory::EmergingStrategicPoint, Jurisdiction::with_subdivision("European Union", "Ireland")));
        regions.push(Region::new("Montreal", RegionCategory::EmergingStrategicPoint, Jurisdiction::with_subdivision("Canada", "Quebec")));
        regions.push(Region::new("Ashburn VA", RegionCategory::MajorInternetExchange, Jurisdiction::with_subdivision("United States", "Federal")).with_metadata("exchange", "Equinix"));
        regions.push(Region::new("New York/NJ", RegionCategory::MajorInternetExchange, Jurisdiction::with_subdivision("United States", "Federal")).with_metadata("exchange", "NYIIX"));
        regions.push(Region::new("Tokyo", RegionCategory::MajorInternetExchange, Jurisdiction::new("Japan")).with_metadata("exchange", "JPNAP"));
        regions.push(Region::new("Singapore", RegionCategory::MajorInternetExchange, Jurisdiction::new("Singapore")).with_metadata("exchange", "SGIX"));
        regions.push(Region::new("Hong Kong", RegionCategory::MajorInternetExchange, Jurisdiction::new("Hong Kong SAR")).with_metadata("exchange", "HKIX"));
        regions.push(Region::new("Sydney", RegionCategory::MajorInternetExchange, Jurisdiction::new("Australia")).with_metadata("exchange", "IX Australia"));
        regions.push(Region::new("São Paulo", RegionCategory::MajorInternetExchange, Jurisdiction::new("Brazil")).with_metadata("exchange", "IX.br"));
        regions.push(Region::new("Seattle", RegionCategory::SubmarineCableLanding, Jurisdiction::with_subdivision("United States", "Washington")));
        regions.push(Region::new("Miami", RegionCategory::SubmarineCableLanding, Jurisdiction::with_subdivision("United States", "Florida")));
        regions.push(Region::new("Toronto", RegionCategory::SubmarineCableLanding, Jurisdiction::with_subdivision("Canada", "Ontario")));
        regions.push(Region::new("Dubai", RegionCategory::SubmarineCableLanding, Jurisdiction::new("UAE")));
        regions.push(Region::new("Mumbai", RegionCategory::SubmarineCableLanding, Jurisdiction::new("India")));
        regions.push(Region::new("Chennai", RegionCategory::SubmarineCableLanding, Jurisdiction::new("India")));
        regions.push(Region::new("Fortaleza", RegionCategory::SubmarineCableLanding, Jurisdiction::new("Brazil")));
        regions.push(Region::new("Manila", RegionCategory::SubmarineCableLanding, Jurisdiction::new("Philippines")));
        regions.push(Region::new("Warsaw", RegionCategory::StrategicTerrestrialCrossing, Jurisdiction::with_subdivision("European Union", "Poland")));
        regions.push(Region::new("Istanbul", RegionCategory::StrategicTerrestrialCrossing, Jurisdiction::new("Turkey")));
        regions.push(Region::new("Cairo", RegionCategory::StrategicTerrestrialCrossing, Jurisdiction::new("Egypt")));
        regions.push(Region::new("Moscow", RegionCategory::StrategicTerrestrialCrossing, Jurisdiction::new("Russia")));
        regions.push(Region::new("Seoul", RegionCategory::StrategicTerrestrialCrossing, Jurisdiction::new("South Korea")));
        regions.push(Region::new("Taipei", RegionCategory::StrategicTerrestrialCrossing, Jurisdiction::new("Taiwan")));
        regions.push(Region::new("Jakarta", RegionCategory::StrategicTerrestrialCrossing, Jurisdiction::new("Indonesia")));
        regions.push(Region::new("Auckland", RegionCategory::StrategicTerrestrialCrossing, Jurisdiction::new("New Zealand")));
        regions.push(Region::new("Milan", RegionCategory::RegionalInternetExchange, Jurisdiction::with_subdivision("European Union", "Italy")).with_metadata("exchange", "MIX"));
        regions.push(Region::new("Vienna", RegionCategory::RegionalInternetExchange, Jurisdiction::with_subdivision("European Union", "Austria")).with_metadata("exchange", "VIX"));
        regions.push(Region::new("Prague", RegionCategory::RegionalInternetExchange, Jurisdiction::with_subdivision("European Union", "Czech Republic")).with_metadata("exchange", "NIX.CZ"));
        regions.push(Region::new("Copenhagen", RegionCategory::RegionalInternetExchange, Jurisdiction::with_subdivision("European Union", "Denmark")).with_metadata("exchange", "Netnod"));
        regions.push(Region::new("Helsinki", RegionCategory::RegionalInternetExchange, Jurisdiction::with_subdivision("European Union", "Finland")).with_metadata("exchange", "FICIX"));
        regions.push(Region::new("Tel Aviv", RegionCategory::RegionalInternetExchange, Jurisdiction::new("Israel")).with_metadata("exchange", "IIX"));
        regions.push(Region::new("Johannesburg", RegionCategory::RegionalInternetExchange, Jurisdiction::new("South Africa")).with_metadata("exchange", "NAPAfrica"));
        regions.push(Region::new("Lagos", RegionCategory::RegionalInternetExchange, Jurisdiction::new("Nigeria")).with_metadata("exchange", "IXPN"));
        regions.push(Region::new("Nairobi", RegionCategory::EmergingStrategicPoint, Jurisdiction::new("Kenya")));
        regions.push(Region::new("Cape Town", RegionCategory::EmergingStrategicPoint, Jurisdiction::new("South Africa")));
        regions.push(Region::new("Panama City", RegionCategory::EmergingStrategicPoint, Jurisdiction::new("Panama")));
        regions.push(Region::new("Santiago", RegionCategory::EmergingStrategicPoint, Jurisdiction::new("Chile")));
        regions.push(Region::new("Vancouver", RegionCategory::EmergingStrategicPoint, Jurisdiction::with_subdivision("Canada", "British Columbia")));
        regions.push(Region::new("Perth", RegionCategory::EmergingStrategicPoint, Jurisdiction::new("Australia")));
        regions.push(Region::new("Kuala Lumpur", RegionCategory::EmergingStrategicPoint, Jurisdiction::new("Malaysia")));
        regions.push(Region::new("Muscat", RegionCategory::EmergingStrategicPoint, Jurisdiction::new("Oman")));
        let registry = RegionRegistry { regions };
        assert(registry@ =~= catalogue());
        registry
    }

    /// The regions of `category`, in the order they are listed.
    pub fn regions_by_category(&self, category: &RegionCategory) -> (found: Vec<&Region>)
        ensures
            refs_view(found@) == self@.filter(of_category(*category)),
    {
        let ghost keep = of_category(*category);
        let mut found: Vec<&Region> = Vec::new();
        let mut i: usize = 0;
        while i < self.regions.len()
            invariant
                i <= self.regions.len(),
                keep == of_category(*category),
                refs_view(found@) == self@.take(i as int).filter(keep),
            decreases self.regions.len() - i,
        {
            proof {
                lemma_filter_next(self@, keep, i as int);
            }
            if self.regions[i].category == *category {
                let ghost prior = refs_view(found@);
                found.push(&self.regions[i]);
                assert(refs_view(found@) =~= prior.push(self@[i as int]));
            }
            i += 1;
        }
        assert(self@.take(self.regions.len() as int) =~= self@);
        found
    }

    /// The regions under `jurisdiction`, in the order they are listed.
    pub fn regions_by_jurisdiction(&self, jurisdiction: &Jurisdiction) -> (found: Vec<&Region>)
        ensures
            refs_view(found@) == self@.filter(
                under_jurisdiction(jurisdiction.primary@, text_of(jurisdiction.subdivision)),
            ),
    {
        let ghost keep = under_jurisdiction(
            jurisdiction.primary@,
            text_of(jurisdiction.subdivision),
        );
        let mut found: Vec<&Region> = Vec::new();
        let mut i: usize = 0;
        while i < self.regions.len()
            invariant
                i <= self.regions.len(),
                keep == under_jurisdiction(
                    jurisdiction.primary@,
                    text_of(jurisdiction.subdivision),
                ),
                refs_view(found@) == self@.take(i as int).filter(keep),
            decreases self.regions.len() - i,
        {
            proof {
                lemma_filter_next(self@, keep, i as int);
            }
            if self.regions[i].jurisdiction.same_as(jurisdiction) {
                let ghost prior = refs_view(found@);
                found.push(&self.regions[i]);
                assert(refs_view(found@) =~= prior.push(self@[i as int]));
            }
            i += 1;
        }
        assert(self@.take(self.regions.len() as int) =~= self@);
        found
    }

    /// The first region whose city is `city`, without regard to the case
    /// of ASCII letters.
    pub fn region_by_city(&self, city: &str) -> (found: Option<&Region>)
        ensures
            match found {
                Some(region) => exists|i: int|
                    0 <= i < self@.len() && #[trigger] self@[i] == region@ && same_city(
                        region@.city,
                        city@,
                    ) && forall|j: int| 0 <= j < i ==> !same_city((#[trigger] self@[j]).city, city@),
                None => forall|j: int|
                    0 <= j < self@.len() ==> !same_city((#[trigger] self@[j]).city, city@),
            },
    {
        let mut i: usize = 0;
        while i < self.regions.len()
            invariant
                i <= self.regions.len(),
                forall|j: int| 0 <= j < i ==> !same_city((#[trigger] self@[j]).city, city@),
            decreases self.regions.len() - i,
        {
            if eq_ignore_ascii_case(self.regions[i].city.as_str(), city) {
                assert(self@[i as int] == self.regions[i as int]@);
                return Some(&self.regions[i]);
            }
            i += 1;
        }
        None
    }

    /// All regions, in the order they are listed.
    pub fn all_regions(&self) -> (all: &[Region])
        ensures
            regions_view(all@) == self@,
    {
        self.regions.as_slice()
    }
}

/// Filtering one region more keeps or drops that region.
proof fn lemma_filter_next(s: Seq<RegionView>, keep: spec_fn(RegionView) -> bool, i: int)
    requires
        0 <= i < s.len(),
    ensures
        s.take(i + 1).filter(keep) == if keep(s[i]) {
            s.take(i).filter(keep).push(s[i])
        } else {
            s.take(i).filter(keep)
        },
{
    reveal(Seq::filter);
    assert(s.take(i + 1).drop_last() =~= s.take(i));
}

/// Why a region was not found or not accepted.
#[derive(Debug, Clone)]
pub enum RegionError {
    RegionNotFound(String),
    InvalidJurisdiction(String),
}

} // verus!
