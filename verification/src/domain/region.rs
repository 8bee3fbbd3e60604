//! The cities in which validators run.

use vstd::prelude::*;

verus! {

/// The kind of internet infrastructure of a city.
#[derive(Debug, Clone, Copy, PartialEq, Eq, Hash)]
pub enum NetworkCategory {
    RegionalInternetExchange,
}

/// The jurisdiction under which a validator runs.
#[derive(Debug, Clone, PartialEq, Eq, Hash)]
pub struct Jurisdiction {
    pub country: String,
    /// State or province.
    pub region: String,
}

/// A city in which validators run.
#[derive(Debug, Clone, PartialEq, Eq, Hash)]
pub struct ValidatorCity {
    pub name: String,
    pub category: NetworkCategory,
    pub jurisdiction: Jurisdiction,
    pub is_active: bool,
}

/// Latency in milliseconds between validators in Brisbane.
pub const BRISBANE_LATENCY_MS: u32 = 15;

/// Latency in milliseconds assumed between validators of any other city.
pub const DEFAULT_LATENCY_MS: u32 = 50;

impl ValidatorCity {
    /// Brisbane, the one active city.
    pub fn brisbane() -> (city: ValidatorCity)
        ensures
            city.name@ == "Brisbane"@,
            city.category == NetworkCategory::RegionalInternetExchange,
            city.jurisdiction.country@ == "Australia"@,
            city.jurisdiction.region@ == "Queensland"@,
            city.is_active,
    {
        ValidatorCity {
            name: "Brisbane".to_owned(),
            category: NetworkCategory::RegionalInternetExchange,
            jurisdiction: Jurisdiction {
                country: "Australia".to_owned(),
                region: "Queensland".to_owned(),
            },
            is_active: true,
        }
    }

    /// The latency in milliseconds to expect between validators of this
    /// city.
    pub fn internal_latency(&self) -> (latency: u32)
        ensures
            latency == if self.name@ == "Brisbane"@ {
                BRISBANE_LATENCY_MS
            } else {
                DEFAULT_LATENCY_MS
            },
    {
        let brisbane = "Brisbane".to_owned();
        if self.name == brisbane {
            15
        } else {
            50
        }
    }
}

impl Default for ValidatorCity {
    fn default() -> (city: ValidatorCity)
        ensures
            city.name@ == "Brisbane"@,
            city.is_active,
    {
        ValidatorCity::brisbane()
    }
}

} // verus!
