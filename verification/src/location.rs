//! The catalog of known countries and the continent of each.

use crate::text::{chars_of, lowercased, same_text, to_lower, trim, trimmed};
use vstd::prelude::*;
use vstd::string::StringExecFns;

verus! {

/// The countries that a transaction can name.
#[derive(Debug, Clone, Copy, PartialEq, Eq, Structural, Hash)]
pub enum Country {
    UnitedStates,
    Canada,
    UnitedKingdom,
    Germany,
    France,
    Japan,
    Australia,
    China,
    Brazil,
    SouthKorea,
    Ireland,
    Spain,
    India,
    Switzerland,
}

/// The continents by which transactions are grouped.
#[derive(Debug, Clone, Copy, PartialEq, Eq, Structural, Hash)]
pub enum Continent {
    NorthAmerica,
    Europe,
    Asia,
    Oceania,
    SouthAmerica,
}

/// The continent on which `country` lies.
pub open spec fn continent_of(country: Country) -> Continent {
    match country {
        Country::UnitedStates | Country::Canada => Continent::NorthAmerica,
        Country::UnitedKingdom | Country::Germany | Country::France | Country::Spain | Country::Switzerland | Country::Ireland => Continent::Europe,
        Country::Japan | Country::China | Country::SouthKorea | Country::India => Continent::Asia,
        Country::Australia => Continent::Oceania,
        Country::Brazil => Continent::SouthAmerica,
    }
}

/// The full English name of `country`.
pub open spec fn full_name_of(country: Country) -> Seq<char> {
    match country {
        Country::UnitedStates => "United States"@,
        Country::Canada => "Canada"@,
        Country::UnitedKingdom => "United Kingdom"@,
        Country::Germany => "Germany"@,
        Country::France => "France"@,
        Country::Japan => "Japan"@,
        Country::Australia => "Australia"@,
        Country::China => "China"@,
        Country::Brazil => "Brazil"@,
        Country::SouthKorea => "South Korea"@,
        Country::Ireland => "Ireland"@,
        Country::Spain => "Spain"@,
        Country::India => "India"@,
        Country::Switzerland => "Switzerland"@,
    }
}

/// The country that the normalized text `alias` names: a full name, a
/// common abbreviation or a country code, in lower case and without
/// surrounding whitespace.
pub open spec fn alias_country(alias: Seq<char>) -> Option<Country> {
    if alias == "usa"@
        || alias == "united states"@
        || alias == "unitedstates"@
        || alias == "us"@
        || alias == "america"@ {
        Some(Country::UnitedStates)
    } else if alias == "canada"@
        || alias == "can"@ {
        Some(Country::Canada)
    } else if alias == "uk"@
        || alias == "united kingdom"@
        || alias == "unitedkingdom"@
        || alias == "britain"@
        || alias == "great britain"@ {
        Some(Country::UnitedKingdom)
    } else if alias == "germany"@
        || alias == "deutschland"@
        || alias == "de"@ {
        Some(Country::Germany)
    } else if alias == "france"@
        || alias == "fr"@ {
        Some(Country::France)
    } else if alias == "japan"@
        || alias == "jp"@ {
        Some(Country::Japan)
    } else if alias == "australia"@
        || alias == "au"@
        || alias == "aus"@ {
        Some(Country::Australia)
    } else if alias == "china"@
        || alias == "cn"@
        || alias == "prc"@ {
        Some(Country::China)
    } else if alias == "brazil"@
        || alias == "brasil"@
        || alias == "br"@ {
        Some(Country::Brazil)
    } else if alias == "south korea"@
        || alias == "southkorea"@
        || alias == "korea"@
        || alias == "kr"@
        || alias == "republic of korea"@ {
        Some(Country::SouthKorea)
    } else if alias == "ireland"@
        || alias == "ie"@
        || alias == "eire"@ {
        Some(Country::Ireland)
    } else if alias == "spain"@
        || alias == "es"@
        || alias == "españa"@ {
        Some(Country::Spain)
    } else if alias == "india"@
        || alias == "in"@ {
        Some(Country::India)
    } else if alias == "switzerland"@
        || alias == "ch"@
        || alias == "schweiz"@ {
        Some(Country::Switzerland)
    } else {
        None
    }
}

/// The country that `text` names, whatever its case and the whitespace
/// around it.
pub open spec fn country_of_text(text: Seq<char>) -> Option<Country> {
    alias_country(lowercased(trimmed(text)))
}

impl Country {
    /// Maps the country to its continent. Every country has exactly one.
    pub fn country_to_continent(&self) -> (r: Continent)
        ensures
            r == continent_of(*self),
    {
        match self {
            Country::UnitedStates | Country::Canada => Continent::NorthAmerica,
            Country::UnitedKingdom | Country::Germany | Country::France | Country::Spain | Country::Switzerland | Country::Ireland => Continent::Europe,
            Country::Japan | Country::China | Country::SouthKorea | Country::India => Continent::Asia,
            Country::Australia => Continent::Oceania,
            Country::Brazil => Continent::SouthAmerica,
        }
    }

    /// The full English name of the country.
    pub fn full_name(&self) -> (r: &str)
        ensures
            r@ == full_name_of(*self),
    {
        match self {
            Country::UnitedStates => "United States",
            Country::Canada => "Canada",
            Country::UnitedKingdom => "United Kingdom",
            Country::Germany => "Germany",
            Country::France => "France",
            Country::Japan => "Japan",
            Country::Australia => "Australia",
            Country::China => "China",
            Country::Brazil => "Brazil",
            Country::SouthKorea => "South Korea",
            Country::Ireland => "Ireland",
            Country::Spain => "Spain",
            Country::India => "India",
            Country::Switzerland => "Switzerland",
        }
    }

    /// Looks a normalized alias up in the catalog.
    pub fn from_alias(alias: &Vec<char>) -> (r: Option<Country>)
        ensures
            r == alias_country(alias@),
    {
        if same_text(alias, "usa")
            || same_text(alias, "united states")
            || same_text(alias, "unitedstates")
            || same_text(alias, "us")
            || same_text(alias, "america") {
            Some(Country::UnitedStates)
        } else if same_text(alias, "canada")
            || same_text(alias, "can") {
            Some(Country::Canada)
        } else if same_text(alias, "uk")
            || same_text(alias, "united kingdom")
            || same_text(alias, "unitedkingdom")
            || same_text(alias, "britain")
            || same_text(alias, "great britain") {
            Some(Country::UnitedKingdom)
        } else if same_text(alias, "germany")
            || same_text(alias, "deutschland")
            || same_text(alias, "de") {
            Some(Country::Germany)
        } else if same_text(alias, "france")
            || same_text(alias, "fr") {
            Some(Country::France)
        } else if same_text(alias, "japan")
            || same_text(alias, "jp") {
            Some(Country::Japan)
        } else if same_text(alias, "australia")
            || same_text(alias, "au")
            || same_text(alias, "aus") {
            Some(Country::Australia)
        } else if same_text(alias, "china")
            || same_text(alias, "cn")
            || same_text(alias, "prc") {
            Some(Country::China)
        } else if same_text(alias, "brazil")
            || same_text(alias, "brasil")
            || same_text(alias, "br") {
            Some(Country::Brazil)
        } else if same_text(alias, "south korea")
            || same_text(alias, "southkorea")
            || same_text(alias, "korea")
            || same_text(alias, "kr")
            || same_text(alias, "republic of korea") {
            Some(Country::SouthKorea)
        } else if same_text(alias, "ireland")
            || same_text(alias, "ie")
            || same_text(alias, "eire") {
            Some(Country::Ireland)
        } else if same_text(alias, "spain")
            || same_text(alias, "es")
            || same_text(alias, "españa") {
            Some(Country::Spain)
        } else if same_text(alias, "india")
            || same_text(alias, "in") {
            Some(Country::India)
        } else if same_text(alias, "switzerland")
            || same_text(alias, "ch")
            || same_text(alias, "schweiz") {
            Some(Country::Switzerland)
        } else {
            None
        }
    }

    /// Resolves a country name given as characters: the text is trimmed and
    /// put in lower case, then looked up among the aliases.
    pub fn from_chars(chars: &Vec<char>) -> (r: Option<Country>)
        ensures
            r == country_of_text(chars@),
    {
        let alias = to_lower(&trim(chars));
        Country::from_alias(&alias)
    }

    /// Resolves a country name: the text is trimmed and put in lower case,
    /// then looked up among the aliases. A text that names no country comes
    /// back in the error, as it was given.
    pub fn parse(text: &str) -> (r: Result<Country, CountryParseError>)
        ensures
            match r {
                Ok(country) => country_of_text(text@) == Some(country),
                Err(e) => country_of_text(text@) is None && e.input@ == text@,
            },
    {
        match Country::from_chars(&chars_of(text)) {
            Some(country) => Ok(country),
            None => Err(CountryParseError { input: text.to_owned() }),
        }
    }
}

impl core::str::FromStr for Country {
    type Err = CountryParseError;

    /// Resolves a country name, as `Country::parse` does: the text is
    /// trimmed and put in lower case, then looked up among the aliases.
    fn from_str(s: &str) -> (r: Result<Country, CountryParseError>)
        ensures
            match r {
                Ok(country) => country_of_text(s@) == Some(country),
                Err(e) => country_of_text(s@) is None && e.input@ == s@,
            },
    {
        Country::parse(s)
    }
}

/// A text that names no known country.
#[derive(Debug, Clone, PartialEq, Eq)]
pub struct CountryParseError {
    /// The text that was given.
    pub input: String,
}

/// What a `CountryParseError` with the input `input` says.
pub open spec fn country_error_text(input: Seq<char>) -> Seq<char> {
    if trimmed(input).len() == 0 {
        "empty input"@
    } else {
        "unknown country: "@ + input
    }
}

impl CountryParseError {
    /// Whether nothing but whitespace was given.
    pub open spec fn is_empty_input(&self) -> bool {
        trimmed(self.input@).len() == 0
    }

    /// Whether nothing but whitespace was given, rather than an unknown name.
    pub fn is_empty(&self) -> (r: bool)
        ensures
            r == self.is_empty_input(),
    {
        trim(&chars_of(self.input.as_str())).len() == 0
    }

    /// The error in words.
    pub fn message(&self) -> (r: String)
        ensures
            r@ == country_error_text(self.input@),
    {
        if self.is_empty() {
            String::from_str("empty input")
        } else {
            String::from_str("unknown country: ").concat(self.input.as_str())
        }
    }
}

} // verus!
