use capstone::location::{Continent, Country, CountryParseError};

const ALL: [Country; 14] = [
    Country::UnitedStates,
    Country::Canada,
    Country::UnitedKingdom,
    Country::Germany,
    Country::France,
    Country::Japan,
    Country::Australia,
    Country::China,
    Country::Brazil,
    Country::SouthKorea,
    Country::Ireland,
    Country::Spain,
    Country::India,
    Country::Switzerland,
];

#[test]
fn every_country_has_its_continent() {
    let expected = [
        Continent::NorthAmerica,
        Continent::NorthAmerica,
        Continent::Europe,
        Continent::Europe,
        Continent::Europe,
        Continent::Asia,
        Continent::Oceania,
        Continent::Asia,
        Continent::SouthAmerica,
        Continent::Asia,
        Continent::Europe,
        Continent::Europe,
        Continent::Asia,
        Continent::Europe,
    ];
    for (country, continent) in ALL.iter().zip(expected.iter()) {
        assert_eq!(country.country_to_continent(), *continent);
    }
}

#[test]
fn every_country_has_its_full_name() {
    let expected = [
        "United States",
        "Canada",
        "United Kingdom",
        "Germany",
        "France",
        "Japan",
        "Australia",
        "China",
        "Brazil",
        "South Korea",
        "Ireland",
        "Spain",
        "India",
        "Switzerland",
    ];
    for (country, name) in ALL.iter().zip(expected.iter()) {
        assert_eq!(country.full_name(), *name);
    }
}

#[test]
fn a_full_name_names_its_country() {
    for country in ALL.iter() {
        assert_eq!(Country::parse(country.full_name()), Ok(*country));
    }
}

#[test]
fn every_alias_names_its_country() {
    let table: [(&str, Country); 45] = [
        ("usa", Country::UnitedStates),
        ("united states", Country::UnitedStates),
        ("unitedstates", Country::UnitedStates),
        ("us", Country::UnitedStates),
        ("america", Country::UnitedStates),
        ("canada", Country::Canada),
        ("can", Country::Canada),
        ("uk", Country::UnitedKingdom),
        ("united kingdom", Country::UnitedKingdom),
        ("unitedkingdom", Country::UnitedKingdom),
        ("britain", Country::UnitedKingdom),
        ("great britain", Country::UnitedKingdom),
        ("germany", Country::Germany),
        ("deutschland", Country::Germany),
        ("de", Country::Germany),
        ("france", Country::France),
        ("fr", Country::France),
        ("japan", Country::Japan),
        ("jp", Country::Japan),
        ("australia", Country::Australia),
        ("au", Country::Australia),
        ("aus", Country::Australia),
        ("china", Country::China),
        ("cn", Country::China),
        ("prc", Country::China),
        ("brazil", Country::Brazil),
        ("brasil", Country::Brazil),
        ("br", Country::Brazil),
        ("south korea", Country::SouthKorea),
        ("southkorea", Country::SouthKorea),
        ("korea", Country::SouthKorea),
        ("kr", Country::SouthKorea),
        ("republic of korea", Country::SouthKorea),
        ("ireland", Country::Ireland),
        ("ie", Country::Ireland),
        ("eire", Country::Ireland),
        ("spain", Country::Spain),
        ("es", Country::Spain),
        ("españa", Country::Spain),
        ("india", Country::India),
        ("in", Country::India),
        ("switzerland", Country::Switzerland),
        ("ch", Country::Switzerland),
        ("schweiz", Country::Switzerland),
        ("USA", Country::UnitedStates),
    ];
    for (alias, country) in table.iter() {
        assert_eq!(Country::parse(alias), Ok(*country), "{}", alias);
        let chars: Vec<char> = alias.to_lowercase().chars().collect();
        assert_eq!(Country::from_alias(&chars), Some(*country), "{}", alias);
        let upper = format!("  {}\t", alias.to_uppercase());
        assert_eq!(Country::parse(&upper), Ok(*country), "{}", upper);
    }
}

#[test]
fn aliases_are_looked_up_as_they_are() {
    let chars = |s: &str| s.chars().collect::<Vec<char>>();
    assert_eq!(Country::from_alias(&chars("USA")), None);
    assert_eq!(Country::from_alias(&chars(" usa")), None);
    assert_eq!(Country::from_alias(&chars("")), None);
    assert_eq!(Country::from_alias(&chars("usa")), Some(Country::UnitedStates));
    assert_eq!(Country::from_chars(&chars(" UsA ")), Some(Country::UnitedStates));
    assert_eq!(Country::from_chars(&chars("usa!")), None);
}

#[test]
fn names_outside_ascii_are_put_in_lower_case() {
    assert_eq!(Country::parse("ESPAÑA"), Ok(Country::Spain));
    assert_eq!(Country::parse(" España "), Ok(Country::Spain));
    assert_eq!(Country::parse("Éire"), Err(CountryParseError { input: "Éire".to_string() }));
}

#[test]
fn parse_works_through_the_standard_trait() {
    let country: Country = "United Kingdom".parse().unwrap();
    assert_eq!(country, Country::UnitedKingdom);
    let missing: Result<Country, CountryParseError> = "Atlantis".parse();
    assert_eq!(missing, Err(CountryParseError { input: "Atlantis".to_string() }));
}

#[test]
fn an_unknown_country_is_not_an_empty_one() {
    let unknown = Country::parse("Wakanda").unwrap_err();
    assert_eq!(unknown.input, "Wakanda");
    assert!(!unknown.is_empty());
    assert_eq!(unknown.message(), "unknown country: Wakanda");
    let empty = Country::parse("").unwrap_err();
    assert!(empty.is_empty());
    assert_eq!(empty.message(), "empty input");
    let blank = Country::parse(" \t ").unwrap_err();
    assert_eq!(blank.input, " \t ");
    assert!(blank.is_empty());
    assert_eq!(blank.message(), "empty input");
    assert_ne!(unknown.message(), empty.message());
}
