use capstone::date::Date;
use capstone::number::{decimal_string, parse_amount, parse_u32, Amount, AmountError};

fn chars(s: &str) -> Vec<char> {
    s.chars().collect()
}

#[test]
fn unsigned_numerals() {
    assert_eq!(parse_u32(&chars("0")), Some(0));
    assert_eq!(parse_u32(&chars("42")), Some(42));
    assert_eq!(parse_u32(&chars("+42")), Some(42));
    assert_eq!(parse_u32(&chars("00042")), Some(42));
    assert_eq!(parse_u32(&chars("4294967295")), Some(u32::MAX));
    assert_eq!(parse_u32(&chars("4294967296")), None);
    assert_eq!(parse_u32(&chars("99999999999999999999999999999999999999999999")), None);
    assert_eq!(parse_u32(&chars("")), None);
    assert_eq!(parse_u32(&chars("+")), None);
    assert_eq!(parse_u32(&chars("-1")), None);
    assert_eq!(parse_u32(&chars("++1")), None);
    assert_eq!(parse_u32(&chars(" 1")), None);
    assert_eq!(parse_u32(&chars("1 ")), None);
    assert_eq!(parse_u32(&chars("12a")), None);
    assert_eq!(parse_u32(&chars("١٢")), None);
}

#[test]
fn unsigned_numerals_are_read_as_the_standard_library_reads_them() {
    for text in ["0", "7", "+7", "-7", "007", "4294967295", "4294967296", "", "+", "1_000", "0x10", " 5"] {
        assert_eq!(parse_u32(&chars(text)), text.parse::<u32>().ok(), "{}", text);
    }
}

#[test]
fn amounts_are_held_in_millionths() {
    assert_eq!(parse_amount(&chars("1000")), Ok(Amount { micros: 1_000_000_000 }));
    assert_eq!(parse_amount(&chars("1000")), Ok(Amount::from_units(1000)));
    assert_eq!(parse_amount(&chars("2500.50")), Ok(Amount { micros: 2_500_500_000 }));
    assert_eq!(parse_amount(&chars("0.000001")), Ok(Amount { micros: 1 }));
    assert_eq!(parse_amount(&chars("1.5")), Ok(Amount { micros: 1_500_000 }));
    assert_eq!(parse_amount(&chars(".5")), Ok(Amount { micros: 500_000 }));
    assert_eq!(parse_amount(&chars("5.")), Ok(Amount { micros: 5_000_000 }));
    assert_eq!(parse_amount(&chars("+7")), Ok(Amount { micros: 7_000_000 }));
    assert_eq!(parse_amount(&chars("007.100000")), Ok(Amount { micros: 7_100_000 }));
    assert_eq!(parse_amount(&chars("18446744073709.551615")), Ok(Amount { micros: u64::MAX }));
}

#[test]
fn amounts_that_are_not_positive() {
    for text in ["0", "0.0", "0.000000", ".0", "0.", "-0", "+0", "-1", "-.5", "-99999999999999999999999999"] {
        assert_eq!(parse_amount(&chars(text)), Err(AmountError::NotPositive), "{}", text);
    }
}

#[test]
fn texts_that_are_no_amounts() {
    for text in [
        "", ".", "+", "-", "+.", "abc", "1.2.3", "1..2", "1e3", "1,5", " 1", "1 ", "--1", "+-1", "1-",
        "-abc", "0.0000001", "1.0000000", "18446744073709.551616", "99999999999999999999999999",
        "inf", "NaN", "$5",
    ] {
        assert_eq!(parse_amount(&chars(text)), Err(AmountError::Invalid), "{}", text);
    }
}

#[test]
fn an_amount_has_whole_units_and_a_fraction() {
    let amount = Amount { micros: 2_500_500_000 };
    assert_eq!(amount.units(), 2500);
    assert_eq!(amount.fraction(), 500_000);
    assert_eq!(Amount::from_units(0).micros, 0);
    assert_eq!(Amount::from_units(u32::MAX).micros, 4_294_967_295_000_000);
    assert_eq!(Amount { micros: u64::MAX }.units(), 18_446_744_073_709);
    assert_eq!(Amount { micros: u64::MAX }.fraction(), 551_615);
}

#[test]
fn numbers_are_written_in_decimal() {
    assert_eq!(decimal_string(0), "0");
    assert_eq!(decimal_string(7), "7");
    assert_eq!(decimal_string(10), "10");
    assert_eq!(decimal_string(4096), "4096");
    assert_eq!(decimal_string(usize::MAX), usize::MAX.to_string());
    for n in [0usize, 9, 10, 99, 100, 12345] {
        assert_eq!(parse_u32(&chars(&decimal_string(n))), Some(n as u32));
    }
}

#[test]
fn dates_are_day_numbers() {
    assert_eq!(Date::parse("0001-01-01"), Some(Date { day_number: 1 }));
    assert_eq!(Date::parse("1970-01-01"), Some(Date { day_number: 719_163 }));
    assert_eq!(Date::parse("2023-01-10"), Some(Date { day_number: 738_530 }));
    assert_eq!(Date::parse("2023-02-29"), None);
    assert_eq!(Date::parse("2024-02-29"), Some(Date { day_number: 738_945 }));
    assert_eq!(Date::parse("2023-01-10 "), None);
    assert_eq!(Date::parse(""), None);
    assert_eq!(Date::parse("not a date"), None);
}

#[test]
fn dates_are_ordered_and_subtracted() {
    let start = Date::parse("2023-01-10").unwrap();
    let end = Date::parse("2023-01-20").unwrap();
    assert!(start.is_before(&end));
    assert!(!end.is_before(&start));
    assert!(!start.is_before(&start));
    assert_eq!(start.days_until(&end), 10);
    assert_eq!(end.days_until(&start), -10);
    assert_eq!(start.days_until(&start), 0);
    let first = Date { day_number: i32::MIN };
    let last = Date { day_number: i32::MAX };
    assert_eq!(first.days_until(&last), 4_294_967_295);
    assert_eq!(last.days_until(&first), -4_294_967_295);
}
