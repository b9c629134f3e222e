use capstone::analysis::analyze_by_continent;
use capstone::ingest::{process_lines, SkippedRecord};
use capstone::location::Continent;
use capstone::transaction::ParseErrorKind;

fn lines(text: &[&str]) -> Vec<String> {
    text.iter().map(|s| s.to_string()).collect()
}

#[test]
fn the_header_is_passed_over_and_bad_lines_are_set_aside() {
    let input = lines(&[
        "transaction_id,client_id,asset_name,start_date,end_date,country,amount",
        "1,101,Apple Inc.,2023-01-10,2023-01-20,USA,1000",
        "2,102,,2023-01-10,2023-01-05,Germany,50",
        "3,103,Toyota,2023-02-01,2023-03-15,Japan,2500.75",
        "4,104,Nestle,2023-03-01,2023-02-01,Switzerland,300",
        "5,105,Unknown Corp,2023-01-01,2023-01-02,Wakanda,10",
        "6,106,Petrobras,2023-01-01,2023-06-01,Brazil",
        "7,107,BHP,2023-01-01,2023-01-31,,900",
        "8,108,Tata,2023-01-01,2023-01-31,India,-5",
    ]);
    let result = process_lines(&input);
    let ids: Vec<u32> = result.transactions.iter().map(|t| t.transaction_id).collect();
    assert_eq!(ids, vec![1, 3]);
    assert_eq!(result.transactions[0].asset_name, "APPLE INC.");
    assert_eq!(result.transactions[1].amount.micros, 2_500_750_000);
    assert_eq!(result.transactions[1].days_under_management, 42);
    let skipped: Vec<(usize, ParseErrorKind)> =
        result.skipped.iter().map(|s| (s.line_number, s.reason)).collect();
    assert_eq!(
        skipped,
        vec![
            (3, ParseErrorKind::EmptyAssetName),
            (5, ParseErrorKind::EndBeforeStart),
            (6, ParseErrorKind::UnknownCountry),
            (7, ParseErrorKind::FieldCount { found: 6 }),
            (8, ParseErrorKind::EmptyCountry),
            (9, ParseErrorKind::NonPositiveAmount),
        ]
    );
    assert_eq!(result.skipped[0].raw_line, "2,102,,2023-01-10,2023-01-05,Germany,50");
    assert_eq!(result.skipped[0].message(), "asset name cannot be empty");
    assert_eq!(result.skipped[1].message(), "end date before start date");
    assert_eq!(result.skipped[2].message(), "country parsing error: unknown country: Wakanda");
    assert_eq!(result.skipped[3].message(), "field count mismatch: expected 7, found 6");
    assert_eq!(result.skipped[4].message(), "country parsing error: empty input");
    assert_eq!(result.skipped[5].message(), "amount must be positive");
    assert_eq!(result.transactions.len() + result.skipped.len(), input.len() - 1);
}

#[test]
fn a_header_that_looks_like_a_record_is_passed_over_too() {
    let input = lines(&[
        "1,101,Apple Inc.,2023-01-10,2023-01-20,USA,1000",
        "2,102,SAP,2023-01-10,2023-01-20,Germany,50",
    ]);
    let result = process_lines(&input);
    assert_eq!(result.transactions.len(), 1);
    assert_eq!(result.transactions[0].transaction_id, 2);
    assert!(result.skipped.is_empty());
}

#[test]
fn no_lines_and_a_lone_header_give_nothing() {
    let none = process_lines(&Vec::new());
    assert!(none.transactions.is_empty());
    assert!(none.skipped.is_empty());
    let header = process_lines(&lines(&["not,a,record"]));
    assert!(header.transactions.is_empty());
    assert!(header.skipped.is_empty());
}

#[test]
fn one_bad_line_does_not_end_the_reading() {
    let input = lines(&[
        "header",
        "garbage",
        "",
        "9,109,Samsung,2023-01-01,2023-01-31,South Korea,6000",
    ]);
    let result = process_lines(&input);
    assert_eq!(result.transactions.len(), 1);
    assert_eq!(result.transactions[0].transaction_id, 9);
    assert_eq!(
        result.skipped,
        vec![
            SkippedRecord {
                line_number: 2,
                reason: ParseErrorKind::FieldCount { found: 1 },
                raw_line: "garbage".to_string()
            },
            SkippedRecord {
                line_number: 3,
                reason: ParseErrorKind::FieldCount { found: 1 },
                raw_line: "".to_string()
            },
        ]
    );
}

#[test]
fn accepted_transactions_are_valid_and_can_be_analyzed() {
    let input = lines(&[
        "header",
        "1,101,Apple Inc.,2023-01-10,2023-01-20,USA,1000",
        "2,102,SAP,2023-01-10,2023-02-20,Germany,50.5",
        "3,103,Shopify,2023-01-10,2023-01-10,Canada,0.5",
    ]);
    let result = process_lines(&input);
    for t in result.transactions.iter() {
        assert_eq!(t.continent, t.country.country_to_continent());
        assert!(t.amount.micros > 0);
        assert!(t.days_under_management >= 0);
    }
    let analysis = analyze_by_continent(&result.transactions);
    assert_eq!(analysis.count, 3);
    assert_eq!(analysis.total_micros, 1_051_000_000);
    assert_eq!(analysis.entries[0].continent, Continent::NorthAmerica);
    assert_eq!(analysis.entries[0].total_micros, 1_000_500_000);
    assert_eq!(analysis.entries[1].continent, Continent::Europe);
    assert_eq!(analysis.entries[1].count, 1);
}
