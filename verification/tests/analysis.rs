use capstone::analysis::{
    analyze_by_continent, average, filter_by_continent, ContinentAnalysis, ContinentTotal,
};
use capstone::location::{Continent, Country};
use capstone::number::Amount;
use capstone::transaction::Transaction;

fn transaction(id: u32, country: Country, micros: u64) -> Transaction {
    Transaction {
        transaction_id: id,
        client_id: 100 + id,
        asset_name: format!("ASSET {}", id),
        country,
        continent: country.country_to_continent(),
        amount: Amount { micros },
        days_under_management: 1,
    }
}

fn sample() -> Vec<Transaction> {
    vec![
        transaction(1, Country::Japan, 1_000_000_000),
        transaction(2, Country::UnitedStates, 2_500_500_000),
        transaction(3, Country::India, 1),
        transaction(4, Country::Canada, 7_000_000),
        transaction(5, Country::Brazil, 5_000_000_000),
        transaction(6, Country::China, 10_000_000),
    ]
}

#[test]
fn totals_and_counts_by_continent() {
    let analysis = analyze_by_continent(&sample());
    assert_eq!(
        analysis.entries,
        vec![
            ContinentTotal { continent: Continent::Asia, total_micros: 1_010_000_001, count: 3 },
            ContinentTotal {
                continent: Continent::NorthAmerica,
                total_micros: 2_507_500_000,
                count: 2
            },
            ContinentTotal {
                continent: Continent::SouthAmerica,
                total_micros: 5_000_000_000,
                count: 1
            },
        ]
    );
    assert_eq!(analysis.count, 6);
    assert_eq!(analysis.total_micros, 8_517_500_001);
}

#[test]
fn the_entries_add_up_to_the_whole() {
    let transactions = sample();
    let analysis = analyze_by_continent(&transactions);
    let count: usize = analysis.entries.iter().map(|e| e.count).sum();
    let total: u128 = analysis.entries.iter().map(|e| e.total_micros).sum();
    let all: u128 = transactions.iter().map(|t| t.amount.micros as u128).sum();
    assert_eq!(count, transactions.len());
    assert_eq!(count, analysis.count);
    assert_eq!(total, all);
    assert_eq!(total, analysis.total_micros);
    for entry in analysis.entries.iter() {
        assert!(entry.count >= 1);
        assert_eq!(entry.count, filter_by_continent(&transactions, entry.continent).len());
    }
}

#[test]
fn continents_without_transactions_have_no_entry() {
    let analysis = analyze_by_continent(&sample());
    assert!(analysis.entries.iter().all(|e| e.continent != Continent::Europe));
    assert!(analysis.entries.iter().all(|e| e.continent != Continent::Oceania));
}

#[test]
fn no_transactions_give_no_entries() {
    let analysis = analyze_by_continent(&Vec::new());
    assert_eq!(analysis, ContinentAnalysis { entries: vec![], total_micros: 0, count: 0 });
    assert_eq!(analysis.average(), None);
}

#[test]
fn totals_do_not_overflow() {
    let transactions = vec![
        transaction(1, Country::France, u64::MAX),
        transaction(2, Country::Spain, u64::MAX),
        transaction(3, Country::Australia, u64::MAX),
    ];
    let analysis = analyze_by_continent(&transactions);
    assert_eq!(analysis.total_micros, 3 * (u64::MAX as u128));
    assert_eq!(analysis.entries[0].total_micros, 2 * (u64::MAX as u128));
    assert_eq!(analysis.entries[0].average(), Some(u64::MAX as u128));
    assert_eq!(analysis.entries[1].total_micros, u64::MAX as u128);
}

#[test]
fn the_average_is_the_total_by_the_count() {
    let analysis = analyze_by_continent(&sample());
    assert_eq!(analysis.entries[0].average(), Some(336_666_667));
    assert_eq!(analysis.entries[1].average(), Some(1_253_750_000));
    assert_eq!(analysis.entries[2].average(), Some(5_000_000_000));
    assert_eq!(analysis.average(), Some(1_419_583_333));
    assert_eq!(average(10, 4), Some(2));
    assert_eq!(average(0, 3), Some(0));
    assert_eq!(average(10, 0), None);
}

#[test]
fn filtering_keeps_the_order() {
    let transactions = sample();
    let asia = filter_by_continent(&transactions, Continent::Asia);
    let ids: Vec<u32> = asia.iter().map(|t| t.transaction_id).collect();
    assert_eq!(ids, vec![1, 3, 6]);
    assert_eq!(*asia[1], transactions[2]);
    let north = filter_by_continent(&transactions, Continent::NorthAmerica);
    let ids: Vec<u32> = north.iter().map(|t| t.transaction_id).collect();
    assert_eq!(ids, vec![2, 4]);
    assert_eq!(transactions.len(), 6);
}

#[test]
fn filtering_by_a_continent_without_transactions_gives_nothing() {
    let transactions = sample();
    assert!(filter_by_continent(&transactions, Continent::Europe).is_empty());
    assert!(filter_by_continent(&Vec::new(), Continent::Europe).is_empty());
}
