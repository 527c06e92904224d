use split_happens::awards::AwardTable;
use split_happens::ledger::{balance_cents, pot_string, Transaction};
use split_happens::money::{award_cents, format_cents};
use split_happens::tables::{demo_award_table, production_award_table};

fn tx(creditor: &str, debtor: &str, amount: i64, split: &str, pot_amount: i64) -> Transaction {
    Transaction {
        creditor: creditor.to_owned(),
        debtor: debtor.to_owned(),
        amount,
        split: split.to_owned(),
        time: "1/15/2025, 2:30:00 PM UTC".to_owned(),
        pot_amount,
        date: "1/15/2025".to_owned(),
    }
}

#[test]
fn format_cents_exact_values() {
    assert_eq!(format_cents(0), "0.00");
    assert_eq!(format_cents(5), "0.05");
    assert_eq!(format_cents(75), "0.75");
    assert_eq!(format_cents(100), "1.00");
    assert_eq!(format_cents(-75), "-0.75");
    assert_eq!(format_cents(-100), "-1.00");
    assert_eq!(format_cents(123456), "1234.56");
    assert_eq!(format_cents(-120), "-1.20");
    assert_eq!(format_cents(1000000), "10000.00");
}

#[test]
fn award_rounds_half_away_from_zero() {
    // 25.0% of 1.00 is exactly 0.25
    assert_eq!(award_cents(100, 250), 25);
    // 25.0% of 3.00 is exactly 0.75
    assert_eq!(award_cents(300, 250), 75);
    // 25.0% of 0.02 is 0.005: the half-cent rounds up, away from zero
    assert_eq!(award_cents(2, 250), 1);
    // 25.0% of 0.01 is 0.0025: rounds down
    assert_eq!(award_cents(1, 250), 0);
    // a negative pot rounds its half-cent away from zero too
    assert_eq!(award_cents(-2, 250), -1);
    assert_eq!(award_cents(-300, 250), -75);
    // 7.5% of 1.00 is 0.075: rounds up to 0.08
    assert_eq!(award_cents(100, 75), 8);
    // 100% and 0%
    assert_eq!(award_cents(12345, 1000), 12345);
    assert_eq!(award_cents(12345, 0), 0);
}

#[test]
fn award_table_lookup_and_shadowing() {
    let mut t = AwardTable::new();
    assert_eq!(t.len(), 0);
    t.insert("7-10".to_owned(), 250);
    t.insert("4-5".to_owned(), 125);
    assert_eq!(t.get(&"7-10".to_owned()), Some(250));
    assert_eq!(t.get(&"4-5".to_owned()), Some(125));
    assert_eq!(t.get(&"9-10".to_owned()), None);
    // a later insert shadows the earlier share for the same split
    t.insert("7-10".to_owned(), 500);
    assert_eq!(t.get(&"7-10".to_owned()), Some(500));
}

#[test]
fn award_table_duplicate_and_names() {
    let mut t = AwardTable::new();
    t.insert("2-3".to_owned(), 100);
    t.insert("7-10".to_owned(), 500);
    let copy = t.duplicate();
    assert_eq!(copy.get(&"2-3".to_owned()), Some(100));
    assert_eq!(copy.get(&"7-10".to_owned()), Some(500));
    assert_eq!(copy.len(), 2);
    let names = t.split_names();
    assert_eq!(names, vec!["2-3".to_owned(), "7-10".to_owned()]);
}

#[test]
fn demo_table_contents() {
    let t = demo_award_table();
    assert_eq!(t.len(), 9);
    assert_eq!(t.get(&"1-2-3".to_owned()), Some(50));
    assert_eq!(t.get(&"2-3".to_owned()), Some(75));
    assert_eq!(t.get(&"3-6".to_owned()), Some(100));
    assert_eq!(t.get(&"4-5".to_owned()), Some(125));
    assert_eq!(t.get(&"4-5-6".to_owned()), Some(150));
    assert_eq!(t.get(&"5-6".to_owned()), Some(175));
    assert_eq!(t.get(&"4-7-10".to_owned()), Some(200));
    assert_eq!(t.get(&"6-7-10".to_owned()), Some(225));
    assert_eq!(t.get(&"7-10".to_owned()), Some(250));
}

#[test]
fn production_table_tiers() {
    let t = production_award_table();
    assert_eq!(t.len(), 459);
    // one sample from each payout tier
    assert_eq!(t.get(&"2-3".to_owned()), Some(100));
    assert_eq!(t.get(&"9-10".to_owned()), Some(100));
    assert_eq!(t.get(&"3-4".to_owned()), Some(300));
    assert_eq!(t.get(&"2-3-4-5-6-7-8-9-10".to_owned()), Some(300));
    assert_eq!(t.get(&"4-6".to_owned()), Some(500));
    assert_eq!(t.get(&"7-10".to_owned()), Some(500));
    assert_eq!(t.get(&"8-10".to_owned()), Some(500));
    // a split outside the table
    assert_eq!(t.get(&"1-2".to_owned()), None);
}

#[test]
fn balance_fold_by_roles() {
    let log = vec![
        tx("Pot", "Alice", 100, "7-10", 0),
        tx("Pot", "Bob", 100, "4-5", 100),
        tx("Alice", "Pot", 50, "7-10", 200),
    ];
    assert_eq!(balance_cents(&log, &pot_string()), 150);
    assert_eq!(balance_cents(&log, &"Alice".to_owned()), -50);
    assert_eq!(balance_cents(&log, &"Bob".to_owned()), -100);
    assert_eq!(balance_cents(&log, &"Dana".to_owned()), 0);
}
