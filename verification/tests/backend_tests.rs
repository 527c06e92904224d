use split_happens::awards::AwardTable;
use split_happens::contract::StorageDao;
use split_happens::kv::KeyValueDao;
use split_happens::ledger::{Balance, StorageError, Transaction};
use split_happens::memory::MemoryDao;
use split_happens::tables::demo_award_table;

const T1: &str = "1/15/2025, 2:30:00 PM UTC";
const T2: &str = "1/15/2025, 2:45:00 PM UTC";
const D1: &str = "1/15/2025";

fn small_table() -> AwardTable {
    let mut t = AwardTable::new();
    t.insert("7-10".to_owned(), 250);
    t
}

fn balances_of<D: StorageDao>(dao: &D) -> Vec<(String, String)> {
    dao.get_balances()
        .unwrap()
        .into_iter()
        .map(|b: Balance| (b.name, b.amount))
        .collect()
}

#[test]
fn scenario_split_convert_undo() {
    // empty ledger: one split, one conversion at 25.0%, one undo
    let mut dao = MemoryDao::with_roster(Vec::new(), small_table());
    dao.add_split_at("Alice".to_owned(), "7-10".to_owned(), T1.to_owned(), D1.to_owned())
        .unwrap();
    assert_eq!(
        balances_of(&dao),
        vec![
            ("Pot".to_owned(), "1.00".to_owned()),
            ("Alice".to_owned(), "-1.00".to_owned()),
        ]
    );
    dao.add_conversion_at("Alice".to_owned(), "7-10".to_owned(), T2.to_owned(), D1.to_owned())
        .unwrap();
    let last = dao.get_last_n_transactions(1);
    assert_eq!(last.len(), 1);
    assert_eq!(last[0].creditor, "Alice");
    assert_eq!(last[0].debtor, "Pot");
    assert_eq!(last[0].amount, 25);
    assert_eq!(last[0].pot_amount, 100);
    assert_eq!(
        balances_of(&dao),
        vec![
            ("Pot".to_owned(), "0.75".to_owned()),
            ("Alice".to_owned(), "-0.75".to_owned()),
        ]
    );
    dao.remove_last_transaction().unwrap();
    assert_eq!(
        balances_of(&dao),
        vec![
            ("Pot".to_owned(), "1.00".to_owned()),
            ("Alice".to_owned(), "-1.00".to_owned()),
        ]
    );
}

#[test]
fn scenario_split_convert_undo_kv() {
    let mut dao = KeyValueDao::new(small_table());
    dao.add_split_at("Alice".to_owned(), "7-10".to_owned(), T1.to_owned(), D1.to_owned())
        .unwrap();
    assert_eq!(
        balances_of(&dao),
        vec![
            ("Pot".to_owned(), "1.00".to_owned()),
            ("Alice".to_owned(), "-1.00".to_owned()),
        ]
    );
    dao.add_conversion_at("Alice".to_owned(), "7-10".to_owned(), T2.to_owned(), D1.to_owned())
        .unwrap();
    assert_eq!(
        balances_of(&dao),
        vec![
            ("Pot".to_owned(), "0.75".to_owned()),
            ("Alice".to_owned(), "-0.75".to_owned()),
        ]
    );
    dao.remove_last_transaction().unwrap();
    assert_eq!(
        balances_of(&dao),
        vec![
            ("Pot".to_owned(), "1.00".to_owned()),
            ("Alice".to_owned(), "-1.00".to_owned()),
        ]
    );
}

#[test]
fn balances_equal_fold_of_log() {
    // the reported aggregate equals the fold of the full tail query
    let mut dao = KeyValueDao::new(demo_award_table());
    dao.add_split_at("Alice".to_owned(), "7-10".to_owned(), T1.to_owned(), D1.to_owned())
        .unwrap();
    dao.add_split_at("Bob".to_owned(), "4-5".to_owned(), T1.to_owned(), D1.to_owned())
        .unwrap();
    dao.add_conversion_at("Bob".to_owned(), "4-5".to_owned(), T2.to_owned(), D1.to_owned())
        .unwrap();
    let log = dao.get_last_n_transactions(usize::MAX);
    assert_eq!(log.len(), 3);
    for (name, amount) in balances_of(&dao) {
        let mut cents: i64 = 0;
        for t in &log {
            if t.creditor == name {
                cents += t.amount;
            }
            if t.debtor == name {
                cents -= t.amount;
            }
        }
        let expect = if cents < 0 {
            format!("-{}.{:02}", -cents / 100, (-cents) % 100)
        } else {
            format!("{}.{:02}", cents / 100, cents % 100)
        };
        assert_eq!(amount, expect, "balance of {name}");
    }
}

#[test]
fn tail_query_is_ordered_suffix() {
    let dao = MemoryDao::new();
    let all = dao.get_last_n_transactions(100);
    assert_eq!(all.len(), 4);
    // chronological, oldest first: the three splits, then the conversion
    assert_eq!(all[0].split, "7-10");
    assert_eq!(all[1].split, "4-5");
    assert_eq!(all[2].split, "2-3");
    assert_eq!(all[3].creditor, "Alice");
    assert_eq!(all[3].amount, 75);
    let last_two = dao.get_last_n_transactions(2);
    assert_eq!(last_two.len(), 2);
    assert_eq!(last_two[0].split, "2-3");
    assert_eq!(last_two[1].split, "7-10");
    assert_eq!(dao.get_last_n_transactions(0).len(), 0);
}

#[test]
fn invalid_split_is_reported_and_appends_nothing() {
    let mut dao = MemoryDao::with_roster(Vec::new(), small_table());
    let r = dao.add_conversion_at(
        "Alice".to_owned(),
        "9-10".to_owned(),
        T1.to_owned(),
        D1.to_owned(),
    );
    assert_eq!(r, Err(StorageError::InvalidSplit));
    assert_eq!(dao.get_last_n_transactions(10).len(), 0);

    let mut kv = KeyValueDao::new(small_table());
    let r = kv.add_conversion_at(
        "Alice".to_owned(),
        "9-10".to_owned(),
        T1.to_owned(),
        D1.to_owned(),
    );
    assert_eq!(r, Err(StorageError::InvalidSplit));
    assert_eq!(kv.get_last_n_transactions(10).len(), 0);
}

#[test]
fn undo_on_empty_ledger_reports_not_found() {
    let mut dao = MemoryDao::with_roster(Vec::new(), small_table());
    assert_eq!(dao.remove_last_transaction(), Err(StorageError::NotFound));
    let mut kv = KeyValueDao::new(small_table());
    assert_eq!(kv.remove_last_transaction(), Err(StorageError::NotFound));
}

#[test]
fn unprovisioned_reads_report_not_found() {
    let kv = KeyValueDao::new(small_table());
    assert_eq!(kv.get_names().unwrap_err(), StorageError::NotFound);
    assert_eq!(kv.get_balances().unwrap_err(), StorageError::NotFound);
    // a write provisions the ledger
    let mut kv = kv;
    kv.add_split_at("Alice".to_owned(), "7-10".to_owned(), T1.to_owned(), D1.to_owned())
        .unwrap();
    assert!(kv.get_names().is_ok());
    assert!(kv.get_balances().is_ok());
}

#[test]
fn roster_always_names_the_pot() {
    // the pot is appended to a roster that omits it
    let dao = MemoryDao::with_roster(
        vec!["Alice".to_owned(), "Bob".to_owned()],
        small_table(),
    );
    let names = dao.get_names().unwrap();
    assert_eq!(names, vec!["Alice".to_owned(), "Bob".to_owned(), "Pot".to_owned()]);

    let kv = KeyValueDao::from_records(
        vec!["Alice".to_owned()],
        Vec::new(),
        small_table(),
    )
    .unwrap();
    let names = kv.get_names().unwrap();
    assert_eq!(names, vec!["Alice".to_owned(), "Pot".to_owned()]);
}

#[test]
fn roster_is_deduplicated() {
    let dao = MemoryDao::with_roster(
        vec!["Alice".to_owned(), "Alice".to_owned(), "Pot".to_owned()],
        small_table(),
    );
    let names = dao.get_names().unwrap();
    assert_eq!(names, vec!["Alice".to_owned(), "Pot".to_owned()]);
}

#[test]
fn demo_ledger_state() {
    let dao = MemoryDao::new();
    let names = dao.get_names().unwrap();
    assert_eq!(
        names,
        vec![
            "Alice".to_owned(),
            "Bob".to_owned(),
            "Charlie".to_owned(),
            "Dana".to_owned(),
            "Pot".to_owned(),
        ]
    );
    assert_eq!(
        balances_of(&dao),
        vec![
            ("Alice".to_owned(), "-0.25".to_owned()),
            ("Bob".to_owned(), "-1.00".to_owned()),
            ("Charlie".to_owned(), "-1.00".to_owned()),
            ("Dana".to_owned(), "0.00".to_owned()),
            ("Pot".to_owned(), "2.25".to_owned()),
        ]
    );
    let awards = dao.get_split_awards();
    assert_eq!(awards.get(&"7-10".to_owned()), Some(250));
    assert_eq!(awards.len(), 9);
}

fn record(
    num: u64,
    creditor: &str,
    debtor: &str,
    amount: i64,
    pot_amount: i64,
) -> (u64, Transaction) {
    (
        num,
        Transaction {
            creditor: creditor.to_owned(),
            debtor: debtor.to_owned(),
            amount,
            split: "7-10".to_owned(),
            time: T1.to_owned(),
            pot_amount,
            date: D1.to_owned(),
        },
    )
}

#[test]
fn recovery_rebuilds_the_aggregate() {
    // sequence numbers with a hole, as an undone transaction leaves them
    let records = vec![
        record(1, "Pot", "Alice", 100, 0),
        record(3, "Pot", "Bob", 100, 100),
        record(7, "Alice", "Pot", 50, 200),
    ];
    let dao =
        KeyValueDao::from_records(vec!["Alice".to_owned()], records, small_table()).unwrap();
    assert_eq!(
        balances_of(&dao),
        vec![
            ("Pot".to_owned(), "1.50".to_owned()),
            ("Alice".to_owned(), "-0.50".to_owned()),
            ("Bob".to_owned(), "-1.00".to_owned()),
        ]
    );
    // appends keep working after recovery
    let mut dao = dao;
    dao.add_split_at("Bob".to_owned(), "7-10".to_owned(), T2.to_owned(), D1.to_owned())
        .unwrap();
    assert_eq!(dao.get_last_n_transactions(10).len(), 4);
}

#[test]
fn recovery_rejects_unordered_numbers() {
    let records = vec![record(3, "Pot", "Alice", 100, 0), record(3, "Pot", "Bob", 100, 100)];
    assert!(KeyValueDao::from_records(Vec::new(), records, small_table()).is_none());
    let records = vec![record(5, "Pot", "Alice", 100, 0), record(2, "Pot", "Bob", 100, 100)];
    assert!(KeyValueDao::from_records(Vec::new(), records, small_table()).is_none());
}

#[test]
fn recovery_rejects_an_overdrawn_pot() {
    // a lone conversion would leave the pot negative after its prefix
    let records = vec![record(1, "Alice", "Pot", 100, 0)];
    assert!(KeyValueDao::from_records(Vec::new(), records, small_table()).is_none());
    // a negative recorded amount is rejected too
    let records = vec![record(1, "Pot", "Alice", -100, 0)];
    assert!(KeyValueDao::from_records(Vec::new(), records, small_table()).is_none());
}

#[test]
fn undo_restores_tail_queries() {
    let mut dao = MemoryDao::new();
    let before: Vec<Vec<String>> = (0..6)
        .map(|k| {
            dao.get_last_n_transactions(k)
                .into_iter()
                .map(|t| format!("{}>{}:{}", t.creditor, t.debtor, t.amount))
                .collect()
        })
        .collect();
    dao.add_split_at("Dana".to_owned(), "5-6".to_owned(), T2.to_owned(), D1.to_owned())
        .unwrap();
    dao.remove_last_transaction().unwrap();
    let after: Vec<Vec<String>> = (0..6)
        .map(|k| {
            dao.get_last_n_transactions(k)
                .into_iter()
                .map(|t| format!("{}>{}:{}", t.creditor, t.debtor, t.amount))
                .collect()
        })
        .collect();
    assert_eq!(before, after);
}

#[test]
fn kv_undo_keeps_a_zeroed_row() {
    // the key-value aggregate never deletes a name: undoing a newcomer's
    // split leaves their row at zero while every balance is restored
    let mut dao = KeyValueDao::new(small_table());
    dao.add_split_at("Alice".to_owned(), "7-10".to_owned(), T1.to_owned(), D1.to_owned())
        .unwrap();
    dao.add_split_at("Bob".to_owned(), "7-10".to_owned(), T2.to_owned(), D1.to_owned())
        .unwrap();
    dao.remove_last_transaction().unwrap();
    assert_eq!(
        balances_of(&dao),
        vec![
            ("Pot".to_owned(), "1.00".to_owned()),
            ("Alice".to_owned(), "-1.00".to_owned()),
            ("Bob".to_owned(), "0.00".to_owned()),
        ]
    );
}

#[test]
fn conversion_of_an_empty_pot_pays_nothing() {
    let mut dao = MemoryDao::with_roster(Vec::new(), small_table());
    dao.add_conversion_at("Alice".to_owned(), "7-10".to_owned(), T1.to_owned(), D1.to_owned())
        .unwrap();
    let last = dao.get_last_n_transactions(1);
    assert_eq!(last[0].amount, 0);
    assert_eq!(last[0].pot_amount, 0);
}

#[test]
fn exhausted_sequence_numbers_refuse_appends() {
    // a ledger recovered at the top of the number space cannot assign a
    // fresh sequence number: the conditional append is refused
    let records = vec![record(u64::MAX - 1, "Pot", "Alice", 100, 0)];
    let mut dao = KeyValueDao::from_records(Vec::new(), records, small_table()).unwrap();
    let r = dao.add_split_at("Bob".to_owned(), "7-10".to_owned(), T2.to_owned(), D1.to_owned());
    assert_eq!(r, Err(StorageError::WriteConflict));
    assert_eq!(dao.get_last_n_transactions(10).len(), 1);
    // a record at the very top of the number space cannot be recovered at all
    let records = vec![record(u64::MAX, "Pot", "Alice", 100, 0)];
    assert!(KeyValueDao::from_records(Vec::new(), records, small_table()).is_none());
}

#[test]
fn add_split_stamps_the_clock() {
    // the only operation variants without caller-supplied timestamps:
    // the wall clock fills the time and date fields
    let mut dao = MemoryDao::with_roster(Vec::new(), small_table());
    dao.add_split("Alice".to_owned(), "7-10".to_owned()).unwrap();
    dao.add_conversion("Alice".to_owned(), "7-10".to_owned()).unwrap();
    for t in dao.get_last_n_transactions(2) {
        assert!(!t.time.is_empty());
        assert!(!t.date.is_empty());
        assert!(t.time.len() > t.date.len());
    }
}

#[test]
fn memory_balances_equal_fold_of_log() {
    let mut dao = MemoryDao::new();
    dao.add_split_at("Dana".to_owned(), "5-6".to_owned(), T2.to_owned(), D1.to_owned())
        .unwrap();
    dao.add_conversion_at("Charlie".to_owned(), "2-3".to_owned(), T2.to_owned(), D1.to_owned())
        .unwrap();
    let log = dao.get_last_n_transactions(usize::MAX);
    assert_eq!(log.len(), 6);
    for (name, amount) in balances_of(&dao) {
        let mut cents: i64 = 0;
        for t in &log {
            if t.creditor == name {
                cents += t.amount;
            }
            if t.debtor == name {
                cents -= t.amount;
            }
        }
        let expect = if cents < 0 {
            format!("-{}.{:02}", -cents / 100, (-cents) % 100)
        } else {
            format!("{}.{:02}", cents / 100, cents % 100)
        };
        assert_eq!(amount, expect, "balance of {name}");
    }
}
