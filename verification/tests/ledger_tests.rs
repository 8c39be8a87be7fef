use cypat::ScoreLedger;

#[test]
fn new_ledger_is_empty() {
    let l = ScoreLedger::new();
    assert_eq!(l.total(), 0);
    assert_eq!(l.report(), Vec::<(String, i32)>::new());
    assert!(!l.entry_exists(0));
    assert_eq!(l.get_entry(0), None);
}

#[test]
fn upsert_appends_new_ids_in_order() {
    let mut l = ScoreLedger::new();
    l.upsert(1, 10, "first".to_string());
    l.upsert(2, 20, "second".to_string());
    l.upsert(3, 30, "third".to_string());
    assert_eq!(
        l.report(),
        vec![
            ("first".to_string(), 10),
            ("second".to_string(), 20),
            ("third".to_string(), 30),
        ]
    );
    assert_eq!(l.total(), 60);
}

#[test]
fn upsert_overwrites_in_place_keeping_position() {
    let mut l = ScoreLedger::new();
    l.upsert(1, 10, "first".to_string());
    l.upsert(2, 20, "second".to_string());
    l.upsert(1, 15, "first again".to_string());
    assert_eq!(
        l.report(),
        vec![("first again".to_string(), 15), ("second".to_string(), 20)]
    );
    assert_eq!(l.total(), 35);
    assert_eq!(l.get_entry(1), Some((1, 15, "first again".to_string())));
}

#[test]
fn repeated_upserts_keep_one_entry_per_id() {
    let mut l = ScoreLedger::new();
    for k in 0..5 {
        l.upsert(7, k, format!("try {}", k));
    }
    assert_eq!(l.report(), vec![("try 4".to_string(), 4)]);
    assert_eq!(l.total(), 4);
}

#[test]
fn remove_absent_id_is_not_found_and_changes_nothing() {
    let mut l = ScoreLedger::new();
    l.upsert(1, 10, "one".to_string());
    assert_eq!(l.remove(9), Err(()));
    assert_eq!(l.report(), vec![("one".to_string(), 10)]);
    assert_eq!(l.total(), 10);
}

#[test]
fn remove_present_id_drops_exactly_that_entry() {
    let mut l = ScoreLedger::new();
    l.upsert(1, 10, "one".to_string());
    l.upsert(2, 20, "two".to_string());
    l.upsert(3, 30, "three".to_string());
    assert_eq!(l.remove(2), Ok(()));
    assert_eq!(
        l.report(),
        vec![("one".to_string(), 10), ("three".to_string(), 30)]
    );
    assert_eq!(l.total(), 40);
    assert!(!l.entry_exists(2));
    assert!(l.entry_exists(1));
    assert!(l.entry_exists(3));
}

#[test]
fn total_handles_negative_values() {
    let mut l = ScoreLedger::new();
    l.upsert(1, -25, "penalty".to_string());
    l.upsert(2, 40, "reward".to_string());
    assert_eq!(l.total(), 15);
}

#[test]
fn get_entry_copies_the_entry_out() {
    let mut l = ScoreLedger::new();
    l.upsert(5, 50, "hello".to_string());
    assert_eq!(l.get_entry(5), Some((5, 50, "hello".to_string())));
    assert_eq!(l.get_entry(6), None);
}
