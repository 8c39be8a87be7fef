use cypat::SharedLedger;

#[test]
fn shared_ledger_upserts_atomically_per_call() {
    let l = SharedLedger::new();
    l.upsert(1, 10, "one".to_string());
    l.upsert(2, 20, "two".to_string());
    l.upsert(1, 15, "one again".to_string());
    assert_eq!(l.total(), 35);
    assert_eq!(
        l.report(),
        vec![("one again".to_string(), 15), ("two".to_string(), 20)]
    );
    assert!(l.entry_exists(2));
    assert_eq!(l.get_entry(1), Some((1, 15, "one again".to_string())));
}

#[test]
fn shared_ledger_removal() {
    let l = SharedLedger::new();
    l.upsert(1, 10, "one".to_string());
    assert_eq!(l.remove(9), Err(()));
    assert_eq!(l.remove(1), Ok(()));
    assert_eq!(l.remove(1), Err(()));
    assert_eq!(l.total(), 0);
    assert!(!l.entry_exists(1));
    assert_eq!(l.get_entry(1), None);
}
