use extension_version_watcher::ledger::VersionLedger;

#[test]
fn reconcile_absent_key_returns_sentinel() {
    let mut ledger = VersionLedger::new();
    let prev = ledger.reconcile(&"classroom".to_string(), &"1.0".to_string());
    assert_eq!(prev, "None");
}

#[test]
fn reconcile_again_returns_first_inserted_value() {
    let mut ledger = VersionLedger::new();
    let first = ledger.reconcile(&"classroom".to_string(), &"1.0".to_string());
    assert_eq!(first, "None");
    let second = ledger.reconcile(&"classroom".to_string(), &"2.0".to_string());
    assert_eq!(second, "1.0");
    let third = ledger.reconcile(&"classroom".to_string(), &"2.0".to_string());
    assert_eq!(third, "2.0");
}

#[test]
fn reconcile_distinct_keys_do_not_disturb_each_other() {
    let mut ledger = VersionLedger::new();
    ledger.reconcile(&"classroom".to_string(), &"1.0".to_string());
    ledger.reconcile(&"blocksi".to_string(), &"7.7".to_string());
    let entries = ledger.to_entries();
    assert_eq!(entries.len(), 2);
    assert!(entries.contains(&("classroom".to_string(), "1.0".to_string())));
    assert!(entries.contains(&("blocksi".to_string(), "7.7".to_string())));
}

#[test]
fn from_entries_later_pair_overrides_earlier() {
    let pairs = vec![
        ("classroom".to_string(), "1.0".to_string()),
        ("blocksi".to_string(), "3.0".to_string()),
        ("classroom".to_string(), "2.0".to_string()),
    ];
    let mut ledger = VersionLedger::from_entries(&pairs);
    let prev = ledger.reconcile(&"classroom".to_string(), &"9.9".to_string());
    assert_eq!(prev, "2.0");
    let prev = ledger.reconcile(&"blocksi".to_string(), &"9.9".to_string());
    assert_eq!(prev, "3.0");
}

#[test]
fn entries_round_trip_through_persistence() {
    let mut ledger = VersionLedger::new();
    ledger.reconcile(&"iboss".to_string(), &"4.2".to_string());
    ledger.reconcile(&"cisco".to_string(), &"1.1".to_string());
    let saved = ledger.to_entries();
    let mut reloaded = VersionLedger::from_entries(&saved);
    let prev = reloaded.reconcile(&"iboss".to_string(), &"5.0".to_string());
    assert_eq!(prev, "4.2");
}
