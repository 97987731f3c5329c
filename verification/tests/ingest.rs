use plutus::parse::parse_line;
use plutus::store::{PrefixPolicy, Store, StoreError};

fn no_policy() -> PrefixPolicy {
    PrefixPolicy { required: None }
}

#[test]
fn parse_address_with_balance() {
    let rec = parse_line("1abc\t5000").unwrap();
    assert_eq!(rec.address, "1abc");
    assert_eq!(rec.balance, Some(5000));
}

#[test]
fn parse_address_without_balance() {
    let rec = parse_line("1abc").unwrap();
    assert_eq!(rec.address, "1abc");
    assert_eq!(rec.balance, None);
}

#[test]
fn parse_ignores_fields_after_second_tab() {
    let rec = parse_line("1abc\t7\textra\tmore").unwrap();
    assert_eq!(rec.address, "1abc");
    assert_eq!(rec.balance, Some(7));
}

#[test]
fn parse_rejects_malformed_lines() {
    assert!(parse_line("").is_none());
    assert!(parse_line("\t5000").is_none());
    assert!(parse_line("1abc\t").is_none());
    assert!(parse_line("1abc\tx9").is_none());
    assert!(parse_line("1abc\t12 3").is_none());
}

#[test]
fn parse_balance_at_i64_limits() {
    let rec = parse_line("a\t9223372036854775807").unwrap();
    assert_eq!(rec.balance, Some(i64::MAX));
    assert!(parse_line("a\t9223372036854775808").is_none());
    assert!(parse_line("a\t99999999999999999999999999").is_none());
}

#[test]
fn ingest_loads_and_indexes_each_address_once() {
    let mut store = Store::open_in_memory().unwrap();
    let lines = vec![
        "1abc\t10".to_string(),
        "1def".to_string(),
        "broken\t".to_string(),
        "1abc\t999".to_string(),
    ];
    store.ingest(&lines, &no_policy()).unwrap();
    assert_eq!(store.count().unwrap(), 2);
    assert_eq!(store.lookup("1abc").unwrap(), Some(Some(10)));
    assert_eq!(store.lookup("1def").unwrap(), Some(None));
    assert_eq!(store.lookup("broken").unwrap(), None);
}

#[test]
fn ingest_applies_prefix_policy() {
    let mut store = Store::open_in_memory().unwrap();
    let lines = vec!["1keep\t1".to_string(), "3drop\t2".to_string(), "keepnot\t3".to_string()];
    let policy = PrefixPolicy { required: Some("1".to_string()) };
    store.ingest(&lines, &policy).unwrap();
    assert_eq!(store.count().unwrap(), 1);
    assert_eq!(store.lookup("1keep").unwrap(), Some(Some(1)));
    assert_eq!(store.lookup("3drop").unwrap(), None);
}

#[test]
fn ingest_twice_leaves_contents_identical() {
    let mut store = Store::open_in_memory().unwrap();
    let lines = vec!["1abc\t10".to_string(), "1def\t20".to_string()];
    store.ingest(&lines, &no_policy()).unwrap();
    store.ingest(&lines, &no_policy()).unwrap();
    assert_eq!(store.count().unwrap(), 2);
    assert_eq!(store.lookup("1abc").unwrap(), Some(Some(10)));
    assert_eq!(store.lookup("1def").unwrap(), Some(Some(20)));
}

#[test]
fn ingest_skips_nonempty_store_entirely() {
    let mut store = Store::open_in_memory().unwrap();
    let first = vec!["1abc\t10".to_string()];
    store.ingest(&first, &no_policy()).unwrap();
    let second = vec!["1zzz\t77".to_string()];
    store.ingest(&second, &no_policy()).unwrap();
    assert_eq!(store.count().unwrap(), 1);
    assert_eq!(store.lookup("1zzz").unwrap(), None);
    assert_eq!(store.lookup("1abc").unwrap(), Some(Some(10)));
}

#[test]
fn ingest_of_empty_dataset_is_idempotent() {
    let mut store = Store::open_in_memory().unwrap();
    let lines: Vec<String> = Vec::new();
    store.ingest(&lines, &no_policy()).unwrap();
    store.ingest(&lines, &no_policy()).unwrap();
    assert_eq!(store.count().unwrap(), 0);
}

#[test]
fn store_open_failure_is_surfaced() {
    match Store::open("/") {
        Err(StoreError) => (),
        Ok(_) => panic!("opening a directory as a store must fail"),
    }
}

#[test]
fn read_only_open_of_missing_store_is_surfaced() {
    match Store::open_read_only("/nonexistent/store.db") {
        Err(StoreError) => (),
        Ok(_) => panic!("a read-only open cannot create a store"),
    }
}

#[test]
fn store_keys_returns_each_address_once() {
    let mut store = Store::open_in_memory().unwrap();
    let lines = vec!["1b\t2".to_string(), "1a\t1".to_string(), "1b\t3".to_string()];
    store.ingest(&lines, &no_policy()).unwrap();
    let mut keys = store.keys().unwrap();
    keys.sort();
    assert_eq!(keys, vec!["1a".to_string(), "1b".to_string()]);
}
