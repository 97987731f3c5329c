use plutus::filter::{build_filter, filter_params, filter_test};
use plutus::hitlog::HitLog;
use plutus::store::{PrefixPolicy, Store};
use plutus::verify::Verdict;
use plutus::verify::Verifier;
use plutus::worker::{check_candidate, Candidate, worker_step};

const KNOWN: &str = "1A1zP1eP5QGefi2DMPTfTL5SLmv7DivfNa";

fn single_entry_verifier() -> Verifier {
    let mut store = Store::open_in_memory().unwrap();
    let lines = vec![format!("{}\t5000", KNOWN)];
    let policy = PrefixPolicy { required: Some("1".to_string()) };
    store.ingest(&lines, &policy).unwrap();
    let params = filter_params(1000, 6);
    let filter = build_filter(&store, params).unwrap();
    Verifier { filter, store }
}

#[test]
fn scenario_known_address_confirmed_hit() {
    let v = single_entry_verifier();
    let verdict = v.verify(KNOWN).unwrap();
    assert_eq!(verdict, Verdict::ConfirmedHit { balance: Some(5000) });
}

#[test]
fn scenario_known_address_recorded_once() {
    let v = single_entry_verifier();
    let mut log = HitLog::new();
    let cand = Candidate {
        secret: "L1aW4aubDFB7yfras2S1mN3bqg9nwySY8nkoLmJebSLD5BWv3ENZ".to_string(),
        public_id: "02a1633cafcc01ebfb6d78e39f687a1f0995c62fc95f51ead10a02ee0be551b5dc".to_string(),
        address: KNOWN.to_string(),
    };
    let block = check_candidate(&v, &mut log, &cand).unwrap().expect("expected a hit");
    assert_eq!(log.len(), 1);
    let expected = format!(
        "secret:{}\npublic:{}\naddress:{}\nbalance:5000\n\n",
        cand.secret, cand.public_id, cand.address
    );
    assert_eq!(block, expected);
    assert_eq!(log.entry(0), &expected);
}

#[test]
fn scenario_hit_attributes_match_store() {
    let v = single_entry_verifier();
    let found = v.store.lookup(KNOWN).unwrap();
    assert_eq!(found, Some(Some(5000)));
    match v.verify(KNOWN).unwrap() {
        Verdict::ConfirmedHit { balance } => assert_eq!(Some(balance), found),
        Verdict::Miss => panic!("stored address must not miss"),
    }
}

fn empty_verifier() -> Verifier {
    let mut store = Store::open_in_memory().unwrap();
    let lines: Vec<String> = Vec::new();
    let policy = PrefixPolicy { required: None };
    store.ingest(&lines, &policy).unwrap();
    let params = filter_params(1000, 6);
    let filter = build_filter(&store, params).unwrap();
    Verifier { filter, store }
}

#[test]
fn scenario_empty_store_always_misses() {
    let v = empty_verifier();
    let mut log = HitLog::new();
    let cand = Candidate {
        secret: "s".to_string(),
        public_id: "p".to_string(),
        address: KNOWN.to_string(),
    };
    assert_eq!(v.verify(KNOWN).unwrap(), Verdict::Miss);
    assert_eq!(v.verify("").unwrap(), Verdict::Miss);
    assert!(check_candidate(&v, &mut log, &cand).unwrap().is_none());
    assert_eq!(log.len(), 0);
}

#[test]
fn scenario_empty_filter_queries_safely() {
    let v = empty_verifier();
    assert!(!filter_test(&v.filter, KNOWN));
    assert!(!filter_test(&v.filter, ""));
    assert!(!filter_test(&v.filter, "anything at all"));
}

#[test]
fn filter_positive_absent_from_store_is_reclassified_miss() {
    // A filter holding more keys than the store stands for a false positive:
    // stage 2 settles it as a miss, never as an error or a hit.
    let mut wide_store = Store::open_in_memory().unwrap();
    let lines = vec![format!("{}\t5000", KNOWN), "1other\t1".to_string()];
    let policy = PrefixPolicy { required: Some("1".to_string()) };
    wide_store.ingest(&lines, &policy).unwrap();
    let wide_filter = build_filter(&wide_store, filter_params(1000, 6)).unwrap();

    let mut narrow_store = Store::open_in_memory().unwrap();
    let narrow_lines = vec![format!("{}\t5000", KNOWN)];
    narrow_store.ingest(&narrow_lines, &policy).unwrap();

    let v = Verifier { filter: wide_filter, store: narrow_store };
    assert!(filter_test(&v.filter, "1other"));
    assert_eq!(v.verify("1other").unwrap(), Verdict::Miss);
    assert_eq!(v.verify(KNOWN).unwrap(), Verdict::ConfirmedHit { balance: Some(5000) });
}

#[test]
fn worker_step_on_empty_store_records_nothing() {
    let v = empty_verifier();
    let mut log = HitLog::new();
    for _ in 0..16 {
        let out = worker_step(&v, &mut log).unwrap();
        assert!(out.is_none());
    }
    assert_eq!(log.len(), 0);
}
