use plutus::filter::{build_filter, filter_params, filter_test};
use plutus::store::{PrefixPolicy, Store};

fn no_policy() -> PrefixPolicy {
    PrefixPolicy { required: None }
}

#[test]
fn sizing_for_thousand_keys_at_ten_to_minus_six() {
    let p = filter_params(1000, 6);
    assert_eq!(p.bits, 28800);
    assert_eq!(p.hashes, 20);
}

#[test]
fn sizing_smallest_configuration() {
    let p = filter_params(1, 1);
    assert_eq!(p.bits, 64);
    assert_eq!(p.hashes, 44);
}

#[test]
fn sizing_always_word_aligned() {
    for n in [1u64, 2, 10, 999, 1000, 12345, 1000000, 23072442, 1 << 48] {
        for e in [1u32, 2, 6, 12, 18] {
            let p = filter_params(n, e);
            assert_eq!(p.bits % 64, 0);
            assert!(p.bits >= 64);
            assert!(p.hashes >= 1);
        }
    }
}

#[test]
fn no_false_negatives_over_ingested_keys() {
    let mut store = Store::open_in_memory().unwrap();
    let mut lines = Vec::new();
    for i in 0..500 {
        lines.push(format!("1key{}\t{}", i, i));
    }
    store.ingest(&lines, &no_policy()).unwrap();
    let filter = build_filter(&store, filter_params(500, 6)).unwrap();
    for i in 0..500 {
        let key = format!("1key{}", i);
        assert!(filter_test(&filter, &key), "stored key must test positive");
    }
}

fn absent_positives(eps_exp: u32, samples: usize) -> u64 {
    let mut store = Store::open_in_memory().unwrap();
    let mut lines = Vec::new();
    for i in 0..1000 {
        lines.push(format!("member{}\t0", i));
    }
    store.ingest(&lines, &no_policy()).unwrap();
    let filter = build_filter(&store, filter_params(1000, eps_exp)).unwrap();
    let mut positives: u64 = 0;
    for i in 0..samples {
        let key = format!("absent{}", i);
        if filter_test(&filter, &key) {
            positives += 1;
        }
    }
    positives
}

#[test]
fn false_positive_rate_approximates_configured_target() {
    // 1000 known keys, eps = 10^-3, 100000 absent keys: the observed rate
    // stays within an order of magnitude of the configured target.
    let positives = absent_positives(3, 100000);
    assert!(positives <= 1000, "observed {} positives", positives);
    assert!(positives >= 10, "observed {} positives", positives);
}

#[test]
fn false_positive_rate_stays_small_at_millionth_target() {
    // 1000 known keys, eps = 10^-6, 100000 absent keys. The double-hashed
    // bit indexing of the underlying filter visibly exceeds so aggressive a
    // target: a few positives show up here where the formula promises 0.1.
    // The rate still stays below a ten-thousandth.
    let positives = absent_positives(6, 100000);
    assert!(positives <= 10, "observed {} positives", positives);
}
