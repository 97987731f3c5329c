//! The probabilistic pre-filter: an immutable bloom filter built once over
//! every stored address. Sizing follows the standard formulas
//! m = ceil(-n ln(eps) / (ln 2)^2) and k = round((m / n) ln 2) for a target
//! false-positive rate eps = 10^-eps_exp, rendered in fixed-point integer
//! arithmetic (ratios scaled by 10^7 and 10^8) with the bit count rounded up
//! to a whole number of 64-bit words. The filter itself is held behind
//! trusted wrappers over `fastbloom_rs`; its contents are modelled as the set
//! of inserted keys, and the wrappers promise exactly the bloom guarantee:
//! an inserted key always tests positive.

use vstd::prelude::*;
use fastbloom_rs::Membership;
use crate::store::{Store, StoreError};

verus! {

/// ln(10) / (ln 2)^2, scaled by 10^7.
pub const LN10_OVER_LN2_SQ_E7: u64 = 47925292;

/// ln(2), scaled by 10^8.
pub const LN2_E8: u64 = 69314718;

/// Bit count of a filter sized for `n` expected keys and a false-positive
/// target of 10^-exp: ceil(n * exp * ln(10) / (ln 2)^2) in fixed point,
/// rounded up to a multiple of 64.
pub open spec fn spec_filter_bits(n: int, exp: int) -> int {
    let raw = (n * exp * (LN10_OVER_LN2_SQ_E7 as int) + 9999999) / 10000000;
    if raw % 64 == 0 {
        raw
    } else {
        raw + (64 - raw % 64)
    }
}

/// Hash-function count of the filter: round((m / n) * ln 2) in fixed point,
/// with m the bit count for (n, exp).
pub open spec fn spec_filter_hashes(n: int, exp: int) -> int {
    let m = spec_filter_bits(n, exp);
    (2 * m * (LN2_E8 as int) + n * 100000000) / (2 * n * 100000000)
}

/// Dimensions of a probabilistic filter: bit-array size and hash count.
pub struct FilterParams {
    pub bits: u64,
    pub hashes: u32,
}

impl FilterParams {
    /// Dimensions the underlying filter handles without panicking: a
    /// positive whole number of 64-bit words, at least one hash, and both
    /// small enough that the double-hashed index arithmetic stays inside
    /// `u64`.
    pub open spec fn wf(self) -> bool {
        self.bits >= 64 && self.bits % 64 == 0 && self.bits <= 0x100000000000000 && 1
            <= self.hashes <= 128
    }
}

/// Computes the filter dimensions for `n` expected keys and a target
/// false-positive rate of 10^-eps_exp. The bounds on `n` and `eps_exp` keep
/// the fixed-point arithmetic inside `u128`.
pub fn filter_params(n: u64, eps_exp: u32) -> (r: FilterParams)
    requires
        1 <= n <= 0x1000000000000u64,
        1 <= eps_exp <= 18,
    ensures
        r.bits == spec_filter_bits(n as int, eps_exp as int),
        r.hashes == spec_filter_hashes(n as int, eps_exp as int),
        r.wf(),
{
    let n128: u128 = n as u128;
    let e128: u128 = eps_exp as u128;
    proof {
        assert(n128 * e128 <= 5066549580791808) by (nonlinear_arith)
            requires
                n128 <= 0x1000000000000,
                e128 <= 18,
        ;
        assert(n128 * e128 * (LN10_OVER_LN2_SQ_E7 as u128) <= 5066549580791808 * 47925292)
            by (nonlinear_arith)
            requires
                n128 * e128 <= 5066549580791808,
        ;
        assert(n128 * e128 * (LN10_OVER_LN2_SQ_E7 as u128) <= n128 * 862655256) by (nonlinear_arith)
            requires
                1 <= n128,
                1 <= e128 <= 18,
        ;
        assert(n128 * 862655256 <= 0x1000000000000 * 862655256) by (nonlinear_arith)
            requires
                n128 <= 0x1000000000000,
        ;
        assert(n128 * e128 * (LN10_OVER_LN2_SQ_E7 as u128) >= n128 * 47925292) by (nonlinear_arith)
            requires
                1 <= n128,
                1 <= e128,
        ;
    }
    let prod: u128 = n128 * e128 * (LN10_OVER_LN2_SQ_E7 as u128);
    let raw: u128 = (prod + 9999999) / 10000000;
    proof {
        assert(raw <= 87 * n128) by (nonlinear_arith)
            requires
                raw == (prod + 9999999) / 10000000,
                prod <= n128 * 862655256,
                1 <= n128,
        ;
        assert(raw >= 4 * n128) by (nonlinear_arith)
            requires
                raw == (prod + 9999999) / 10000000,
                prod >= n128 * 47925292,
                1 <= n128,
        ;
    }
    let bits128: u128 = if raw % 64 == 0 {
        raw
    } else {
        raw + (64 - raw % 64)
    };
    assert(bits128 % 64 == 0 && raw <= bits128 <= raw + 63);
    proof {
        assert(bits128 <= 87 * 0x1000000000000 + 63) by (nonlinear_arith)
            requires
                bits128 <= 87 * n128 + 63,
                n128 <= 0x1000000000000,
        ;
    }
    let bits: u64 = bits128 as u64;
    proof {
        assert(2 * bits128 * (LN2_E8 as u128) + n128 * 100000000 < 107 * (2 * n128 * 100000000))
            by (nonlinear_arith)
            requires
                bits128 <= 87 * n128 + 63,
                1 <= n128,
        ;
        assert(2 * bits128 * (LN2_E8 as u128) + n128 * 100000000 >= 2 * n128 * 100000000)
            by (nonlinear_arith)
            requires
                bits128 >= 4 * n128,
                1 <= n128,
        ;
    }
    let num: u128 = 2 * bits128 * (LN2_E8 as u128) + n128 * 100000000;
    let den: u128 = 2 * n128 * 100000000;
    let k128: u128 = num / den;
    proof {
        assert(1 <= k128 < 107) by (nonlinear_arith)
            requires
                k128 == num / den,
                den <= num,
                num < 107 * den,
                den > 0,
        ;
    }
    let hashes: u32 = k128 as u32;
    FilterParams { bits, hashes }
}

#[verifier::external_type_specification]
#[verifier::external_body]
pub struct ExBloomFilter(fastbloom_rs::BloomFilter);

/// The set of keys that have been inserted into a filter.
pub uninterp spec fn bloom_keys(f: fastbloom_rs::BloomFilter) -> Set<Seq<char>>;

/// Relies on fastbloom_rs::FilterBuilder::from_size_and_hashes and
/// build_bloom_filter: a fresh filter of the given dimensions has every bit
/// clear, so no key has been inserted. The dimensions must be a positive
/// multiple of 64 bits with at least one hash, which the underlying bit
/// vector indexes without panicking; the bounds on both keep the
/// double-hashed index sum (two values below `bits` plus at most 127 such
/// products) inside `u64`, so the hashing arithmetic cannot overflow either.
#[verifier::external_body]
fn bloom_new(bits: u64, hashes: u32) -> (f: fastbloom_rs::BloomFilter)
    requires
        bits >= 64,
        bits % 64 == 0,
        bits <= 0x100000000000000,
        1 <= hashes <= 128,
    ensures
        bloom_keys(f) == Set::<Seq<char>>::empty(),
{
    let mut builder = fastbloom_rs::FilterBuilder::from_size_and_hashes(bits, hashes);
    builder.build_bloom_filter()
}

/// Relies on fastbloom_rs::BloomFilter::add: inserting a key sets its index
/// bits; bits are never cleared, so the inserted key set only grows.
#[verifier::external_body]
pub(crate) fn bloom_add(f: &mut fastbloom_rs::BloomFilter, key: &str)
    ensures
        bloom_keys(*final(f)) == bloom_keys(*old(f)).insert(key@),
{
    f.add(key.as_bytes());
}

/// Relies on fastbloom_rs::BloomFilter::contains: it checks exactly the bits
/// that add sets and bits are never cleared, so a key that has been inserted
/// always tests positive (no false negatives), and a filter into which
/// nothing was ever inserted still has every bit clear, so every query on it
/// tests negative. A key never inserted into a non-empty filter may still
/// test positive: nothing is promised of it.
#[verifier::external_body]
pub(crate) fn bloom_check(f: &fastbloom_rs::BloomFilter, key: &str) -> (r: bool)
    ensures
        bloom_keys(*f).contains(key@) ==> r,
        bloom_keys(*f).finite() && bloom_keys(*f).len() == 0 ==> !r,
{
    f.contains(key.as_bytes())
}

/// Stage-1 membership test: a key inserted at build time always tests
/// positive, and a filter built over zero elements answers every query
/// negative; an absent key otherwise usually tests negative, subject to the
/// configured false-positive rate.
pub fn filter_test(f: &fastbloom_rs::BloomFilter, address: &str) -> (r: bool)
    ensures
        bloom_keys(*f).contains(address@) ==> r,
        bloom_keys(*f).finite() && bloom_keys(*f).len() == 0 ==> !r,
{
    bloom_check(f, address)
}

/// Builds the immutable pre-filter by streaming every stored address into a
/// fresh filter of the given dimensions. On success the inserted key set is
/// exactly the store's key set, so the filter yields no false negative for
/// any stored address. The false-positive rate tracks the configured target
/// only while the real cardinality matches the expected one, and at very
/// aggressive targets (beyond about one in ten thousand) the underlying
/// double-hashed bit indexing observably exceeds the formula's promise by a
/// small factor; neither is silently corrected.
pub fn build_filter(store: &Store, params: FilterParams) -> (r: Result<
    fastbloom_rs::BloomFilter,
    StoreError,
>)
    requires
        params.wf(),
    ensures
        r matches Ok(f) ==> bloom_keys(f) == store.contents().dom(),
{
    let keys: Vec<String> = match store.keys() {
        Ok(v) => v,
        Err(_) => return Err(StoreError),
    };
    let mut f = bloom_new(params.bits, params.hashes);
    proof {
        assert(keys.deep_view().take(0).to_set() =~= Set::<Seq<char>>::empty());
    }
    let n: usize = keys.len();
    let mut i: usize = 0;
    while i < n
        invariant
            0 <= i <= n,
            n == keys.len(),
            bloom_keys(f) == keys.deep_view().take(i as int).to_set(),
        decreases n - i,
    {
        bloom_add(&mut f, keys[i].as_str());
        proof {
            let kv = keys.deep_view();
            assert(kv[i as int] == keys[i as int]@);
            assert(kv.take(i + 1) =~= kv.take(i as int).push(kv[i as int]));
            kv.take(i as int).lemma_push_to_set_commute(kv[i as int]);
            assert(kv.take(i + 1).to_set() =~= kv.take(i as int).to_set().insert(kv[i as int]));
        }
        i = i + 1;
    }
    proof {
        assert(keys.deep_view().take(n as int) =~= keys.deep_view());
    }
    Ok(f)
}

} // verus!
