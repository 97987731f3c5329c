//! The two-stage membership verifier. Stage 1 tests a candidate address
//! against the probabilistic filter without touching the store; only a
//! filter-positive goes on to stage 2, the authoritative point lookup. A
//! failing lookup is fatal to the caller, never downgraded to a miss.

use vstd::prelude::*;
use crate::filter::{bloom_keys, bloom_check};
use crate::store::{Store, StoreError, spec_lookup};

verus! {

/// Outcome of verifying one candidate address: a miss, or a confirmed hit
/// carrying the stored attributes.
#[derive(Clone, Copy, Debug, PartialEq, Eq, Structural)]
pub enum Verdict {
    Miss,
    ConfirmedHit { balance: Option<i64> },
}

/// The verdict owed for an address against given store contents: a confirmed
/// hit with the stored balance exactly when the address is stored, a miss
/// otherwise.
pub open spec fn spec_verdict(m: Map<Seq<char>, Option<i64>>, a: Seq<char>) -> Verdict {
    if m.dom().contains(a) {
        Verdict::ConfirmedHit { balance: m[a] }
    } else {
        Verdict::Miss
    }
}

/// Turns the result of an authoritative lookup into the verdict it dictates:
/// an absent row (an expected filter false positive) is a miss; a present row
/// is a confirmed hit with its stored attributes.
pub fn classify_lookup(found: Option<Option<i64>>) -> (v: Verdict)
    ensures
        v == (match found {
            Some(balance) => Verdict::ConfirmedHit { balance },
            None => Verdict::Miss,
        }),
{
    match found {
        Some(balance) => Verdict::ConfirmedHit { balance },
        None => Verdict::Miss,
    }
}

/// Law: no false negatives. For a verifier whose filter holds every stored
/// address (as a filter built over the store does), a stored address is never
/// screened out at stage 1 — it is in the filter's key set, so the filter
/// tests positive for it — and the verdict owed for it is the confirmed hit
/// carrying its stored balance, never a miss.
pub proof fn lemma_stored_address_never_missed(v: Verifier, a: Seq<char>)
    requires
        v.wf(),
        v.store.contents().dom().contains(a),
    ensures
        bloom_keys(v.filter).contains(a),
        spec_verdict(v.store.contents(), a) == (Verdict::ConfirmedHit {
            balance: v.store.contents()[a],
        }),
{
}

/// Shared read-only handles of one worker: the immutable pre-filter and the
/// authoritative store it was built from.
pub struct Verifier {
    pub filter: fastbloom_rs::BloomFilter,
    pub store: Store,
}

impl Verifier {
    /// Every stored address was inserted into the filter (the filter was
    /// built at or after ingestion), so stage 1 never screens out a stored
    /// address: the no-false-negative invariant.
    pub open spec fn wf(self) -> bool {
        forall|a: Seq<char>| self.store.contents().dom().contains(a) ==> bloom_keys(
            self.filter,
        ).contains(a)
    }

    /// Verifies one candidate address. A filter negative is classified a miss
    /// without touching the store; a filter positive is settled by the
    /// authoritative lookup. On success the verdict is exactly the one the
    /// store contents dictate; a failed lookup is surfaced as an error. On a
    /// filter holding no key at all (a store that was empty at build time),
    /// stage 1 settles every address, so no error can occur.
    pub fn verify(&self, address: &str) -> (r: Result<Verdict, StoreError>)
        requires
            self.wf(),
        ensures
            r matches Ok(v) ==> v == spec_verdict(self.store.contents(), address@),
            bloom_keys(self.filter).finite() && bloom_keys(self.filter).len() == 0 ==> r is Ok,
    {
        if !bloom_check(&self.filter, address) {
            return Ok(Verdict::Miss);
        }
        match self.store.lookup(address) {
            Ok(found) => Ok(classify_lookup(found)),
            Err(e) => Err(e),
        }
    }
}

} // verus!
