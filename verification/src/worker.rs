//! One worker of the pool: an endless loop of generate, verify, and record on
//! hit, over shared read-only handles to the filter and the store. The loop
//! itself and the durable side effects live with the caller; the per-
//! iteration decisions are here, and each candidate is handled
//! independently, carrying no state between iterations.

use vstd::prelude::*;
use crate::filter::bloom_keys;
use crate::hitlog::{HitLog, HitRecord, spec_record_block};
use crate::store::StoreError;
use crate::verify::{Verdict, Verifier};

verus! {

/// One ephemeral candidate: secret material, derived public identity and
/// derived address. It lives only for one verification attempt and is never
/// kept unless it becomes a confirmed hit.
pub struct Candidate {
    pub secret: String,
    pub public_id: String,
    pub address: String,
}

/// Relies on secp256k1 (through bitcoin's re-export) and bitcoin: draws a
/// fresh secret key from the thread-local cryptographically secure random
/// generator and derives the compressed public key and its mainnet
/// pay-to-pubkey-hash address. The result depends on fresh randomness, so
/// nothing is promised of it.
#[verifier::external_body]
fn derive_candidate() -> (c: Candidate)
{
    let secp = bitcoin::secp256k1::Secp256k1::new();
    let secret_key = bitcoin::secp256k1::SecretKey::new(&mut bitcoin::secp256k1::rand::thread_rng());
    let private_key = bitcoin::PrivateKey::new(secret_key, bitcoin::Network::Bitcoin);
    let public_key = bitcoin::PublicKey::from_private_key(&secp, &private_key);
    let address = bitcoin::Address::p2pkh(&public_key, bitcoin::Network::Bitcoin);
    Candidate {
        secret: private_key.to_wif(),
        public_id: public_key.to_string(),
        address: address.to_string(),
    }
}

/// Handles one candidate: the two-stage membership check, and on a confirmed
/// hit the appending of its record block to the log. Returns the appended
/// block on a hit, `None` on a miss (the log untouched), and the store error
/// on a failed authoritative lookup (never downgraded to a miss; fatal to
/// the calling worker). On a filter holding no key at all the store is never
/// reached, so the outcome is a miss, not an error.
pub fn check_candidate(v: &Verifier, log: &mut HitLog, cand: &Candidate) -> (r: Result<
    Option<String>,
    StoreError,
>)
    requires
        v.wf(),
    ensures
        match r {
            Ok(out) => match out {
                None => final(log)@ == old(log)@ && !v.store.contents().dom().contains(
                    cand.address@,
                ),
                Some(block) => v.store.contents().dom().contains(cand.address@) && block@
                    == spec_record_block(
                    cand.secret@,
                    cand.public_id@,
                    cand.address@,
                    v.store.contents()[cand.address@],
                ) && final(log)@ == old(log)@.push(block@),
            },
            Err(_) => final(log)@ == old(log)@,
        },
        bloom_keys(v.filter).finite() && bloom_keys(v.filter).len() == 0 ==> r is Ok,
{
    let verdict = match v.verify(cand.address.as_str()) {
        Ok(vd) => vd,
        Err(e) => return Err(e),
    };
    match verdict {
        Verdict::Miss => Ok(None),
        Verdict::ConfirmedHit { balance } => {
            let rec = HitRecord {
                secret: cand.secret.clone(),
                public_id: cand.public_id.clone(),
                address: cand.address.clone(),
                balance,
            };
            let block = log.append_hit(&rec);
            Ok(Some(block))
        },
    }
}

/// One worker-loop iteration: generate a fresh candidate, verify it, and
/// record it on a confirmed hit. Whatever candidate the generator drew, a
/// returned block is the well-formed record of an address present in the
/// store with its stored balance, appended at the end of the log; on a miss
/// the log is untouched; a store error is surfaced, and on a filter holding
/// no key at all none can occur.
pub fn worker_step(v: &Verifier, log: &mut HitLog) -> (r: Result<Option<String>, StoreError>)
    requires
        v.wf(),
    ensures
        match r {
            Ok(out) => match out {
                None => final(log)@ == old(log)@,
                Some(block) => final(log)@ == old(log)@.push(block@) && exists|
                    s: Seq<char>,
                    pk: Seq<char>,
                    a: Seq<char>,
                |
                    v.store.contents().dom().contains(a) && block@ == spec_record_block(
                        s,
                        pk,
                        a,
                        v.store.contents()[a],
                    ),
            },
            Err(_) => final(log)@ == old(log)@,
        },
        bloom_keys(v.filter).finite() && bloom_keys(v.filter).len() == 0 ==> r is Ok,
{
    let cand = derive_candidate();
    check_candidate(v, log, &cand)
}

} // verus!
