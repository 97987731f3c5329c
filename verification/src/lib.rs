//! Membership verification pipeline: ingestion of a line-oriented address
//! dataset into an authoritative keyed store, construction of a probabilistic
//! pre-filter over that store, and a two-stage verifier that classifies
//! candidate addresses as misses or confirmed hits, recording every confirmed
//! hit in an append-only log.

pub mod filter;
pub mod hitlog;
pub mod notify;
pub mod parse;
pub mod store;
pub mod verify;
pub mod worker;
