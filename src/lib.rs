//! A small ledger-integrity engine: hash-chained blocks split over two
//! shards, transaction admission with signature and replay checks, and a
//! pluggable acceptance policy.

pub mod consensus;
pub mod contracts;
pub mod crypto;
pub mod laws;
pub mod ledger;
pub mod model;
pub mod text;
