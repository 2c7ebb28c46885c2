//! A memory-bounded, freshness-aware cache for file lines and contents.
//!
//! The crate keeps three bounded stores keyed by file path: parsed line
//! sequences, verbatim file contents, and freshness fingerprints
//! (modification time plus byte size).  Callers perform the filesystem
//! probes and reads themselves and hand the outcomes in as plain values;
//! every decision taken on those outcomes -- splitting bytes into lines,
//! detecting staleness, invalidating, serving cached values -- is made
//! here and carries a verified contract.
//!
//! The facade itself is synchronous; the bounded stores underneath are
//! concurrent and may evict entries between any two calls, and every
//! contract in this crate is stated to hold whatever the stores chose to
//! keep.

pub mod bounded;
pub mod cache;
pub mod fingerprint;
pub mod pick;
pub mod split;
