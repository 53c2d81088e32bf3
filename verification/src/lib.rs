//! Core state-transition logic of two small on-chain modules: a digital-collectible
//! ("kitty") registry with per-token deposits, and a proof-of-existence registry of
//! byte-string claims.  Each public operation is a deterministic, all-or-nothing
//! transition of a replicated key/value state; the surrounding ledger host (origin
//! checking, entropy, block production) hands in plain values.

pub mod host;
pub mod kitties;
pub mod laws;
pub mod ledger;
pub mod poe;
