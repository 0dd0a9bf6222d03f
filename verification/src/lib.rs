//! Event-driven settlement core for a Lightning-style payment-channel node
//! that carries client-side-validated asset allocations (RGB contracts) on
//! the same channels and on-chain transactions as Lightning value.
//!
//! The crate holds the decision logic only: it reacts to channel-lifecycle
//! events by planning asset-aware funding and reclaim transactions, tracking
//! which on-chain outputs carry asset allocations, driving the lifecycle of
//! transfer proofs, and validating intercepted HTLCs that stand for atomic
//! Lightning-for-asset swaps.  All I/O — the wallet, the asset-ledger
//! service, the proxy relay, the protocol engine — stays outside and talks
//! to this crate through plain values.

pub mod consignment;
pub mod coordinator;
pub mod errors;
pub mod events;
pub mod funding;
pub mod ledger;
pub mod reclaim;
pub mod script;
pub mod swap;
pub mod text;
pub mod types;
