//! Settlement logic of a two-asset constant-product liquidity pool.
//!
//! `curve` prices deposits and swaps; `deposit` and `swap` validate a request
//! against the pool's policy and the caller's bounds and return the effects
//! that settle it; `ledger` applies such effects to the pool's balances as one
//! unit.
pub mod curve;
pub mod deposit;
pub mod error;
pub mod ledger;
pub mod pool;
pub mod swap;
