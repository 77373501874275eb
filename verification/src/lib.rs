//! Accounting core of a liquid-staking hub: users bond a native staking asset
//! for a derivative token at a floating exchange rate, redeem the derivative
//! through batched, delayed unbonding, and any slashing detected between
//! observations is absorbed by the rate and, at settlement time, shared
//! proportionally by every maturing batch.
//!
//! All chain interaction (queries, messages, serialization) lives outside this
//! crate; every function here works on plain values and carries a contract.

pub mod bond;
pub mod config;
pub mod contract;
pub mod dispatcher;
pub mod error;
pub mod hub;
pub mod laws;
pub mod math;
pub mod unbond;
