//! Accounting core of a token-staking pool.
//!
//! The library tracks how much value each depositor has staked, keeps a
//! time-bucketed history of the total pool size, and computes each
//! depositor's accrued reward share on demand. Deposits made during one
//! calendar day are folded into a single bucket that takes effect at the
//! following midnight; rewards are computed by walking the bucket history
//! backwards from "now" and granting each stake its pro-rata share of a
//! fixed daily reward budget.
//!
//! Transport, message decoding, identity validation and the host's
//! persistence layer are outside this crate; callers hand the core plain
//! values (instants as nanoseconds since the epoch, amounts as integers)
//! and explicit state stores.

pub mod contract;
pub mod error;
pub mod laws;
pub mod msg;
pub mod state;
pub mod time;
