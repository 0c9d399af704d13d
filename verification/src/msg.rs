//! The message surface of the contract, as plain values.
//!
//! An outside dispatcher decodes the wire encoding, validates addresses
//! and hands the core these values; encoding the answers back is equally
//! the dispatcher's concern.

use vstd::prelude::*;

verus! {

/// Settings a pool is created with.
#[derive(Debug)]
pub struct InstantiateMsg {
    /// Initial value of the demonstration counter.
    pub count: i32,
    /// The token contract whose coins the pool stakes.
    pub token_addr: String,
    /// The fixed daily reward budget shared by all depositors.
    pub rewards_per_day: u128,
}

/// What a batch of received tokens asks the pool to do.
#[derive(Clone, Copy, Debug, PartialEq, Eq, Structural)]
pub enum ReceiveMsg {
    Stake {},
    AddToBank {},
}

/// The funds behind a deposit: native coins, which the pool refuses, or
/// an amount of the pool's own token.
#[derive(Clone, Copy, Debug, PartialEq, Eq, Structural)]
pub enum Balance {
    Native,
    Cw20 { amount: u128 },
}

/// A mutating call. The `Receive` variant carries a token transfer whose
/// inner request has already been decoded and whose depositor address has
/// already been validated.
#[derive(Debug)]
pub enum ExecuteMsg {
    Increment {},
    Reset { count: i32 },
    Unstake { count: u128 },
    Receive { sender: String, amount: u128, msg: ReceiveMsg },
}

/// A read-only call.
#[derive(Clone, Copy, Debug, PartialEq, Eq, Structural)]
pub enum QueryMsg {
    GetCount {},
}

/// Answer to `QueryMsg::GetCount`.
#[derive(Clone, Copy, Debug, PartialEq, Eq, Structural)]
pub struct GetCountResponse {
    pub count: i32,
}

} // verus!
