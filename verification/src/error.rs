//! Errors of the staking core.
//!
//! Every failure aborts the whole call: the mutating operations leave
//! their state stores unchanged whenever they return an error.

use vstd::prelude::*;

verus! {

/// Why a call into the staking core failed.
#[derive(Clone, Copy, Debug, PartialEq, Eq, Structural)]
pub enum ContractError {
    /// The caller is not allowed to perform the operation.
    Unauthorized,
    /// A deposit was not paid in the pool's configured token.
    WrongCurrency,
    /// A multiplication or addition in the accounting did not fit in the
    /// amount type. Fatal: no state is written.
    ArithmeticOverflow,
    /// A pool-size snapshot of zero was encountered where a pro-rata
    /// share had to be computed. Fatal: no state is written.
    DivisionByZero,
}

} // verus!
