//! Failure conditions of the hub and of the rewards dispatcher.
//!
//! Policy rejections and solvency guards fail fast with no state mutation;
//! `Arithmetic` marks a checked overflow, underflow or division by zero,
//! which callers must treat as fatal to the whole call.

use vstd::prelude::*;

verus! {

#[derive(Clone, Copy, Debug, PartialEq, Eq, Structural)]
pub enum ContractError {
    /// The contract is temporarily paused.
    Paused,
    /// The caller is not allowed to perform this operation.
    Unauthorized,
    /// The reward dispatcher contract has not been registered yet.
    RewardDispatcherNotRegistered,
    /// The derivative token contract has not been registered yet.
    TokenContractNotRegistered,
    /// More than one coin was sent; only one asset is supported.
    MoreThanOneCoin,
    /// No asset of the underlying denomination was provided to bond.
    NoFunds,
    /// No closed batch has passed its unbonding period yet.
    NothingWithdrawableYet,
    /// The caller holds no claim on any released batch.
    NoWithdrawableAssets,
    /// The derivative token contract address can not be changed once set.
    StAtomTokenUpdateForbidden,
    /// The reward denomination of the dispatcher can not be changed.
    RewardDenomUpdateForbidden,
    /// A checked arithmetic operation overflowed or divided by zero.
    Arithmetic,
}

} // verus!
