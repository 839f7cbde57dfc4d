//! Error kinds of the pool and of the vault.
use vstd::prelude::*;

verus! {

/// Failures of the constant-product pool.
#[derive(Clone, Copy, Debug, PartialEq, Eq, Structural, PartialOrd, Ord, Hash)]
pub enum PoolError {
    AlreadyInitialized,
    NotInitialized,
    InsufficientLiquidity,
    InsufficientAmount,
    InsufficientOutputAmount,
    InvalidTokenPair,
    SlippageExceeded,
    Unauthorized,
}

/// Failures of the vault, its share ledger and its rebalancing engine.
#[derive(Clone, Copy, Debug, PartialEq, Eq, Structural, Hash)]
pub enum VaultError {
    NotInitialized,
    AlreadyInitialized,
    InvalidConfiguration,
    InvalidAmount,
    InsufficientBalance,
    InsufficientShares,
    InsufficientLiquidity,
    InsufficientOutputAmount,
    InvalidTokenPair,
    SlippageExceeded,
    SlippageTooHigh,
    RouterNotSet,
    Unauthorized,
}

} // verus!
