//! A multi-asset treasury: a constant-product liquidity pool, a share ledger
//! for depositors, and a planner that moves holdings toward a target allocation.
pub mod arith;
pub mod errors;
pub mod ids;
pub mod pool;
pub mod types;
pub mod vault;
pub mod rebalance;
pub mod router;
pub mod token;
pub mod mock_pool;
