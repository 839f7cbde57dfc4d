//! Records of the vault: configuration, aggregate state, positions and plans.
use vstd::prelude::*;
use crate::ids::AccountId;

verus! {

/// Fixed-point representation of 100%.
pub const FULL_ALLOCATION: i128 = 1_000_000;

/// What a rebalancing rule asks the vault to do.
#[derive(Clone, Copy, Debug, PartialEq, Eq, Structural, Hash)]
pub enum RuleAction {
    Rebalance,
    Stake,
    Liquidity,
    Swap,
    Other,
}

/// A rule: when it applies, what it does, and the target share of each asset
/// (aligned with the configured assets, 1,000,000 meaning 100%).
#[derive(Clone, Debug, PartialEq, Eq)]
pub struct RebalanceRule {
    pub condition_type: String,
    pub threshold: i128,
    pub action: RuleAction,
    pub target_allocation: Vec<i128>,
}

/// Set once at initialization. The first asset is the base (deposit) asset.
/// The exit (withdrawal) asset is `exit_asset` when set, else the last asset.
#[derive(Clone, Debug, PartialEq, Eq)]
pub struct VaultConfig {
    pub owner: AccountId,
    pub name: String,
    pub assets: Vec<AccountId>,
    pub rules: Vec<RebalanceRule>,
    pub router_address: Option<AccountId>,
    pub liquidity_pool_address: Option<AccountId>,
    pub staking_pool_address: Option<AccountId>,
    pub factory_address: Option<AccountId>,
    pub exit_asset: Option<AccountId>,
}

/// Aggregate shares and value (in base-asset units) of the vault.
#[derive(Clone, Copy, Debug, PartialEq, Eq, Structural)]
pub struct VaultState {
    pub total_shares: i128,
    pub total_value: i128,
    pub last_rebalance: u64,
}

/// One depositor's shares.
#[derive(Clone, Copy, Debug, PartialEq, Eq, Structural)]
pub struct UserPosition {
    pub shares: i128,
    pub last_deposit: u64,
}

/// A balance of one asset.
#[derive(Clone, Debug, PartialEq, Eq)]
pub struct AssetBalance {
    pub token: AccountId,
    pub amount: i128,
}

/// What the vault holds in a liquid-staking pool.
#[derive(Clone, Debug, PartialEq, Eq)]
pub struct StakingPosition {
    pub staking_pool: AccountId,
    pub original_token: AccountId,
    pub staked_amount: i128,
    pub st_token_amount: i128,
    pub timestamp: u64,
}

/// What the vault provided to a liquidity pool.
#[derive(Clone, Debug, PartialEq, Eq)]
pub struct LiquidityPosition {
    pub pool_address: AccountId,
    pub token_a: AccountId,
    pub token_b: AccountId,
    pub lp_tokens: i128,
    pub amount_a_provided: i128,
    pub amount_b_provided: i128,
    pub timestamp: u64,
}

/// One planned swap.
#[derive(Clone, Debug, PartialEq, Eq)]
pub struct RebalanceStep {
    pub from_token: AccountId,
    pub to_token: AccountId,
    pub amount_in: i128,
    pub min_amount_out: i128,
    pub pool_address: AccountId,
}

/// An ordered list of swaps, executable one at a time.
#[derive(Clone, Debug, PartialEq, Eq)]
pub struct RebalancePlan {
    pub steps: Vec<RebalanceStep>,
    pub total_steps: u32,
}

} // verus!
