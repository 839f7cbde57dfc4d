use syft_vault::errors::VaultError;
use syft_vault::ids::AccountId;
use syft_vault::types::{LiquidityPosition, RebalanceRule, RuleAction, UserPosition, VaultConfig, VaultState};
use syft_vault::vault::{actual_total_value, deposit_shares, rules_with_action, withdrawal_payout, VaultContract};

fn id(name: &str) -> AccountId {
    AccountId::new(name.as_bytes().to_vec())
}

fn config(assets: &[&str]) -> VaultConfig {
    VaultConfig {
        owner: id("OWNER"),
        name: "Balanced".to_string(),
        assets: assets.iter().map(|a| id(a)).collect(),
        rules: Vec::new(),
        router_address: None,
        liquidity_pool_address: None,
        staking_pool_address: None,
        factory_address: None,
        exit_asset: None,
    }
}

fn vault(assets: &[&str]) -> VaultContract {
    let mut v = VaultContract::new();
    v.initialize(config(assets)).unwrap();
    v
}

fn empty_position() -> UserPosition {
    UserPosition { shares: 0, last_deposit: 0 }
}

#[test]
fn initialization_rules() {
    let mut v = VaultContract::new();
    assert_eq!(v.initialize(config(&[])), Err(VaultError::InvalidConfiguration));
    assert_eq!(v.get_config().err(), Some(VaultError::NotInitialized));
    assert_eq!(v.initialize(config(&["USDC", "XLM"])), Ok(()));
    assert_eq!(v.initialize(config(&["USDC"])), Err(VaultError::AlreadyInitialized));
    assert_eq!(v.get_state(), VaultState { total_shares: 0, total_value: 0, last_rebalance: 0 });
    assert_eq!(v.get_config().unwrap().assets.len(), 2);
    assert_eq!(v.base_asset().unwrap(), &id("USDC"));
    assert_eq!(v.find_xlm_token().unwrap(), &id("XLM"));
}

#[test]
fn first_and_second_deposit_shares() {
    let mut v = vault(&["USDC", "XLM"]);
    let mut alice = empty_position();
    assert_eq!(v.deposit(&mut alice, 1_000_000, 10), Ok(1_000_000));
    assert_eq!(alice, UserPosition { shares: 1_000_000, last_deposit: 10 });
    assert_eq!(v.get_state().total_value, 1_000_000);
    let mut bob = empty_position();
    assert_eq!(v.deposit(&mut bob, 500_000, 11), Ok(500_000));
    assert_eq!(v.get_state(), VaultState { total_shares: 1_500_000, total_value: 1_500_000, last_rebalance: 0 });
}

#[test]
fn deposit_share_formula() {
    let fresh = VaultState { total_shares: 0, total_value: 0, last_rebalance: 0 };
    assert_eq!(deposit_shares(&fresh, 1_000_000), Some(1_000_000));
    let grown = VaultState { total_shares: 1_000_000, total_value: 2_000_000, last_rebalance: 0 };
    assert_eq!(deposit_shares(&grown, 500_000), Some(250_000));
    let broken = VaultState { total_shares: 10, total_value: 0, last_rebalance: 0 };
    assert_eq!(deposit_shares(&broken, 5), None);
}

#[test]
fn deposit_of_another_token_uses_swapped_value() {
    let mut v = vault(&["USDC", "XLM"]);
    let mut p = empty_position();
    assert_eq!(v.deposit_route(100, &id("XLM")), Err(VaultError::RouterNotSet));
    assert_eq!(v.deposit_with_token(&mut p, 100, &id("XLM"), 90, 1), Err(VaultError::RouterNotSet));
    v.set_router(id("ROUTER")).unwrap();
    assert_eq!(v.deposit_route(100, &id("XLM")), Ok(Some(id("ROUTER"))));
    assert_eq!(v.deposit_route(100, &id("USDC")), Ok(None));
    // a deposit too small to survive the swap mints nothing, and fails nothing
    assert_eq!(v.deposit_with_token(&mut p, 100, &id("XLM"), 0, 1), Ok(0));
    assert_eq!(v.deposit_with_token(&mut p, 100, &id("XLM"), -5, 1), Err(VaultError::InvalidAmount));
    assert_eq!(v.deposit_with_token(&mut p, 100, &id("XLM"), 90, 1), Ok(90));
    assert_eq!(v.get_state().total_value, 90);
    // the swapped amount is ignored when the base asset is deposited
    assert_eq!(v.deposit_with_token(&mut p, 90, &id("USDC"), 7, 2), Ok(90));
    assert_eq!(p.shares, 180);
}

#[test]
fn deposit_errors() {
    let mut uninit = VaultContract::new();
    let mut p = empty_position();
    assert_eq!(uninit.deposit(&mut p, 10, 0), Err(VaultError::NotInitialized));
    let mut v = vault(&["USDC"]);
    assert_eq!(v.deposit(&mut p, 0, 0), Err(VaultError::InvalidAmount));
    assert_eq!(v.deposit(&mut p, -3, 0), Err(VaultError::InvalidAmount));
    v.deposit(&mut p, i128::MAX, 0).unwrap();
    assert_eq!(v.deposit(&mut p, 1, 0), Err(VaultError::InvalidAmount));
    assert_eq!(p.shares, i128::MAX);
}

#[test]
fn withdrawal_without_shortfall_pays_entitlement() {
    let mut v = vault(&["USDC", "XLM"]);
    let mut alice = empty_position();
    v.deposit(&mut alice, 1000, 0).unwrap();
    assert_eq!(v.withdraw_entitlement(&alice, 400), Ok(400));
    assert_eq!(v.withdraw(&mut alice, 400, 5000), Ok(400));
    assert_eq!(alice.shares, 600);
    assert_eq!(v.get_state(), VaultState { total_shares: 600, total_value: 600, last_rebalance: 0 });
}

#[test]
fn withdrawal_shortfall_is_shared_by_shares() {
    let mut v = vault(&["USDC", "XLM"]);
    let mut alice = empty_position();
    let mut bob = empty_position();
    v.deposit(&mut alice, 500_000, 0).unwrap();
    v.deposit(&mut bob, 500_000, 0).unwrap();
    // liquidation realized only 900,000 of the 1,000,000 recorded
    assert_eq!(v.withdraw(&mut alice, 500_000, 900_000), Ok(450_000));
    assert_eq!(v.get_state(), VaultState { total_shares: 500_000, total_value: 550_000, last_rebalance: 0 });
    // the second depositor bears the same 10% cut, not the whole shortfall
    assert_eq!(v.withdraw(&mut bob, 500_000, 450_000), Ok(450_000));
    assert_eq!(v.get_state(), VaultState { total_shares: 0, total_value: 100_000, last_rebalance: 0 });
    let state = VaultState { total_shares: 1000, total_value: 1000, last_rebalance: 0 };
    assert_eq!(withdrawal_payout(&state, 500, 500, 900), Some(450));
    assert_eq!(withdrawal_payout(&state, 500, 500, 450), Some(225));
    assert_eq!(withdrawal_payout(&state, 500, 500, 1000), Some(500));
}

#[test]
fn withdrawal_errors() {
    let mut uninit = VaultContract::new();
    let mut p = UserPosition { shares: 10, last_deposit: 0 };
    assert_eq!(uninit.withdraw(&mut p, 1, 10), Err(VaultError::NotInitialized));
    let mut v = vault(&["USDC", "XLM"]);
    assert_eq!(v.withdraw(&mut p, 0, 10), Err(VaultError::InvalidAmount));
    assert_eq!(v.withdraw(&mut p, 11, 10), Err(VaultError::InsufficientShares));
    assert_eq!(v.withdraw(&mut p, 5, 10), Err(VaultError::InvalidAmount));
    let mut alice = empty_position();
    v.deposit(&mut alice, 100, 0).unwrap();
    // a position claiming more shares than exist cannot be paid from what was realized
    let mut forged = UserPosition { shares: 1000, last_deposit: 0 };
    assert_eq!(v.withdraw(&mut forged, 1000, 50), Err(VaultError::InsufficientBalance));
    assert_eq!(forged.shares, 1000);
    assert_eq!(v.get_state().total_shares, 100);
}

#[test]
fn owner_only_settings() {
    let mut v = vault(&["USDC"]);
    assert_eq!(v.set_staking_pool(&id("MALLORY"), id("POOL")), Err(VaultError::Unauthorized));
    assert_eq!(v.set_factory(&id("MALLORY"), id("FACTORY")), Err(VaultError::Unauthorized));
    assert_eq!(v.set_staking_pool(&id("OWNER"), id("POOL")), Ok(()));
    assert_eq!(v.set_factory(&id("OWNER"), id("FACTORY")), Ok(()));
    let c = v.get_config().unwrap();
    assert_eq!(c.staking_pool_address, Some(id("POOL")));
    assert_eq!(c.factory_address, Some(id("FACTORY")));
    let mut uninit = VaultContract::new();
    assert_eq!(uninit.set_router(id("R")), Err(VaultError::NotInitialized));
    assert_eq!(uninit.set_factory(&id("OWNER"), id("F")), Err(VaultError::NotInitialized));
    assert_eq!(uninit.record_rebalance(5), Err(VaultError::NotInitialized));
    assert_eq!(v.record_rebalance(5), Ok(()));
    assert_eq!(v.get_state().last_rebalance, 5);
}

#[test]
fn liquidation_skips_exit_asset_and_empty_balances() {
    let v = vault(&["USDC", "EURC", "AQUA", "XLM"]);
    assert_eq!(v.assets_to_liquidate(&vec![10, 0, 3, 50]), Ok(vec![0, 2]));
    assert_eq!(VaultContract::new().assets_to_liquidate(&vec![]), Err(VaultError::NotInitialized));
}

#[test]
fn total_value_of_balances() {
    assert_eq!(actual_total_value(&vec![10, 20, 30]), Ok(60));
    assert_eq!(actual_total_value(&vec![0, 0]), Err(VaultError::InsufficientBalance));
    assert_eq!(actual_total_value(&vec![i128::MAX, 1, -5]), Err(VaultError::InvalidAmount));
}

#[test]
fn rules_by_action() {
    let rule = |action| RebalanceRule {
        condition_type: "time".to_string(),
        threshold: 0,
        action,
        target_allocation: Vec::new(),
    };
    let rules = vec![rule(RuleAction::Stake), rule(RuleAction::Rebalance), rule(RuleAction::Other), rule(RuleAction::Rebalance)];
    assert_eq!(rules_with_action(&rules, RuleAction::Rebalance), vec![1, 3]);
    assert_eq!(rules_with_action(&rules, RuleAction::Liquidity), Vec::<usize>::new());
}

#[test]
fn staking_amounts() {
    let mut v = vault(&["XLM", "USDC"]);
    assert_eq!(v.stake_amount(500_000, 1000, 1000), Err(VaultError::InvalidConfiguration));
    v.set_staking_pool(&id("OWNER"), id("STAKE")).unwrap();
    assert_eq!(v.stake_amount(500_000, 1000, 1000), Ok(500));
    assert_eq!(v.stake_amount(500_000, 1000, 499), Err(VaultError::InsufficientBalance));
    assert_eq!(v.stake_amount(2_000_000, 1000, 5000), Err(VaultError::InsufficientBalance));
    assert_eq!(v.stake_amount(i128::MAX, 1000, 5000), Err(VaultError::InvalidAmount));
}

#[test]
fn liquidity_positions() {
    let mut v = vault(&["XLM"]);
    assert_eq!(v.plan_liquidity(500_000, 1000, 1000, 1000, 7), Err(VaultError::InvalidConfiguration));
    let mut c = config(&["XLM", "USDC"]);
    c.liquidity_pool_address = Some(id("LP"));
    v = VaultContract::new();
    v.initialize(c).unwrap();
    assert_eq!(
        v.plan_liquidity(500_000, 1000, 1000, 1000, 7),
        Ok(LiquidityPosition {
            pool_address: id("LP"),
            token_a: id("XLM"),
            token_b: id("USDC"),
            lp_tokens: 500,
            amount_a_provided: 250,
            amount_b_provided: 250,
            timestamp: 7,
        })
    );
    assert_eq!(v.plan_liquidity(500_000, 1000, 249, 1000, 7), Err(VaultError::InsufficientBalance));
}

#[test]
fn configured_exit_asset_replaces_last_asset() {
    let mut c = config(&["XLM", "USDC", "EURC"]);
    c.exit_asset = Some(id("XLM"));
    let mut v = VaultContract::new();
    v.initialize(c).unwrap();
    assert_eq!(v.find_xlm_token(), Ok(&id("XLM")));
    assert_eq!(v.assets_to_liquidate(&vec![5, 6, 0]), Ok(vec![1]));
    let plain = vault(&["XLM", "USDC", "EURC"]);
    assert_eq!(plain.find_xlm_token(), Ok(&id("EURC")));
    assert_eq!(plain.assets_to_liquidate(&vec![5, 6, 0]), Ok(vec![0, 1]));
}
