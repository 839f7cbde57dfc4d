use syft_vault::errors::VaultError;
use syft_vault::ids::AccountId;
use syft_vault::router::{
    approval_expiry, calculate_real_pool_output, check_liquidity_removal, check_optimal_liquidity_request,
    check_pool_receipt, check_token_amount, find_pool_for_pair, liquidity_minimums, prepare_real_pool_swap,
    reserves_from, choose_route, route_path, PoolCandidate, SwapRoute,
};

fn id(name: &str) -> AccountId {
    AccountId::new(name.as_bytes().to_vec())
}

#[test]
fn pool_output_by_direction() {
    let (a, b) = (id("A"), id("B"));
    assert_eq!(calculate_real_pool_output(&a, &a, &b, (1000, 500), 100), Ok(45));
    assert_eq!(calculate_real_pool_output(&b, &a, &b, (1000, 500), 100), Ok(99_700_000 / 599_700));
    assert_eq!(calculate_real_pool_output(&id("C"), &a, &b, (1000, 500), 100), Err(VaultError::InvalidConfiguration));
    assert_eq!(calculate_real_pool_output(&a, &a, &b, (1000, 500), 0), Err(VaultError::InvalidAmount));
    assert_eq!(calculate_real_pool_output(&a, &a, &b, (1000, i128::MAX), 100), Err(VaultError::InvalidAmount));
}

#[test]
fn real_pool_swap_checks() {
    let (a, b) = (id("A"), id("B"));
    assert_eq!(prepare_real_pool_swap(&a, &b, &a, &b, (1000, 500), 100, 45), Ok(45));
    assert_eq!(prepare_real_pool_swap(&a, &b, &a, &b, (1000, 500), 100, 46), Err(VaultError::SlippageTooHigh));
    assert_eq!(prepare_real_pool_swap(&a, &id("C"), &a, &b, (1000, 500), 100, 0), Err(VaultError::InvalidConfiguration));
    assert_eq!(prepare_real_pool_swap(&a, &b, &a, &b, (1000, 500), -1, 0), Err(VaultError::InvalidAmount));
}

#[test]
fn pool_lookup_for_pair() {
    let xlm_pool = PoolCandidate { pool: id("POOL_X"), token_0: id("TKN"), token_1: id("XLM") };
    let other = PoolCandidate { pool: id("POOL_O"), token_0: id("OTHER"), token_1: id("XLM") };
    assert_eq!(find_pool_for_pair(&id("TKN"), &id("XLM"), &Some(xlm_pool.clone()), &None), Some(id("POOL_X")));
    assert_eq!(find_pool_for_pair(&id("XLM"), &id("TKN"), &Some(other.clone()), &Some(xlm_pool.clone())), Some(id("POOL_X")));
    assert_eq!(find_pool_for_pair(&id("TKN"), &id("XLM"), &Some(other), &None), None);
    assert_eq!(find_pool_for_pair(&id("TKN"), &id("XLM"), &None, &None), None);
}

#[test]
fn liquidity_request_checks() {
    assert_eq!(liquidity_minimums(1000, 500, 5), Ok((950, 475)));
    assert_eq!(liquidity_minimums(1000, 0, 5), Err(VaultError::InvalidAmount));
    assert_eq!(liquidity_minimums(1000, 500, 101), Err(VaultError::InvalidConfiguration));
    assert_eq!(liquidity_minimums(i128::MAX, 500, 5), Err(VaultError::InvalidAmount));
    assert_eq!(check_liquidity_removal(0, 5), Err(VaultError::InvalidAmount));
    assert_eq!(check_liquidity_removal(10, -1), Err(VaultError::InvalidConfiguration));
    assert_eq!(check_liquidity_removal(10, 100), Ok(()));
    assert_eq!(check_pool_receipt(&[3, 1, 2]), Ok(()));
    assert_eq!(check_pool_receipt(&[3, 0]), Err(VaultError::InvalidAmount));
    assert_eq!(check_optimal_liquidity_request(1, 1, 0), Err(VaultError::InvalidAmount));
    assert_eq!(check_optimal_liquidity_request(1, 1, 1), Ok(()));
}

#[test]
fn token_amount_and_approval_expiry() {
    assert_eq!(check_token_amount(1), Ok(()));
    assert_eq!(check_token_amount(0), Err(VaultError::InvalidAmount));
    assert_eq!(approval_expiry(5), Some(105));
    assert_eq!(approval_expiry(u32::MAX - 99), None);
}

#[test]
fn reserves_ordered_from_input_side() {
    let (a, b) = (id("A"), id("B"));
    assert_eq!(reserves_from(&a, &a, &b, (10, 20)), Ok((10, 20)));
    assert_eq!(reserves_from(&b, &a, &b, (10, 20)), Ok((20, 10)));
    assert_eq!(reserves_from(&id("C"), &a, &b, (10, 20)), Err(VaultError::InvalidConfiguration));
}

#[test]
fn routes_direct_via_bridge_or_skipped() {
    let (a, b, x) = (id("A"), id("B"), id("XLM"));
    assert_eq!(choose_route(&a, &b, &x, true), SwapRoute::Direct);
    assert_eq!(choose_route(&a, &b, &x, false), SwapRoute::ViaBridge);
    assert_eq!(choose_route(&a, &x, &x, false), SwapRoute::Skip);
    assert_eq!(choose_route(&x, &b, &x, false), SwapRoute::Skip);
    assert_eq!(route_path(&a, &b, &x, SwapRoute::Direct), vec![a.clone(), b.clone()]);
    assert_eq!(route_path(&a, &b, &x, SwapRoute::ViaBridge), vec![a.clone(), x.clone(), b.clone()]);
    assert_eq!(route_path(&a, &b, &x, SwapRoute::Skip), Vec::<AccountId>::new());
}
