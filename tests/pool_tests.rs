use syft_vault::errors::PoolError;
use syft_vault::ids::AccountId;
use syft_vault::pool::{swap_output, PoolInfo, RealLiquidityPool};

fn id(name: &str) -> AccountId {
    AccountId::new(name.as_bytes().to_vec())
}

fn fresh_pool() -> RealLiquidityPool {
    let mut pool = RealLiquidityPool::new();
    pool.initialize(id("TOKEN_A"), id("TOKEN_B")).unwrap();
    pool
}

fn info(pool: &RealLiquidityPool) -> PoolInfo {
    pool.get_pool_info().unwrap().clone()
}

#[test]
fn test_pool_initialization() {
    let token_a = id("TOKEN_A");
    let token_b = id("TOKEN_B");
    let mut pool = RealLiquidityPool::new();
    pool.initialize(token_a.clone(), token_b.clone()).unwrap();
    let pool_info = info(&pool);
    assert_eq!(pool_info.token_a, token_a);
    assert_eq!(pool_info.token_b, token_b);
    assert_eq!(pool_info.reserve_a, 0);
    assert_eq!(pool_info.reserve_b, 0);
}

#[test]
fn second_initialization_is_refused() {
    let mut pool = fresh_pool();
    assert_eq!(pool.initialize(id("X"), id("Y")), Err(PoolError::AlreadyInitialized));
    assert_eq!(info(&pool).token_a, id("TOKEN_A"));
}

#[test]
fn uninitialized_pool_refuses_work() {
    let mut pool = RealLiquidityPool::new();
    let mut shares: i128 = 0;
    assert_eq!(pool.add_liquidity(&mut shares, 10, 10, 0, 0), Err(PoolError::NotInitialized));
    assert_eq!(pool.swap(&id("TOKEN_A"), 10, 0), Err(PoolError::NotInitialized));
    assert_eq!(pool.remove_liquidity(&mut shares, 1, 0, 0), Err(PoolError::NotInitialized));
    assert_eq!(pool.get_reserves(), (0, 0));
    assert_eq!(pool.token_0().err(), Some(PoolError::NotInitialized));
    assert_eq!(pool.token_b().err(), Some(PoolError::NotInitialized));
}

#[test]
fn first_liquidity_mints_geometric_mean() {
    let mut pool = fresh_pool();
    let mut shares: i128 = 0;
    let r = pool.add_liquidity(&mut shares, 1000, 500, 0, 0).unwrap();
    assert_eq!(r, (707, 1000, 500));
    assert_eq!(shares, 707);
    assert_eq!(pool.get_reserves(), (1000, 500));
    assert_eq!(info(&pool).total_shares, 707);
}

#[test]
fn swap_prices_with_fee() {
    let mut pool = fresh_pool();
    let mut shares: i128 = 0;
    pool.add_liquidity(&mut shares, 1000, 500, 0, 0).unwrap();
    let out = pool.swap(&id("TOKEN_A"), 100, 0).unwrap();
    assert_eq!(out, 45);
    assert_eq!(out, (100 * 997 * 500) / (1000 * 1000 + 100 * 997));
    assert_eq!(pool.get_reserves(), (1100, 455));
}

#[test]
fn swap_in_the_other_direction() {
    let mut pool = fresh_pool();
    let mut shares: i128 = 0;
    pool.add_liquidity(&mut shares, 1000, 500, 0, 0).unwrap();
    let out = pool.swap(&id("TOKEN_B"), 100, 0).unwrap();
    assert_eq!(out, (100 * 997 * 1000) / (500 * 1000 + 100 * 997));
    assert_eq!(pool.get_reserves(), (1000 - out, 600));
}

#[test]
fn reserve_product_never_falls_on_swaps() {
    let mut pool = fresh_pool();
    let mut shares: i128 = 0;
    pool.add_liquidity(&mut shares, 1_000_000, 3_000_000, 0, 0).unwrap();
    let mut k = 1_000_000i128 * 3_000_000;
    for (token, amount) in [("TOKEN_A", 12_345i128), ("TOKEN_B", 999), ("TOKEN_A", 1), ("TOKEN_B", 250_000)] {
        pool.swap(&id(token), amount, 0).unwrap();
        let (a, b) = pool.get_reserves();
        assert!(a * b >= k);
        k = a * b;
    }
}

#[test]
fn remove_right_after_add_returns_everything() {
    let mut pool = fresh_pool();
    let mut shares: i128 = 0;
    let (minted, _, _) = pool.add_liquidity(&mut shares, 1000, 500, 0, 0).unwrap();
    let out = pool.remove_liquidity(&mut shares, minted, 0, 0).unwrap();
    assert_eq!(out, (1000, 500));
    assert_eq!(pool.get_reserves(), (0, 0));
    assert_eq!(info(&pool).total_shares, 0);
    assert_eq!(shares, 0);
}

#[test]
fn swap_below_minimum_fails_and_keeps_reserves() {
    let mut pool = fresh_pool();
    let mut shares: i128 = 0;
    pool.add_liquidity(&mut shares, 1000, 500, 0, 0).unwrap();
    assert_eq!(pool.swap(&id("TOKEN_A"), 100, 46), Err(PoolError::SlippageExceeded));
    assert_eq!(pool.get_reserves(), (1000, 500));
    assert_eq!(pool.swap(&id("TOKEN_A"), 100, 45), Ok(45));
}

#[test]
fn swap_errors() {
    let mut pool = fresh_pool();
    let mut shares: i128 = 0;
    assert_eq!(pool.swap(&id("TOKEN_A"), 0, 0), Err(PoolError::InsufficientAmount));
    assert_eq!(pool.swap(&id("TOKEN_A"), -5, 0), Err(PoolError::InsufficientAmount));
    assert_eq!(pool.swap(&id("TOKEN_A"), 100, 0), Err(PoolError::InsufficientLiquidity));
    pool.add_liquidity(&mut shares, 1000, 500, 0, 0).unwrap();
    assert_eq!(pool.swap(&id("OTHER"), 100, 0), Err(PoolError::InvalidTokenPair));
    assert_eq!(pool.swap(&id("TOKEN_A"), i128::MAX, 0), Err(PoolError::InsufficientAmount));
}

#[test]
fn swap_that_would_drain_is_refused() {
    let mut pool = fresh_pool();
    let mut shares: i128 = 0;
    pool.add_liquidity(&mut shares, 1, 1, 0, 0).unwrap();
    // 1 * 997 * 1 / (1000 + 997) rounds to zero, which stays below the reserve
    assert_eq!(pool.swap(&id("TOKEN_A"), 1, 0), Ok(0));
    let mut pool = RealLiquidityPool {
        info: Some(PoolInfo {
            token_a: id("TOKEN_A"),
            token_b: id("TOKEN_B"),
            reserve_a: 0,
            reserve_b: 500,
            total_shares: 10,
        }),
    };
    assert_eq!(pool.swap(&id("TOKEN_A"), 100, 0), Err(PoolError::InsufficientLiquidity));
    assert_eq!(pool.get_reserves(), (0, 500));
}

#[test]
fn later_liquidity_follows_reserve_ratio() {
    let mut pool = fresh_pool();
    let mut first: i128 = 0;
    pool.add_liquidity(&mut first, 1000, 500, 0, 0).unwrap();
    let mut second: i128 = 0;
    // 400 of a needs 200 of b; 300 of b offered is more than enough
    let r = pool.add_liquidity(&mut second, 400, 300, 0, 0).unwrap();
    assert_eq!(r, (400 * 707 / 1000, 400, 200));
    assert_eq!(second, 282);
    assert_eq!(pool.get_reserves(), (1400, 700));
    // 100 of a would need 50 of b; only 40 offered, so a is scaled to 40 of b instead
    let r = pool.add_liquidity(&mut second, 100, 40, 0, 0).unwrap();
    assert_eq!(r.1, 80);
    assert_eq!(r.2, 40);
}

#[test]
fn liquidity_minimums_and_errors() {
    let mut pool = fresh_pool();
    let mut shares: i128 = 0;
    pool.add_liquidity(&mut shares, 1000, 500, 0, 0).unwrap();
    let mut other: i128 = 0;
    assert_eq!(pool.add_liquidity(&mut other, 400, 300, 0, 250), Err(PoolError::InsufficientAmount));
    assert_eq!(pool.add_liquidity(&mut other, 150, 100, 160, 0), Err(PoolError::InsufficientAmount));
    assert_eq!(pool.add_liquidity(&mut other, -1, 100, 0, 0), Err(PoolError::InsufficientAmount));
    // a is scaled down to 200, and the 100 of b kept falls below its minimum of 200
    assert_eq!(pool.add_liquidity(&mut other, 1000, 100, 0, 200), Err(PoolError::InsufficientAmount));
    assert_eq!(pool.add_liquidity(&mut other, 1000, 100, 0, 100).map(|r| (r.1, r.2)), Ok((200, 100)));
    other = 0;
    assert_eq!(pool.add_liquidity(&mut other, 1, 0, 0, 0), Err(PoolError::InsufficientLiquidity));
    assert_eq!(other, 0);
    let mut empty = fresh_pool();
    assert_eq!(empty.add_liquidity(&mut other, 0, 10, 0, 0), Err(PoolError::InsufficientLiquidity));
    assert_eq!(empty.add_liquidity(&mut other, i128::MAX, 2, 0, 0), Err(PoolError::InsufficientAmount));
}

#[test]
fn remove_liquidity_errors() {
    let mut pool = fresh_pool();
    let mut shares: i128 = 0;
    pool.add_liquidity(&mut shares, 1000, 500, 0, 0).unwrap();
    assert_eq!(pool.remove_liquidity(&mut shares, 0, 0, 0), Err(PoolError::InsufficientLiquidity));
    assert_eq!(pool.remove_liquidity(&mut shares, 708, 0, 0), Err(PoolError::InsufficientLiquidity));
    let mut stranger: i128 = 5;
    assert_eq!(pool.remove_liquidity(&mut stranger, 6, 0, 0), Err(PoolError::InsufficientLiquidity));
    assert_eq!(pool.remove_liquidity(&mut shares, 100, 142, 0), Err(PoolError::SlippageExceeded));
    assert_eq!(pool.remove_liquidity(&mut shares, 100, 141, 70), Ok((141, 70)));
    assert_eq!(shares, 607);
    assert_eq!(pool.get_reserves(), (859, 430));
}

#[test]
fn integer_square_root() {
    assert_eq!(RealLiquidityPool::sqrt(0), 0);
    assert_eq!(RealLiquidityPool::sqrt(1), 1);
    assert_eq!(RealLiquidityPool::sqrt(2), 1);
    assert_eq!(RealLiquidityPool::sqrt(3), 1);
    assert_eq!(RealLiquidityPool::sqrt(4), 2);
    assert_eq!(RealLiquidityPool::sqrt(500_000), 707);
    assert_eq!(RealLiquidityPool::sqrt(-7), -7);
    let r = RealLiquidityPool::sqrt(i128::MAX);
    assert!(r * r <= i128::MAX);
    assert!((r + 1).checked_mul(r + 1).is_none() || (r + 1) * (r + 1) > i128::MAX);
}

#[test]
fn quote_at_reserve_ratio() {
    assert_eq!(RealLiquidityPool::quote(100, 1000, 500), 50);
    assert_eq!(RealLiquidityPool::quote(100, 0, 500), 100);
    assert_eq!(RealLiquidityPool::quote(100, 1000, 0), 100);
    assert_eq!(RealLiquidityPool::quote(i128::MAX, 1, 2), 0);
    assert_eq!(RealLiquidityPool::quote(-100, 1000, 500), -50);
}

#[test]
fn pool_queries() {
    let pool = fresh_pool();
    assert_eq!(pool.token_0().unwrap(), &id("TOKEN_A"));
    assert_eq!(pool.token_1().unwrap(), &id("TOKEN_B"));
    assert_eq!(pool.token_a().unwrap(), &id("TOKEN_A"));
    assert_eq!(pool.token_b().unwrap(), &id("TOKEN_B"));
}

#[test]
fn raw_swap_output_formula() {
    assert_eq!(swap_output(100, 1000, 500), Some(45));
    assert_eq!(swap_output(0, 0, 500), None);
    assert_eq!(swap_output(i128::MAX, 1, 1), None);
}

#[test]
fn counter_token_of_each_side() {
    let pool = fresh_pool();
    assert_eq!(pool.counter_token(&id("TOKEN_A")), Ok(&id("TOKEN_B")));
    assert_eq!(pool.counter_token(&id("TOKEN_B")), Ok(&id("TOKEN_A")));
    assert_eq!(pool.counter_token(&id("OTHER")), Err(PoolError::InvalidTokenPair));
    assert_eq!(RealLiquidityPool::new().counter_token(&id("TOKEN_A")), Err(PoolError::NotInitialized));
}
