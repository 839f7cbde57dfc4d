use syft_vault::ids::AccountId;
use syft_vault::mock_pool::{LiquidityPosition, MockLiquidityPool, MockPoolError};
use syft_vault::token::{CustomToken, TokenError};

fn id(name: &str) -> AccountId {
    AccountId::new(name.as_bytes().to_vec())
}

#[test]
fn test_token_initialization() {
    let admin = id("ADMIN");
    let mut token = CustomToken::new();
    let admin_balance = token.initialize(admin.clone(), 7, "Test Token".to_string(), "TEST".to_string(), 1_000_000_0000000);
    assert_eq!(token.name(), "Test Token");
    assert_eq!(token.symbol(), "TEST");
    assert_eq!(token.decimals(), 7);
    assert_eq!(admin_balance, Some(1_000_000_0000000));
    assert_eq!(token.admin(), Ok(&admin));
}

#[test]
fn test_transfer() {
    let admin = id("ADMIN");
    let user = id("USER");
    let mut token = CustomToken::new();
    let admin_balance = token.initialize(admin.clone(), 7, "Test Token".to_string(), "TEST".to_string(), 1000_0000000).unwrap();
    let (admin_after, user_after) = CustomToken::transfer(&admin, &user, admin_balance, 0, 100_0000000).unwrap();
    assert_eq!(admin_after, 900_0000000);
    assert_eq!(user_after, 100_0000000);
}

#[test]
fn token_defaults_and_errors() {
    let token = CustomToken::new();
    assert_eq!(token.name(), "Unknown");
    assert_eq!(token.symbol(), "???");
    assert_eq!(token.decimals(), 7);
    assert_eq!(token.admin(), Err(TokenError::NotInitialized));
    assert_eq!(token.mint(0, 5), Err(TokenError::NotInitialized));
    assert_eq!(CustomToken::transfer(&id("A"), &id("B"), 5, 0, 6), Err(TokenError::InsufficientBalance));
    assert_eq!(CustomToken::transfer(&id("A"), &id("B"), 5, i128::MAX, 1), Err(TokenError::Overflow));
    assert_eq!(CustomToken::transfer(&id("A"), &id("A"), 5, 5, 3), Ok((5, 5)));
}

#[test]
fn token_mint_and_allowance() {
    let mut token = CustomToken::new();
    assert_eq!(token.initialize(id("ADMIN"), 6, "T".to_string(), "T".to_string(), 0), None);
    assert_eq!(token.mint(10, 5), Ok(15));
    assert_eq!(token.mint(i128::MAX, 1), Err(TokenError::Overflow));
    assert_eq!(CustomToken::transfer_from(50, &id("A"), &id("B"), 100, 0, 60), Err(TokenError::InsufficientAllowance));
    assert_eq!(CustomToken::transfer_from(50, &id("A"), &id("B"), 10, 0, 40), Err(TokenError::InsufficientBalance));
    assert_eq!(CustomToken::transfer_from(50, &id("A"), &id("B"), 100, 1, 40), Ok((10, 60, 41)));
}

#[test]
fn test_add_liquidity() {
    let mut pool = MockLiquidityPool::new();
    let mut position = None;
    let (lp_tokens, amount_a, amount_b) = pool.add_liquidity(&mut position, 1000, 500, 900, 450, 9999999999, 0).unwrap();
    assert_eq!(lp_tokens, 1500);
    assert_eq!(amount_a, 1000);
    assert_eq!(amount_b, 500);
}

#[test]
fn mock_pool_round_trip_and_errors() {
    let mut pool = MockLiquidityPool::new();
    let mut position = None;
    assert_eq!(pool.add_liquidity(&mut position, 1000, 500, 0, 0, 10, 11), Err(MockPoolError::DeadlineExpired));
    assert_eq!(pool.add_liquidity(&mut position, 1000, 500, 1001, 0, 10, 0), Err(MockPoolError::InsufficientAmounts));
    pool.add_liquidity(&mut position, 1000, 500, 0, 0, 10, 0).unwrap();
    assert_eq!(pool.get_total_lp(), 1500);
    assert_eq!(pool.remove_liquidity(&mut position, 1501, 0, 0, 10, 0), Err(MockPoolError::InsufficientLpTokens));
    assert_eq!(pool.remove_liquidity(&mut position, 300, 201, 0, 10, 0), Err(MockPoolError::InsufficientOutputAmounts));
    assert_eq!(pool.remove_liquidity(&mut position, 300, 200, 100, 10, 0), Ok((200, 100)));
    assert_eq!(MockLiquidityPool::get_position(&position), LiquidityPosition { lp_tokens: 1200, token_a_provided: 800, token_b_provided: 400 });
    assert_eq!(pool.remove_liquidity(&mut position, 1200, 0, 0, 10, 0), Ok((800, 400)));
    assert_eq!(position, None);
    assert_eq!(pool.get_total_lp(), 0);
    assert_eq!(MockLiquidityPool::get_position(&position).lp_tokens, 0);
    assert_eq!(MockLiquidityPool::quote(1234), 123);
}
