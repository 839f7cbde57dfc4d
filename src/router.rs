//! Decisions around the external pools and tokens the vault trades through:
//! pricing a swap, checking that a pool serves a pair, and sizing liquidity
//! provision. The calls themselves are made by the host.
use vstd::prelude::*;
use crate::arith::{fits_i128, trunc_div};
use crate::errors::VaultError;
use crate::ids::AccountId;
use crate::pool::{swap_output, swap_output_spec};

verus! {

/// Ledgers an approval stays valid for.
pub const APPROVAL_LEDGERS: u32 = 100;

/// The tokens a pool trades and the pool itself.
#[derive(Clone, Debug, PartialEq, Eq)]
pub struct PoolCandidate {
    pub pool: AccountId,
    pub token_0: AccountId,
    pub token_1: AccountId,
}

/// Expected output of swapping `amount_in` of `from` through a pool of
/// `(token_a, token_b)` with reserves `(reserve_a, reserve_b)`.
pub open spec fn pool_output_spec(
    from: Seq<u8>,
    token_a: Seq<u8>,
    token_b: Seq<u8>,
    reserve_a: int,
    reserve_b: int,
    amount_in: int,
) -> Result<int, VaultError> {
    if amount_in <= 0 {
        Err(VaultError::InvalidAmount)
    } else if from != token_a && from != token_b {
        Err(VaultError::InvalidConfiguration)
    } else {
        let (reserve_in, reserve_out) = if from == token_a {
            (reserve_a, reserve_b)
        } else {
            (reserve_b, reserve_a)
        };
        match swap_output_spec(amount_in, reserve_in, reserve_out) {
            None => Err(VaultError::InvalidAmount),
            Some(out) => Ok(out),
        }
    }
}

/// Expected output of a swap through a constant-product pool with the fee,
/// from its pair and reserves. Fails with `InvalidAmount` for a non-positive
/// input or on overflow and with `InvalidConfiguration` when `from_token` is
/// not in the pair.
pub fn calculate_real_pool_output(
    from_token: &AccountId,
    token_a: &AccountId,
    token_b: &AccountId,
    reserves: (i128, i128),
    amount_in: i128,
) -> (r: Result<i128, VaultError>)
    ensures
        match (r, pool_output_spec(from_token@, token_a@, token_b@, reserves.0 as int, reserves.1 as int, amount_in as int)) {
            (Ok(a), Ok(b)) => a == b,
            (Err(e), Err(f)) => e == f,
            _ => false,
        },
{
    if amount_in <= 0 {
        return Err(VaultError::InvalidAmount);
    }
    let (reserve_in, reserve_out) = if from_token.same_as(token_a) {
        (reserves.0, reserves.1)
    } else if from_token.same_as(token_b) {
        (reserves.1, reserves.0)
    } else {
        return Err(VaultError::InvalidConfiguration);
    };
    match swap_output(amount_in, reserve_in, reserve_out) {
        None => Err(VaultError::InvalidAmount),
        Some(out) => Ok(out),
    }
}

/// The reserves of a pool of `(token_a, token_b)` ordered as `(reserve of
/// from_token, reserve of the other token)`. Fails with
/// `InvalidConfiguration` when `from_token` is not in the pair.
pub fn reserves_from(
    from_token: &AccountId,
    token_a: &AccountId,
    token_b: &AccountId,
    reserves: (i128, i128),
) -> (r: Result<(i128, i128), VaultError>)
    ensures
        from_token@ == token_a@ ==> r == Ok::<(i128, i128), VaultError>(reserves),
        from_token@ != token_a@ && from_token@ == token_b@ ==> r == Ok::<(i128, i128), VaultError>(
            (reserves.1, reserves.0),
        ),
        from_token@ != token_a@ && from_token@ != token_b@ ==> r == Err::<(i128, i128), VaultError>(
            VaultError::InvalidConfiguration,
        ),
{
    if from_token.same_as(token_a) {
        Ok(reserves)
    } else if from_token.same_as(token_b) {
        Ok((reserves.1, reserves.0))
    } else {
        Err(VaultError::InvalidConfiguration)
    }
}

/// Checks a swap of `amount_in` from `from_token` to `to_token` through a pool
/// of `(token_a, token_b)` before any token moves, and returns its expected
/// output. Fails with `InvalidAmount` (non-positive input, overflow),
/// `InvalidConfiguration` (a token outside the pair) or `SlippageTooHigh`
/// (expected output below `min_amount_out`).
pub fn prepare_real_pool_swap(
    from_token: &AccountId,
    to_token: &AccountId,
    token_a: &AccountId,
    token_b: &AccountId,
    reserves: (i128, i128),
    amount_in: i128,
    min_amount_out: i128,
) -> (r: Result<i128, VaultError>)
    ensures
        amount_in <= 0 ==> r == Err::<i128, VaultError>(VaultError::InvalidAmount),
        amount_in > 0 && (from_token@ != token_a@ && from_token@ != token_b@ || to_token@ != token_a@ && to_token@
            != token_b@) ==> r == Err::<i128, VaultError>(VaultError::InvalidConfiguration),
        amount_in > 0 && (from_token@ == token_a@ || from_token@ == token_b@) && (to_token@ == token_a@ || to_token@
            == token_b@) ==> match (r, pool_output_spec(from_token@, token_a@, token_b@, reserves.0 as int, reserves.1 as int, amount_in as int)) {
            (Ok(a), Ok(b)) => a == b && b >= min_amount_out,
            (Err(e), Ok(b)) => b < min_amount_out && e == VaultError::SlippageTooHigh,
            (Err(e), Err(f)) => e == f,
            _ => false,
        },
{
    if amount_in <= 0 {
        return Err(VaultError::InvalidAmount);
    }
    let from_in = from_token.same_as(token_a) || from_token.same_as(token_b);
    let to_in = to_token.same_as(token_a) || to_token.same_as(token_b);
    if !from_in || !to_in {
        return Err(VaultError::InvalidConfiguration);
    }
    let expected = match calculate_real_pool_output(from_token, token_a, token_b, reserves, amount_in) {
        Err(e) => return Err(e),
        Ok(v) => v,
    };
    if expected < min_amount_out {
        return Err(VaultError::SlippageTooHigh);
    }
    Ok(expected)
}

/// Whether a pool trading `(token_0, token_1)` serves the pair `(a, b)`.
pub open spec fn serves_pair(c: PoolCandidate, a: Seq<u8>, b: Seq<u8>) -> bool {
    (a == c.token_0@ || a == c.token_1@) && (b == c.token_0@ || b == c.token_1@)
}

/// The pool chosen for the pair `(a, b)` among the ones registered for `a`
/// and for `b`, by the address bytes of the pool.
pub open spec fn pool_choice(for_a: Option<PoolCandidate>, for_b: Option<PoolCandidate>, a: Seq<u8>, b: Seq<u8>) -> Option<Seq<u8>> {
    if for_a is Some && serves_pair(for_a->Some_0, a, b) {
        Some(for_a->Some_0.pool@)
    } else if for_b is Some && serves_pair(for_b->Some_0, a, b) {
        Some(for_b->Some_0.pool@)
    } else {
        None
    }
}

/// An optional identity seen by its address bytes.
pub open spec fn opt_view(r: Option<AccountId>) -> Option<Seq<u8>> {
    match r {
        Some(x) => Some(x@),
        None => None,
    }
}

/// The pool to trade `token_a` against `token_b`: the pool registered for
/// `token_a` if it serves the pair, else the one registered for `token_b` if
/// it does, else none.
pub fn find_pool_for_pair(
    token_a: &AccountId,
    token_b: &AccountId,
    registered_for_a: &Option<PoolCandidate>,
    registered_for_b: &Option<PoolCandidate>,
) -> (r: Option<AccountId>)
    ensures
        opt_view(r) == pool_choice(*registered_for_a, *registered_for_b, token_a@, token_b@),
{
    if let Some(c) = registered_for_a {
        if pair_served(c, token_a, token_b) {
            return Some(c.pool.duplicate());
        }
    }
    if let Some(c) = registered_for_b {
        if pair_served(c, token_a, token_b) {
            return Some(c.pool.duplicate());
        }
    }
    None
}

/// Whether `c` serves the pair `(a, b)` (see `serves_pair`).
fn pair_served(c: &PoolCandidate, a: &AccountId, b: &AccountId) -> (r: bool)
    ensures
        r == serves_pair(*c, a@, b@),
{
    (a.same_as(&c.token_0) || a.same_as(&c.token_1)) && (b.same_as(&c.token_0) || b.same_as(&c.token_1))
}

/// Least amount accepted for `amount` under `slippage_percent`:
/// `amount * (100 - slippage_percent) / 100`.
pub open spec fn with_slippage_spec(amount: int, slippage_percent: int) -> Option<int> {
    if !fits_i128(amount * (100 - slippage_percent)) {
        None
    } else {
        Some(trunc_div(amount * (100 - slippage_percent), 100))
    }
}

/// Minimum amounts for providing `amount_a` and `amount_b` of liquidity under
/// `slippage_percent`. Fails with `InvalidAmount` for a non-positive amount or
/// on overflow and with `InvalidConfiguration` for a percentage outside 0..=100.
pub fn liquidity_minimums(amount_a: i128, amount_b: i128, slippage_percent: i128) -> (r: Result<(i128, i128), VaultError>)
    ensures
        amount_a <= 0 || amount_b <= 0 ==> r == Err::<(i128, i128), VaultError>(VaultError::InvalidAmount),
        amount_a > 0 && amount_b > 0 && (slippage_percent < 0 || slippage_percent > 100) ==> r == Err::<
            (i128, i128),
            VaultError,
        >(VaultError::InvalidConfiguration),
        amount_a > 0 && amount_b > 0 && 0 <= slippage_percent <= 100 ==> match (
            with_slippage_spec(amount_a as int, slippage_percent as int),
            with_slippage_spec(amount_b as int, slippage_percent as int),
        ) {
            (Some(x), Some(y)) => r == Ok::<(i128, i128), VaultError>((x as i128, y as i128)),
            _ => r == Err::<(i128, i128), VaultError>(VaultError::InvalidAmount),
        },
{
    if amount_a <= 0 || amount_b <= 0 {
        return Err(VaultError::InvalidAmount);
    }
    check_slippage(slippage_percent)?;
    let keep = 100 - slippage_percent;
    let min_a = match crate::arith::mul_div(amount_a, keep, 100) {
        Some(v) => v,
        None => return Err(VaultError::InvalidAmount),
    };
    let min_b = match crate::arith::mul_div(amount_b, keep, 100) {
        Some(v) => v,
        None => return Err(VaultError::InvalidAmount),
    };
    Ok((min_a, min_b))
}

/// A slippage percentage must lie in 0..=100.
pub fn check_slippage(slippage_percent: i128) -> (r: Result<(), VaultError>)
    ensures
        r is Ok <==> 0 <= slippage_percent <= 100,
        r is Err ==> r == Err::<(), VaultError>(VaultError::InvalidConfiguration),
{
    if slippage_percent < 0 || slippage_percent > 100 {
        Err(VaultError::InvalidConfiguration)
    } else {
        Ok(())
    }
}

/// Checks a request to burn `lp_tokens` under `slippage_percent`. Fails with
/// `InvalidAmount` for a non-positive count and with `InvalidConfiguration`
/// for a percentage outside 0..=100.
pub fn check_liquidity_removal(lp_tokens: i128, slippage_percent: i128) -> (r: Result<(), VaultError>)
    ensures
        lp_tokens <= 0 ==> r == Err::<(), VaultError>(VaultError::InvalidAmount),
        lp_tokens > 0 ==> (r is Ok <==> 0 <= slippage_percent <= 100),
        lp_tokens > 0 && r is Err ==> r == Err::<(), VaultError>(VaultError::InvalidConfiguration),
{
    if lp_tokens <= 0 {
        return Err(VaultError::InvalidAmount);
    }
    check_slippage(slippage_percent)
}

/// What a pool gave back for provided or burned liquidity must be positive:
/// every amount in `amounts` above zero, else `InvalidAmount`.
pub fn check_pool_receipt(amounts: &[i128]) -> (r: Result<(), VaultError>)
    ensures
        r is Ok <==> forall|k: int| 0 <= k < amounts@.len() ==> amounts@[k] > 0,
        r is Err ==> r == Err::<(), VaultError>(VaultError::InvalidAmount),
{
    let mut i: usize = 0;
    while i < amounts.len()
        invariant
            i <= amounts@.len(),
            forall|k: int| 0 <= k < i ==> amounts@[k] > 0,
        decreases amounts@.len() - i,
    {
        if amounts[i] <= 0 {
            return Err(VaultError::InvalidAmount);
        }
        i = i + 1;
    }
    Ok(())
}

/// Checks a request for the companion amount of `amount_a` at reserves
/// `(reserve_a, reserve_b)`: all three must be positive, else `InvalidAmount`.
pub fn check_optimal_liquidity_request(amount_a: i128, reserve_a: i128, reserve_b: i128) -> (r: Result<(), VaultError>)
    ensures
        r is Ok <==> amount_a > 0 && reserve_a > 0 && reserve_b > 0,
        r is Err ==> r == Err::<(), VaultError>(VaultError::InvalidAmount),
{
    if amount_a <= 0 || reserve_a <= 0 || reserve_b <= 0 {
        Err(VaultError::InvalidAmount)
    } else {
        Ok(())
    }
}

/// A token movement or approval must be for a positive amount.
pub fn check_token_amount(amount: i128) -> (r: Result<(), VaultError>)
    ensures
        r is Ok <==> amount > 0,
        r is Err ==> r == Err::<(), VaultError>(VaultError::InvalidAmount),
{
    if amount <= 0 {
        Err(VaultError::InvalidAmount)
    } else {
        Ok(())
    }
}

/// Ledger until which an approval made at `sequence` stays valid; `None` when
/// it would pass the last ledger number.
pub fn approval_expiry(sequence: u32) -> (r: Option<u32>)
    ensures
        sequence as int + 100 <= u32::MAX ==> r == Some((sequence + 100) as u32),
        sequence as int + 100 > u32::MAX ==> r is None,
{
    sequence.checked_add(APPROVAL_LEDGERS)
}

/// How a swap from one asset to another is routed.
#[derive(Clone, Copy, Debug, PartialEq, Eq, Structural, Hash)]
pub enum SwapRoute {
    /// Through the pool of the pair itself.
    Direct,
    /// Through the bridging asset: from the source to the bridge, then on.
    ViaBridge,
    /// No route: the pair has no pool and one side is the bridge itself.
    Skip,
}

/// The route for a swap from `from` to `to`: direct when the pair has a pool,
/// else through `bridge`, unless either side already is the bridge.
pub open spec fn route_spec(from: Seq<u8>, to: Seq<u8>, bridge: Seq<u8>, direct_pool: bool) -> SwapRoute {
    if direct_pool {
        SwapRoute::Direct
    } else if from == bridge || to == bridge {
        SwapRoute::Skip
    } else {
        SwapRoute::ViaBridge
    }
}

/// Chooses the route for a swap from `from` to `to` (see `route_spec`).
pub fn choose_route(from: &AccountId, to: &AccountId, bridge: &AccountId, direct_pool: bool) -> (r: SwapRoute)
    ensures
        r == route_spec(from@, to@, bridge@, direct_pool),
{
    if direct_pool {
        SwapRoute::Direct
    } else if from.same_as(bridge) || to.same_as(bridge) {
        SwapRoute::Skip
    } else {
        SwapRoute::ViaBridge
    }
}

/// The assets a routed swap passes through, in order: `[from, to]` for a
/// direct swap, `[from, bridge, to]` through the bridge, and none when skipped.
pub fn route_path(from: &AccountId, to: &AccountId, bridge: &AccountId, route: SwapRoute) -> (r: Vec<AccountId>)
    ensures
        route == SwapRoute::Direct ==> r@.len() == 2 && r@[0]@ == from@ && r@[1]@ == to@,
        route == SwapRoute::ViaBridge ==> r@.len() == 3 && r@[0]@ == from@ && r@[1]@ == bridge@ && r@[2]@ == to@,
        route == SwapRoute::Skip ==> r@.len() == 0,
{
    let mut path: Vec<AccountId> = Vec::new();
    match route {
        SwapRoute::Direct => {
            path.push(from.duplicate());
            path.push(to.duplicate());
        },
        SwapRoute::ViaBridge => {
            path.push(from.duplicate());
            path.push(bridge.duplicate());
            path.push(to.duplicate());
        },
        SwapRoute::Skip => {},
    }
    path
}

} // verus!
