//! Constant-product liquidity pool for one token pair, with a 0.3% swap fee.
use vstd::prelude::*;
use crate::arith::{fits_i128, is_isqrt, isqrt_spec, isqrt_u128, mul_div, mul_div_spec, trunc_div};
use crate::errors::PoolError;
use crate::ids::AccountId;

verus! {

/// Numerator of the share of an input kept after the fee.
pub const FEE_KEPT: i128 = 997;

/// Denominator of the fee ratio.
pub const FEE_SCALE: i128 = 1000;

/// The pair, the reserves and the number of liquidity shares outstanding.
#[derive(Clone, Debug, PartialEq, Eq)]
pub struct PoolInfo {
    pub token_a: AccountId,
    pub token_b: AccountId,
    pub reserve_a: i128,
    pub reserve_b: i128,
    pub total_shares: i128,
}

/// A pool: uninitialized until `initialize` names its pair.
#[derive(Clone, Debug, PartialEq, Eq)]
pub struct RealLiquidityPool {
    pub info: Option<PoolInfo>,
}

/// The same pair with new reserves and a new share count.
pub open spec fn with_reserves(p: PoolInfo, reserve_a: int, reserve_b: int, total_shares: int) -> PoolInfo {
    PoolInfo {
        token_a: p.token_a,
        token_b: p.token_b,
        reserve_a: reserve_a as i128,
        reserve_b: reserve_b as i128,
        total_shares: total_shares as i128,
    }
}

/// Companion amount for `amount` at the reserve ratio; the amount itself when
/// either reserve is empty, and zero when the arithmetic overflows.
pub open spec fn quote_spec(amount: int, reserve_a: int, reserve_b: int) -> int {
    if reserve_a == 0 || reserve_b == 0 {
        amount
    } else {
        match mul_div_spec(amount, reserve_b, reserve_a) {
            Some(v) => v,
            None => 0,
        }
    }
}

/// Integer square root for non-negative inputs; negative inputs come back unchanged.
pub open spec fn sqrt_result(x: int, r: int) -> bool {
    if x < 0 {
        r == x
    } else {
        is_isqrt(x, r)
    }
}

/// The value that `sqrt` returns.
pub open spec fn sqrt_spec(x: int) -> int {
    if x < 0 {
        x
    } else {
        isqrt_spec(x)
    }
}

/// Constant-product output for `amount_in` with the fee kept in the pool:
/// `amount_in * 997 * reserve_out / (reserve_in * 1000 + amount_in * 997)`,
/// or `None` when a step overflows or the divisor is zero.
pub open spec fn swap_output_spec(amount_in: int, reserve_in: int, reserve_out: int) -> Option<int> {
    let with_fee = amount_in * 997;
    let numerator = with_fee * reserve_out;
    let scaled = reserve_in * 1000;
    let denominator = scaled + with_fee;
    if !fits_i128(with_fee) || !fits_i128(numerator) || !fits_i128(scaled) || !fits_i128(denominator)
        || denominator == 0 || !fits_i128(trunc_div(numerator, denominator)) {
        None
    } else {
        Some(trunc_div(numerator, denominator))
    }
}

/// Amounts actually taken by an add: the desired ones on an empty pool, else
/// the desired amount of one side with the other side at the reserve ratio.
pub open spec fn deposit_amounts_spec(
    p: PoolInfo,
    amount_a_desired: int,
    amount_b_desired: int,
    amount_a_min: int,
    amount_b_min: int,
) -> Result<(int, int), PoolError> {
    if p.reserve_a == 0 && p.reserve_b == 0 {
        Ok((amount_a_desired, amount_b_desired))
    } else {
        let b_optimal = quote_spec(amount_a_desired, p.reserve_a as int, p.reserve_b as int);
        if b_optimal <= amount_b_desired {
            if b_optimal < amount_b_min || amount_a_desired < amount_a_min {
                Err(PoolError::InsufficientAmount)
            } else {
                Ok((amount_a_desired, b_optimal))
            }
        } else {
            let a_optimal = quote_spec(amount_b_desired, p.reserve_b as int, p.reserve_a as int);
            if a_optimal > amount_a_desired || a_optimal < amount_a_min || amount_b_desired < amount_b_min {
                Err(PoolError::InsufficientAmount)
            } else {
                Ok((a_optimal, amount_b_desired))
            }
        }
    }
}

/// Shares minted for the amounts `a` and `b`: the integer square root of their
/// product on a pool with no shares, else the smaller of the two pro-rata counts.
pub open spec fn minted_shares_spec(p: PoolInfo, a: int, b: int) -> Result<int, PoolError> {
    if p.total_shares == 0 {
        if !fits_i128(a * b) {
            Err(PoolError::InsufficientAmount)
        } else {
            Ok(sqrt_spec(a * b))
        }
    } else {
        match (
            mul_div_spec(a, p.total_shares as int, p.reserve_a as int),
            mul_div_spec(b, p.total_shares as int, p.reserve_b as int),
        ) {
            (Some(la), Some(lb)) => Ok(if la < lb { la } else { lb }),
            _ => Err(PoolError::InsufficientAmount),
        }
    }
}

/// Outcome of adding liquidity: `(shares minted, amount a, amount b)`.
pub open spec fn add_liquidity_spec(
    pool: Option<PoolInfo>,
    provider_shares: int,
    amount_a_desired: int,
    amount_b_desired: int,
    amount_a_min: int,
    amount_b_min: int,
) -> Result<(int, int, int), PoolError> {
    match pool {
        None => Err(PoolError::NotInitialized),
        Some(p) => {
            if amount_a_desired < 0 || amount_b_desired < 0 {
                Err(PoolError::InsufficientAmount)
            } else {
                match deposit_amounts_spec(p, amount_a_desired, amount_b_desired, amount_a_min, amount_b_min) {
                    Err(e) => Err(e),
                    Ok((a, b)) => match minted_shares_spec(p, a, b) {
                        Err(e) => Err(e),
                        Ok(l) => {
                            if l <= 0 {
                                Err(PoolError::InsufficientLiquidity)
                            } else if !fits_i128(p.reserve_a + a) || !fits_i128(p.reserve_b + b)
                                || !fits_i128(p.total_shares + l) || !fits_i128(provider_shares + l) {
                                Err(PoolError::InsufficientAmount)
                            } else {
                                Ok((l, a, b))
                            }
                        },
                    },
                }
            }
        },
    }
}

/// Outcome of burning `liquidity` shares: the amounts of each token paid out.
pub open spec fn remove_liquidity_spec(
    pool: Option<PoolInfo>,
    provider_shares: int,
    liquidity: int,
    amount_a_min: int,
    amount_b_min: int,
) -> Result<(int, int), PoolError> {
    if liquidity <= 0 {
        Err(PoolError::InsufficientLiquidity)
    } else {
        match pool {
            None => Err(PoolError::NotInitialized),
            Some(p) => {
                if provider_shares < liquidity || p.total_shares < liquidity {
                    Err(PoolError::InsufficientLiquidity)
                } else {
                    match (
                        mul_div_spec(liquidity, p.reserve_a as int, p.total_shares as int),
                        mul_div_spec(liquidity, p.reserve_b as int, p.total_shares as int),
                    ) {
                        (Some(a), Some(b)) => {
                            if a < amount_a_min || b < amount_b_min {
                                Err(PoolError::SlippageExceeded)
                            } else if !fits_i128(p.reserve_a - a) || !fits_i128(p.reserve_b - b) {
                                Err(PoolError::InsufficientAmount)
                            } else {
                                Ok((a, b))
                            }
                        },
                        _ => Err(PoolError::InsufficientAmount),
                    }
                }
            },
        }
    }
}

/// Outcome of a swap: `(amount out, whether token a is the input)`.
pub open spec fn swap_spec(
    pool: Option<PoolInfo>,
    token_in: Seq<u8>,
    amount_in: int,
    amount_out_min: int,
) -> Result<(int, bool), PoolError> {
    if amount_in <= 0 {
        Err(PoolError::InsufficientAmount)
    } else {
        match pool {
            None => Err(PoolError::NotInitialized),
            Some(p) => {
                if token_in != p.token_a@ && token_in != p.token_b@ {
                    Err(PoolError::InvalidTokenPair)
                } else {
                    let a_in = token_in == p.token_a@;
                    let reserve_in: int = if a_in { p.reserve_a as int } else { p.reserve_b as int };
                    let reserve_out: int = if a_in { p.reserve_b as int } else { p.reserve_a as int };
                    match swap_output_spec(amount_in, reserve_in, reserve_out) {
                        None => Err(PoolError::InsufficientAmount),
                        Some(out) => {
                            if out < amount_out_min {
                                Err(PoolError::SlippageExceeded)
                            } else if out >= reserve_out {
                                Err(PoolError::InsufficientLiquidity)
                            } else if !fits_i128(reserve_in + amount_in) || !fits_i128(reserve_out - out) {
                                Err(PoolError::InsufficientAmount)
                            } else {
                                Ok((out, a_in))
                            }
                        },
                    }
                }
            },
        }
    }
}

/// Pool state after a successful swap of `amount_in` for `out`.
pub open spec fn after_swap(p: PoolInfo, a_in: bool, amount_in: int, out: int) -> PoolInfo {
    if a_in {
        with_reserves(p, p.reserve_a + amount_in, p.reserve_b - out, p.total_shares as int)
    } else {
        with_reserves(p, p.reserve_a - out, p.reserve_b + amount_in, p.total_shares as int)
    }
}

/// Computes the constant-product output of a swap (see `swap_output_spec`).
pub fn swap_output(amount_in: i128, reserve_in: i128, reserve_out: i128) -> (r: Option<i128>)
    ensures
        crate::arith::opt_int(r) == swap_output_spec(amount_in as int, reserve_in as int, reserve_out as int),
{
    let with_fee = match amount_in.checked_mul(FEE_KEPT) {
        Some(v) => v,
        None => return None,
    };
    let numerator = match with_fee.checked_mul(reserve_out) {
        Some(v) => v,
        None => return None,
    };
    let scaled = match reserve_in.checked_mul(FEE_SCALE) {
        Some(v) => v,
        None => return None,
    };
    let denominator = match scaled.checked_add(with_fee) {
        Some(v) => v,
        None => return None,
    };
    numerator.checked_div(denominator)
}

impl PoolInfo {
    /// Reserves non-negative and shares non-negative.
    pub open spec fn wf(&self) -> bool {
        self.reserve_a >= 0 && self.reserve_b >= 0 && self.total_shares >= 0
    }
}

impl RealLiquidityPool {
    /// Every initialized pool has non-negative reserves and shares.
    pub open spec fn wf(&self) -> bool {
        match self.info {
            Some(p) => p.wf(),
            None => true,
        }
    }

    /// A pool that has not been initialized yet.
    pub fn new() -> (r: RealLiquidityPool)
        ensures
            r.info is None,
            r.wf(),
    {
        RealLiquidityPool { info: None }
    }

    /// Names the pair; reserves and shares start at zero. Fails if the pool
    /// was initialized before.
    pub fn initialize(&mut self, token_a: AccountId, token_b: AccountId) -> (r: Result<(), PoolError>)
        ensures
            old(self).info is Some ==> r == Err::<(), PoolError>(PoolError::AlreadyInitialized)
                && *final(self) == *old(self),
            old(self).info is None ==> r is Ok && final(self).info == Some(
                PoolInfo { token_a, token_b, reserve_a: 0, reserve_b: 0, total_shares: 0 },
            ),
            old(self).wf() ==> final(self).wf(),
    {
        if self.info.is_some() {
            return Err(PoolError::AlreadyInitialized);
        }
        self.info = Some(PoolInfo { token_a, token_b, reserve_a: 0, reserve_b: 0, total_shares: 0 });
        Ok(())
    }

    /// Companion amount at the reserve ratio: `amount_a * reserve_b / reserve_a`.
    /// Returns `amount_a` when either reserve is zero and zero on overflow.
    pub fn quote(amount_a: i128, reserve_a: i128, reserve_b: i128) -> (r: i128)
        ensures
            r == quote_spec(amount_a as int, reserve_a as int, reserve_b as int),
    {
        if reserve_a == 0 || reserve_b == 0 {
            return amount_a;
        }
        match mul_div(amount_a, reserve_b, reserve_a) {
            Some(v) => v,
            None => 0,
        }
    }

    /// Integer square root (Babylonian method): the largest `r` with
    /// `r * r <= x`. A negative `x` is returned as it is.
    pub fn sqrt(x: i128) -> (r: i128)
        ensures
            sqrt_result(x as int, r as int),
    {
        if x < 0 {
            return x;
        }
        let r = isqrt_u128(x as u128);
        assert(r <= x) by (nonlinear_arith)
            requires
                r * r <= x,
                r >= 0,
        ;
        r as i128
    }
}


impl RealLiquidityPool {
    /// Adds liquidity for a provider whose share balance is `provider_shares`.
    /// Returns `(shares minted, amount a taken, amount b taken)`: on an empty
    /// pool the desired amounts and `sqrt(a * b)` shares, otherwise the desired
    /// amount of one side with the other at the reserve ratio and the smaller
    /// pro-rata share count. Negative desired amounts and overflow fail with
    /// `InsufficientAmount`, unmet minimums too, and a non-positive share count
    /// with `InsufficientLiquidity`. On failure nothing changes.
    pub fn add_liquidity(
        &mut self,
        provider_shares: &mut i128,
        amount_a_desired: i128,
        amount_b_desired: i128,
        amount_a_min: i128,
        amount_b_min: i128,
    ) -> (r: Result<(i128, i128, i128), PoolError>)
        ensures
            r matches Ok((l, a, b)) ==> {
                &&& add_liquidity_spec(old(self).info, *old(provider_shares) as int, amount_a_desired as int,
                    amount_b_desired as int, amount_a_min as int, amount_b_min as int) == Ok::<(int, int, int), PoolError>((l as int, a as int, b as int))
                &&& final(self).info == Some(with_reserves(old(self).info.unwrap(),
                    old(self).info.unwrap().reserve_a + a, old(self).info.unwrap().reserve_b + b,
                    old(self).info.unwrap().total_shares + l))
                &&& *final(provider_shares) == *old(provider_shares) + l
            },
            r matches Err(e) ==> {
                &&& add_liquidity_spec(old(self).info, *old(provider_shares) as int, amount_a_desired as int,
                    amount_b_desired as int, amount_a_min as int, amount_b_min as int) == Err::<(int, int, int), PoolError>(e)
                &&& *final(self) == *old(self)
                &&& *final(provider_shares) == *old(provider_shares)
            },
            old(self).wf() ==> final(self).wf(),
    {
        let p = match &self.info {
            None => return Err(PoolError::NotInitialized),
            Some(p) => p,
        };
        if amount_a_desired < 0 || amount_b_desired < 0 {
            return Err(PoolError::InsufficientAmount);
        }
        let (amount_a, amount_b) = if p.reserve_a == 0 && p.reserve_b == 0 {
            (amount_a_desired, amount_b_desired)
        } else {
            let b_optimal = Self::quote(amount_a_desired, p.reserve_a, p.reserve_b);
            if b_optimal <= amount_b_desired {
                if b_optimal < amount_b_min || amount_a_desired < amount_a_min {
                    return Err(PoolError::InsufficientAmount);
                }
                (amount_a_desired, b_optimal)
            } else {
                let a_optimal = Self::quote(amount_b_desired, p.reserve_b, p.reserve_a);
                if a_optimal > amount_a_desired || a_optimal < amount_a_min || amount_b_desired < amount_b_min {
                    return Err(PoolError::InsufficientAmount);
                }
                (a_optimal, amount_b_desired)
            }
        };
        let liquidity = if p.total_shares == 0 {
            let product = match amount_a.checked_mul(amount_b) {
                Some(v) => v,
                None => return Err(PoolError::InsufficientAmount),
            };
            let root = Self::sqrt(product);
            proof {
                if product >= 0 {
                    crate::arith::lemma_isqrt_spec(product as int, root as int);
                }
            }
            root
        } else {
            let liquidity_a = match mul_div(amount_a, p.total_shares, p.reserve_a) {
                Some(v) => v,
                None => return Err(PoolError::InsufficientAmount),
            };
            let liquidity_b = match mul_div(amount_b, p.total_shares, p.reserve_b) {
                Some(v) => v,
                None => return Err(PoolError::InsufficientAmount),
            };
            if liquidity_a < liquidity_b {
                liquidity_a
            } else {
                liquidity_b
            }
        };
        if liquidity <= 0 {
            return Err(PoolError::InsufficientLiquidity);
        }
        let new_reserve_a = match p.reserve_a.checked_add(amount_a) {
            Some(v) => v,
            None => return Err(PoolError::InsufficientAmount),
        };
        let new_reserve_b = match p.reserve_b.checked_add(amount_b) {
            Some(v) => v,
            None => return Err(PoolError::InsufficientAmount),
        };
        let new_total = match p.total_shares.checked_add(liquidity) {
            Some(v) => v,
            None => return Err(PoolError::InsufficientAmount),
        };
        let new_provider = match provider_shares.checked_add(liquidity) {
            Some(v) => v,
            None => return Err(PoolError::InsufficientAmount),
        };
        let mut q = self.info.take().unwrap();
        q.reserve_a = new_reserve_a;
        q.reserve_b = new_reserve_b;
        q.total_shares = new_total;
        self.info = Some(q);
        *provider_shares = new_provider;
        Ok((liquidity, amount_a, amount_b))
    }

    /// Burns `liquidity` of the provider's `provider_shares` and pays out
    /// `reserve * liquidity / total_shares` of each token. Fails with
    /// `InsufficientLiquidity` for a non-positive count or one above the
    /// provider's balance or the pool's total, with `SlippageExceeded` when a
    /// payout is below its minimum, and with `InsufficientAmount` on overflow.
    /// On failure nothing changes.
    pub fn remove_liquidity(
        &mut self,
        provider_shares: &mut i128,
        liquidity: i128,
        amount_a_min: i128,
        amount_b_min: i128,
    ) -> (r: Result<(i128, i128), PoolError>)
        ensures
            r matches Ok((a, b)) ==> {
                &&& remove_liquidity_spec(old(self).info, *old(provider_shares) as int, liquidity as int,
                    amount_a_min as int, amount_b_min as int) == Ok::<(int, int), PoolError>((a as int, b as int))
                &&& final(self).info == Some(with_reserves(old(self).info.unwrap(),
                    old(self).info.unwrap().reserve_a - a, old(self).info.unwrap().reserve_b - b,
                    old(self).info.unwrap().total_shares - liquidity))
                &&& *final(provider_shares) == *old(provider_shares) - liquidity
            },
            r matches Err(e) ==> {
                &&& remove_liquidity_spec(old(self).info, *old(provider_shares) as int, liquidity as int,
                    amount_a_min as int, amount_b_min as int) == Err::<(int, int), PoolError>(e)
                &&& *final(self) == *old(self)
                &&& *final(provider_shares) == *old(provider_shares)
            },
            old(self).wf() ==> final(self).wf(),
    {
        if liquidity <= 0 {
            return Err(PoolError::InsufficientLiquidity);
        }
        let p = match &self.info {
            None => return Err(PoolError::NotInitialized),
            Some(p) => p,
        };
        if *provider_shares < liquidity || p.total_shares < liquidity {
            return Err(PoolError::InsufficientLiquidity);
        }
        let amount_a = match mul_div(liquidity, p.reserve_a, p.total_shares) {
            Some(v) => v,
            None => return Err(PoolError::InsufficientAmount),
        };
        let amount_b = match mul_div(liquidity, p.reserve_b, p.total_shares) {
            Some(v) => v,
            None => return Err(PoolError::InsufficientAmount),
        };
        if amount_a < amount_a_min || amount_b < amount_b_min {
            return Err(PoolError::SlippageExceeded);
        }
        let new_reserve_a = match p.reserve_a.checked_sub(amount_a) {
            Some(v) => v,
            None => return Err(PoolError::InsufficientAmount),
        };
        let new_reserve_b = match p.reserve_b.checked_sub(amount_b) {
            Some(v) => v,
            None => return Err(PoolError::InsufficientAmount),
        };
        proof {
            if old(self).wf() {
                lemma_pro_rata_bounded(liquidity as int, p.reserve_a as int, p.total_shares as int);
                lemma_pro_rata_bounded(liquidity as int, p.reserve_b as int, p.total_shares as int);
            }
        }
        let new_total = p.total_shares - liquidity;
        let mut q = self.info.take().unwrap();
        q.reserve_a = new_reserve_a;
        q.reserve_b = new_reserve_b;
        q.total_shares = new_total;
        self.info = Some(q);
        *provider_shares = *provider_shares - liquidity;
        Ok((amount_a, amount_b))
    }

    /// Swaps `amount_in` of `token_in` for the other token of the pair at the
    /// constant-product price with the fee kept in the pool. Fails with
    /// `InsufficientAmount` for a non-positive input or on overflow,
    /// `InvalidTokenPair` for a token outside the pair, `SlippageExceeded` when
    /// the output is below `amount_out_min`, and `InsufficientLiquidity` when it
    /// would drain the output reserve. On failure the reserves do not change; on
    /// success the product of the reserves does not decrease.
    pub fn swap(&mut self, token_in: &AccountId, amount_in: i128, amount_out_min: i128) -> (r: Result<i128, PoolError>)
        ensures
            r matches Ok(out) ==> {
                &&& swap_spec(old(self).info, token_in@, amount_in as int, amount_out_min as int) is Ok
                &&& swap_spec(old(self).info, token_in@, amount_in as int, amount_out_min as int)->Ok_0.0 == out
                &&& final(self).info == Some(after_swap(old(self).info.unwrap(),
                    swap_spec(old(self).info, token_in@, amount_in as int, amount_out_min as int)->Ok_0.1,
                    amount_in as int, out as int))
            },
            r matches Err(e) ==> {
                &&& swap_spec(old(self).info, token_in@, amount_in as int, amount_out_min as int) is Err
                &&& swap_spec(old(self).info, token_in@, amount_in as int, amount_out_min as int)->Err_0 == e
                &&& *final(self) == *old(self)
            },
            old(self).wf() ==> final(self).wf(),
            old(self).wf() && r is Ok ==> final(self).info.unwrap().reserve_a * final(self).info.unwrap().reserve_b
                >= old(self).info.unwrap().reserve_a * old(self).info.unwrap().reserve_b,
    {
        if amount_in <= 0 {
            return Err(PoolError::InsufficientAmount);
        }
        let p = match &self.info {
            None => return Err(PoolError::NotInitialized),
            Some(p) => p,
        };
        let a_in = if token_in.same_as(&p.token_a) {
            true
        } else if token_in.same_as(&p.token_b) {
            false
        } else {
            return Err(PoolError::InvalidTokenPair);
        };
        let (reserve_in, reserve_out) = if a_in {
            (p.reserve_a, p.reserve_b)
        } else {
            (p.reserve_b, p.reserve_a)
        };
        let amount_out = match swap_output(amount_in, reserve_in, reserve_out) {
            Some(v) => v,
            None => return Err(PoolError::InsufficientAmount),
        };
        if amount_out < amount_out_min {
            return Err(PoolError::SlippageExceeded);
        }
        if amount_out >= reserve_out {
            return Err(PoolError::InsufficientLiquidity);
        }
        let new_in = match reserve_in.checked_add(amount_in) {
            Some(v) => v,
            None => return Err(PoolError::InsufficientAmount),
        };
        let new_out = match reserve_out.checked_sub(amount_out) {
            Some(v) => v,
            None => return Err(PoolError::InsufficientAmount),
        };
        proof {
            assert(swap_spec(old(self).info, token_in@, amount_in as int, amount_out_min as int)
                == Ok::<(int, bool), PoolError>((amount_out as int, a_in)));
            if old(self).wf() {
                lemma_swap_keeps_product(amount_in as int, reserve_in as int, reserve_out as int, amount_out as int);
            }
        }
        let ghost old_info = old(self).info.unwrap();
        let mut q = self.info.take().unwrap();
        if a_in {
            q.reserve_a = new_in;
            q.reserve_b = new_out;
        } else {
            q.reserve_a = new_out;
            q.reserve_b = new_in;
        }
        assert(q == after_swap(old_info, a_in, amount_in as int, amount_out as int));
        proof {
            if old(self).wf() {
                let (x, y) = (q.reserve_a as int, q.reserve_b as int);
                let (u, v) = (old_info.reserve_a as int, old_info.reserve_b as int);
                assert(x * y >= u * v) by (nonlinear_arith)
                    requires
                        (new_in as int) * (new_out as int) >= (reserve_in as int) * (reserve_out as int),
                        (x == new_in && y == new_out && u == reserve_in && v == reserve_out)
                            || (x == new_out && y == new_in && u == reserve_out && v == reserve_in),
                ;
            }
        }
        self.info = Some(q);
        Ok(amount_out)
    }

    /// The token a swap of `token_in` pays out: the other one of the pair.
    /// Fails with `NotInitialized`, or `InvalidTokenPair` for a token outside
    /// the pair.
    pub fn counter_token(&self, token_in: &AccountId) -> (r: Result<&AccountId, PoolError>)
        ensures
            self.info is None ==> r == Err::<&AccountId, PoolError>(PoolError::NotInitialized),
            self.info matches Some(p) ==> (token_in@ == p.token_a@ ==> r == Ok::<&AccountId, PoolError>(&p.token_b)) && (
            token_in@ != p.token_a@ && token_in@ == p.token_b@ ==> r == Ok::<&AccountId, PoolError>(&p.token_a)) && (
            token_in@ != p.token_a@ && token_in@ != p.token_b@ ==> r == Err::<&AccountId, PoolError>(
                PoolError::InvalidTokenPair,
            )),
    {
        match &self.info {
            None => Err(PoolError::NotInitialized),
            Some(p) => {
                if token_in.same_as(&p.token_a) {
                    Ok(&p.token_b)
                } else if token_in.same_as(&p.token_b) {
                    Ok(&p.token_a)
                } else {
                    Err(PoolError::InvalidTokenPair)
                }
            },
        }
    }

    /// The pool's pair, reserves and share count.
    pub fn get_pool_info(&self) -> (r: Result<&PoolInfo, PoolError>)
        ensures
            self.info is None ==> r == Err::<&PoolInfo, PoolError>(PoolError::NotInitialized),
            self.info matches Some(p) ==> r == Ok::<&PoolInfo, PoolError>(&p),
    {
        match &self.info {
            None => Err(PoolError::NotInitialized),
            Some(p) => Ok(p),
        }
    }

    /// The two reserves; zero on a pool that was never initialized.
    pub fn get_reserves(&self) -> (r: (i128, i128))
        ensures
            self.info matches Some(p) ==> r == (p.reserve_a, p.reserve_b),
            self.info is None ==> r == (0i128, 0i128),
    {
        match &self.info {
            None => (0, 0),
            Some(p) => (p.reserve_a, p.reserve_b),
        }
    }

    /// The first token of the pair.
    pub fn token_0(&self) -> (r: Result<&AccountId, PoolError>)
        ensures
            self.info is None ==> r == Err::<&AccountId, PoolError>(PoolError::NotInitialized),
            self.info matches Some(p) ==> r == Ok::<&AccountId, PoolError>(&p.token_a),
    {
        match &self.info {
            None => Err(PoolError::NotInitialized),
            Some(p) => Ok(&p.token_a),
        }
    }

    /// The second token of the pair.
    pub fn token_1(&self) -> (r: Result<&AccountId, PoolError>)
        ensures
            self.info is None ==> r == Err::<&AccountId, PoolError>(PoolError::NotInitialized),
            self.info matches Some(p) ==> r == Ok::<&AccountId, PoolError>(&p.token_b),
    {
        match &self.info {
            None => Err(PoolError::NotInitialized),
            Some(p) => Ok(&p.token_b),
        }
    }

    /// Same as `token_0`.
    pub fn token_a(&self) -> (r: Result<&AccountId, PoolError>)
        ensures
            r == self.token_0_spec(),
    {
        self.token_0()
    }

    /// Same as `token_1`.
    pub fn token_b(&self) -> (r: Result<&AccountId, PoolError>)
        ensures
            r == self.token_1_spec(),
    {
        self.token_1()
    }
}

/// A pro-rata part `l * reserve / total` with `0 < l <= total` is at most the reserve.
proof fn lemma_pro_rata_bounded(l: int, reserve: int, total: int)
    requires
        0 < l <= total,
        reserve >= 0,
    ensures
        0 <= (l * reserve) / total <= reserve,
{
    assert(0 <= l * reserve <= total * reserve) by (nonlinear_arith)
        requires
            0 < l <= total,
            reserve >= 0,
    ;
    assert((total * reserve) / total == reserve) by (nonlinear_arith)
        requires
            total > 0,
    ;
    assert(0 <= (l * reserve) / total <= (total * reserve) / total) by (nonlinear_arith)
        requires
            0 <= l * reserve <= total * reserve,
            total > 0,
    ;
}

/// A swap at the constant-product price with the fee kept never lowers the
/// product of the reserves.
proof fn lemma_swap_keeps_product(amount_in: int, reserve_in: int, reserve_out: int, out: int)
    requires
        amount_in > 0,
        reserve_in >= 0,
        reserve_out >= 0,
        out == trunc_div(amount_in * 997 * reserve_out, reserve_in * 1000 + amount_in * 997),
    ensures
        (reserve_in + amount_in) * (reserve_out - out) >= reserve_in * reserve_out,
{
    let num = amount_in * 997 * reserve_out;
    let den = reserve_in * 1000 + amount_in * 997;
    assert(den > 0) by (nonlinear_arith)
        requires
            amount_in > 0,
            reserve_in >= 0,
            den == reserve_in * 1000 + amount_in * 997,
    ;
    assert(num >= 0) by (nonlinear_arith)
        requires
            amount_in > 0,
            reserve_out >= 0,
            num == amount_in * 997 * reserve_out,
    ;
    assert(out == num / den);
    assert(out * den <= num) by (nonlinear_arith)
        requires
            out == num / den,
            den > 0,
    ;
    assert(997 * (reserve_in + amount_in) <= den);
    assert(out >= 0) by (nonlinear_arith)
        requires
            out == num / den,
            den > 0,
            num >= 0,
    ;
    assert(out * (997 * (reserve_in + amount_in)) <= out * den) by (nonlinear_arith)
        requires
            out >= 0,
            997 * (reserve_in + amount_in) <= den,
    ;
    assert(997 * (out * (reserve_in + amount_in)) <= 997 * (amount_in * reserve_out)) by (nonlinear_arith)
        requires
            out * (997 * (reserve_in + amount_in)) <= out * den,
            out * den <= num,
            num == amount_in * 997 * reserve_out,
    ;
    assert((reserve_in + amount_in) * (reserve_out - out) >= reserve_in * reserve_out) by (nonlinear_arith)
        requires
            out * (reserve_in + amount_in) <= amount_in * reserve_out,
    ;
}

impl RealLiquidityPool {
    /// The first token of the pair, or `NotInitialized`.
    pub open spec fn token_0_spec(&self) -> Result<&AccountId, PoolError> {
        match &self.info {
            None => Err(PoolError::NotInitialized),
            Some(p) => Ok(&p.token_a),
        }
    }

    /// The second token of the pair, or `NotInitialized`.
    pub open spec fn token_1_spec(&self) -> Result<&AccountId, PoolError> {
        match &self.info {
            None => Err(PoolError::NotInitialized),
            Some(p) => Ok(&p.token_b),
        }
    }
}

/// Adding liquidity to an empty pool and at once burning every share minted
/// gives back exactly the amounts taken and leaves the pool as it was: no
/// reserves and no shares. It holds whenever the pro-rata products
/// `shares * amount` fit in 128 bits.
pub proof fn lemma_add_then_remove_round_trip(
    p: PoolInfo,
    amount_a_desired: int,
    amount_b_desired: int,
    amount_a_min: int,
    amount_b_min: int,
    remove_a_min: int,
    remove_b_min: int,
)
    requires
        p.reserve_a == 0,
        p.reserve_b == 0,
        p.total_shares == 0,
        add_liquidity_spec(Some(p), 0, amount_a_desired, amount_b_desired, amount_a_min, amount_b_min) is Ok,
        ({
            let (l, a, b) = add_liquidity_spec(Some(p), 0, amount_a_desired, amount_b_desired, amount_a_min, amount_b_min)->Ok_0;
            fits_i128(l * a) && fits_i128(l * b) && remove_a_min <= a && remove_b_min <= b
        }),
    ensures
        ({
            let (l, a, b) = add_liquidity_spec(Some(p), 0, amount_a_desired, amount_b_desired, amount_a_min, amount_b_min)->Ok_0;
            let q = with_reserves(p, a, b, l);
            &&& remove_liquidity_spec(Some(q), l, l, remove_a_min, remove_b_min) == Ok::<(int, int), PoolError>((a, b))
            &&& with_reserves(q, q.reserve_a - a, q.reserve_b - b, q.total_shares - l) == p
        }),
{
    let (l, a, b) = add_liquidity_spec(Some(p), 0, amount_a_desired, amount_b_desired, amount_a_min, amount_b_min)->Ok_0;
    assert(a == amount_a_desired && b == amount_b_desired);
    assert(a >= 0 && b >= 0 && l > 0);
    lemma_exact_quotient(l, a);
    lemma_exact_quotient(l, b);
    let q = with_reserves(p, a, b, l);
    assert(with_reserves(q, q.reserve_a - a, q.reserve_b - b, q.total_shares - l) =~= p);
}

/// A swap whose computed output falls below the caller's minimum fails with
/// `SlippageExceeded` (and, by the contract of `swap`, leaves the pool as it
/// was).
pub proof fn lemma_swap_below_minimum_fails(p: PoolInfo, token_in: Seq<u8>, amount_in: int, amount_out_min: int)
    requires
        amount_in > 0,
        token_in == p.token_a@ || token_in == p.token_b@,
        ({
            let (reserve_in, reserve_out) = if token_in == p.token_a@ {
                (p.reserve_a as int, p.reserve_b as int)
            } else {
                (p.reserve_b as int, p.reserve_a as int)
            };
            &&& swap_output_spec(amount_in, reserve_in, reserve_out) is Some
            &&& swap_output_spec(amount_in, reserve_in, reserve_out)->Some_0 < amount_out_min
        }),
    ensures
        swap_spec(Some(p), token_in, amount_in, amount_out_min) == Err::<(int, bool), PoolError>(PoolError::SlippageExceeded),
{
}

/// `l * x / l` is `x` for positive `l` and non-negative `x`.
proof fn lemma_exact_quotient(l: int, x: int)
    requires
        l > 0,
        x >= 0,
    ensures
        trunc_div(l * x, l) == x,
{
    assert((l * x) / l == x) by (nonlinear_arith)
        requires
            l > 0,
    ;
    assert(l * x >= 0) by (nonlinear_arith)
        requires
            l > 0,
            x >= 0,
    ;
}

} // verus!
