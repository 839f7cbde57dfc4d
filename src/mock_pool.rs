//! A simplified liquidity pool used as a test double: it takes both amounts
//! as offered, issues their sum as liquidity tokens, and pays back pro rata
//! what a provider put in.
use vstd::prelude::*;
use crate::arith::{fits_i128, mul_div, mul_div_spec};

verus! {

/// Failures of the simplified pool.
#[derive(Clone, Copy, Debug, PartialEq, Eq, Structural, Hash)]
pub enum MockPoolError {
    DeadlineExpired,
    InsufficientAmounts,
    InsufficientLpTokens,
    InsufficientOutputAmounts,
    Overflow,
}

/// A provider's liquidity tokens and what they put in.
#[derive(Clone, Copy, Debug, PartialEq, Eq, Structural)]
pub struct LiquidityPosition {
    pub lp_tokens: i128,
    pub token_a_provided: i128,
    pub token_b_provided: i128,
}

/// The pool's count of liquidity tokens in circulation.
#[derive(Clone, Copy, Debug, PartialEq, Eq, Structural)]
pub struct MockLiquidityPool {
    pub total_lp: i128,
}

/// A provider's position, or the empty one when they have none.
pub open spec fn position_or_empty(p: Option<LiquidityPosition>) -> LiquidityPosition {
    match p {
        Some(q) => q,
        None => LiquidityPosition { lp_tokens: 0, token_a_provided: 0, token_b_provided: 0 },
    }
}

/// Outcome of burning `lp_tokens` from `position`: the amounts paid back.
pub open spec fn mock_remove_spec(
    position: LiquidityPosition,
    total_lp: int,
    lp_tokens: int,
    amount_a_min: int,
    amount_b_min: int,
    deadline: int,
    now: int,
) -> Result<(int, int), MockPoolError> {
    if now > deadline {
        Err(MockPoolError::DeadlineExpired)
    } else if position.lp_tokens < lp_tokens {
        Err(MockPoolError::InsufficientLpTokens)
    } else {
        match (
            mul_div_spec(position.token_a_provided as int, lp_tokens, position.lp_tokens as int),
            mul_div_spec(position.token_b_provided as int, lp_tokens, position.lp_tokens as int),
        ) {
            (Some(a), Some(b)) => {
                if a < amount_a_min || b < amount_b_min {
                    Err(MockPoolError::InsufficientOutputAmounts)
                } else if !fits_i128(position.lp_tokens - lp_tokens) || !fits_i128(position.token_a_provided - a)
                    || !fits_i128(position.token_b_provided - b) || !fits_i128(total_lp - lp_tokens) {
                    Err(MockPoolError::Overflow)
                } else {
                    Ok((a, b))
                }
            },
            _ => Err(MockPoolError::Overflow),
        }
    }
}

impl MockLiquidityPool {
    /// A pool with no liquidity tokens out.
    pub fn new() -> (r: MockLiquidityPool)
        ensures
            r.total_lp == 0,
    {
        MockLiquidityPool { total_lp: 0 }
    }

    /// Takes the desired amounts as they are and issues their sum as
    /// liquidity tokens; the provider's position becomes exactly this deposit.
    /// Returns `(lp tokens, amount a, amount b)`. Fails with
    /// `DeadlineExpired` when `now` is past `deadline`, `InsufficientAmounts`
    /// when an amount is below its minimum, and `Overflow`; nothing changes on
    /// failure.
    pub fn add_liquidity(
        &mut self,
        position: &mut Option<LiquidityPosition>,
        amount_a_desired: i128,
        amount_b_desired: i128,
        amount_a_min: i128,
        amount_b_min: i128,
        deadline: u64,
        now: u64,
    ) -> (r: Result<(i128, i128, i128), MockPoolError>)
        ensures
            now > deadline ==> r == Err::<(i128, i128, i128), MockPoolError>(MockPoolError::DeadlineExpired),
            now <= deadline && (amount_a_desired < amount_a_min || amount_b_desired < amount_b_min) ==> r == Err::<
                (i128, i128, i128),
                MockPoolError,
            >(MockPoolError::InsufficientAmounts),
            now <= deadline && amount_a_desired >= amount_a_min && amount_b_desired >= amount_b_min ==> (r is Ok
                <==> fits_i128(amount_a_desired + amount_b_desired) && fits_i128(
                old(self).total_lp + amount_a_desired + amount_b_desired,
            )),
            r matches Ok((lp, a, b)) ==> {
                &&& lp == amount_a_desired + amount_b_desired && a == amount_a_desired && b == amount_b_desired
                &&& *final(position) == Some(LiquidityPosition { lp_tokens: lp, token_a_provided: a, token_b_provided: b })
                &&& final(self).total_lp == old(self).total_lp + lp
            },
            r matches Err(e) ==> *final(self) == *old(self) && *final(position) == *old(position),
            r is Err && now <= deadline && amount_a_desired >= amount_a_min && amount_b_desired >= amount_b_min
                ==> r == Err::<(i128, i128, i128), MockPoolError>(MockPoolError::Overflow),
    {
        if now > deadline {
            return Err(MockPoolError::DeadlineExpired);
        }
        if amount_a_desired < amount_a_min || amount_b_desired < amount_b_min {
            return Err(MockPoolError::InsufficientAmounts);
        }
        let lp_tokens = match amount_a_desired.checked_add(amount_b_desired) {
            Some(v) => v,
            None => return Err(MockPoolError::Overflow),
        };
        let total = match self.total_lp.checked_add(lp_tokens) {
            Some(v) => v,
            None => return Err(MockPoolError::Overflow),
        };
        *position = Some(LiquidityPosition {
            lp_tokens,
            token_a_provided: amount_a_desired,
            token_b_provided: amount_b_desired,
        });
        self.total_lp = total;
        Ok((lp_tokens, amount_a_desired, amount_b_desired))
    }

    /// Burns `lp_tokens` of the provider's position and pays back
    /// `provided * lp_tokens / position lp tokens` of each token; the
    /// position is dropped when no token is left. Fails with
    /// `DeadlineExpired`, `InsufficientLpTokens`, `InsufficientOutputAmounts`
    /// (below a minimum) or `Overflow`; nothing changes on failure.
    pub fn remove_liquidity(
        &mut self,
        position: &mut Option<LiquidityPosition>,
        lp_tokens: i128,
        amount_a_min: i128,
        amount_b_min: i128,
        deadline: u64,
        now: u64,
    ) -> (r: Result<(i128, i128), MockPoolError>)
        ensures
            ({
                let p = position_or_empty(*old(position));
                match (r, mock_remove_spec(p, old(self).total_lp as int, lp_tokens as int, amount_a_min as int,
                    amount_b_min as int, deadline as int, now as int)) {
                    (Ok((a, b)), Ok((x, y))) => {
                        &&& a == x && b == y
                        &&& final(self).total_lp == old(self).total_lp - lp_tokens
                        &&& p.lp_tokens - lp_tokens > 0 ==> *final(position) == Some(LiquidityPosition {
                            lp_tokens: (p.lp_tokens - lp_tokens) as i128,
                            token_a_provided: (p.token_a_provided - a) as i128,
                            token_b_provided: (p.token_b_provided - b) as i128,
                        })
                        &&& p.lp_tokens - lp_tokens <= 0 ==> *final(position) is None
                    },
                    (Err(e), Err(f)) => e == f && *final(self) == *old(self) && *final(position) == *old(position),
                    _ => false,
                }
            }),
    {
        if now > deadline {
            return Err(MockPoolError::DeadlineExpired);
        }
        let p = match position {
            Some(q) => *q,
            None => LiquidityPosition { lp_tokens: 0, token_a_provided: 0, token_b_provided: 0 },
        };
        if p.lp_tokens < lp_tokens {
            return Err(MockPoolError::InsufficientLpTokens);
        }
        let amount_a = match mul_div(p.token_a_provided, lp_tokens, p.lp_tokens) {
            Some(v) => v,
            None => return Err(MockPoolError::Overflow),
        };
        let amount_b = match mul_div(p.token_b_provided, lp_tokens, p.lp_tokens) {
            Some(v) => v,
            None => return Err(MockPoolError::Overflow),
        };
        if amount_a < amount_a_min || amount_b < amount_b_min {
            return Err(MockPoolError::InsufficientOutputAmounts);
        }
        let left = match p.lp_tokens.checked_sub(lp_tokens) {
            Some(v) => v,
            None => return Err(MockPoolError::Overflow),
        };
        let left_a = match p.token_a_provided.checked_sub(amount_a) {
            Some(v) => v,
            None => return Err(MockPoolError::Overflow),
        };
        let left_b = match p.token_b_provided.checked_sub(amount_b) {
            Some(v) => v,
            None => return Err(MockPoolError::Overflow),
        };
        let total = match self.total_lp.checked_sub(lp_tokens) {
            Some(v) => v,
            None => return Err(MockPoolError::Overflow),
        };
        if left > 0 {
            *position = Some(LiquidityPosition { lp_tokens: left, token_a_provided: left_a, token_b_provided: left_b });
        } else {
            *position = None;
        }
        self.total_lp = total;
        Ok((amount_a, amount_b))
    }

    /// A provider's position, all zero when they have none.
    pub fn get_position(position: &Option<LiquidityPosition>) -> (r: LiquidityPosition)
        ensures
            r == position_or_empty(*position),
    {
        match position {
            Some(p) => *p,
            None => LiquidityPosition { lp_tokens: 0, token_a_provided: 0, token_b_provided: 0 },
        }
    }

    /// Liquidity tokens in circulation.
    pub fn get_total_lp(&self) -> (r: i128)
        ensures
            r == self.total_lp,
    {
        self.total_lp
    }

    /// The pool's fixed companion ratio: a tenth of `amount_a` (rounded toward zero).
    pub fn quote(amount_a: i128) -> (r: i128)
        ensures
            r == crate::arith::trunc_div(amount_a as int, 10),
    {
        amount_a / 10
    }
}

} // verus!
