//! The vault's share ledger: deposits mint shares against value, withdrawals
//! burn them against what the exit asset actually realized.
use vstd::prelude::*;
use crate::arith::{fits_i128, mul_div, mul_div_spec};
use crate::errors::VaultError;
use crate::ids::AccountId;
use crate::types::{LiquidityPosition, RebalanceRule, RuleAction, UserPosition, VaultConfig, VaultState, FULL_ALLOCATION};
use crate::rebalance::seq_sum;

verus! {

/// The vault: its configuration once initialized, and its aggregate state.
#[derive(Clone, Debug, PartialEq, Eq)]
pub struct VaultContract {
    pub config: Option<VaultConfig>,
    pub state: VaultState,
}

/// Shares minted for a deposit worth `amount`: one per unit on the first
/// deposit, else `amount * total_shares / total_value`; `None` on overflow or
/// a zero value.
pub open spec fn deposit_shares_spec(state: VaultState, amount: int) -> Option<int> {
    if state.total_shares == 0 {
        Some(amount)
    } else {
        mul_div_spec(amount, state.total_shares as int, state.total_value as int)
    }
}

/// What a holder of `shares` is owed before liquidation: `shares * total_value / total_shares`.
pub open spec fn entitlement_spec(state: VaultState, shares: int) -> Option<int> {
    mul_div_spec(shares, state.total_value as int, state.total_shares as int)
}

/// What is paid out: the entitlement when the realized balance covers the
/// whole vault's value, else (a shortfall of the vault) the withdrawer's
/// share fraction of the realized balance, `realized * shares / total_shares`.
pub open spec fn payout_spec(state: VaultState, shares: int, entitlement: int, realized: int) -> Option<int> {
    if realized < state.total_value {
        mul_div_spec(realized, shares, state.total_shares as int)
    } else {
        Some(entitlement)
    }
}

/// Checks made before anything moves: returns the entitlement.
pub open spec fn withdraw_check_spec(v: VaultContract, position: UserPosition, shares: int) -> Result<int, VaultError> {
    match v.config {
        None => Err(VaultError::NotInitialized),
        Some(c) => {
            if shares <= 0 {
                Err(VaultError::InvalidAmount)
            } else if position.shares < shares {
                Err(VaultError::InsufficientShares)
            } else if v.state.total_shares == 0 {
                Err(VaultError::InvalidAmount)
            } else {
                match entitlement_spec(v.state, shares) {
                    None => Err(VaultError::InvalidAmount),
                    Some(amount) => {
                        if c.assets.len() == 0 {
                            Err(VaultError::InvalidConfiguration)
                        } else {
                            Ok(amount)
                        }
                    },
                }
            }
        },
    }
}

/// Outcome of a withdrawal once the exit asset has realized `realized`: the amount paid.
pub open spec fn withdraw_spec(v: VaultContract, position: UserPosition, shares: int, realized: int) -> Result<int, VaultError> {
    match withdraw_check_spec(v, position, shares) {
        Err(e) => Err(e),
        Ok(amount) => match payout_spec(v.state, shares, amount, realized) {
            None => Err(VaultError::InvalidAmount),
            Some(paid) => {
                if realized < paid {
                    Err(VaultError::InsufficientBalance)
                } else if !fits_i128(v.state.total_shares - shares) || !fits_i128(v.state.total_value - paid)
                    || !fits_i128(position.shares - shares) {
                    Err(VaultError::InvalidAmount)
                } else {
                    Ok(paid)
                }
            },
        },
    }
}

/// Checks made before a deposit moves tokens: `None` when the deposited token
/// is the base asset, else the router to swap it through.
pub open spec fn deposit_route_spec(v: VaultContract, amount: int, token: Seq<u8>) -> Result<Option<AccountId>, VaultError> {
    match v.config {
        None => Err(VaultError::NotInitialized),
        Some(c) => {
            if amount <= 0 {
                Err(VaultError::InvalidAmount)
            } else if c.assets.len() == 0 {
                Err(VaultError::InvalidConfiguration)
            } else if token == c.assets[0]@ {
                Ok(None)
            } else {
                match c.router_address {
                    None => Err(VaultError::RouterNotSet),
                    Some(router) => Ok(Some(router)),
                }
            }
        },
    }
}

/// Outcome of a deposit: the shares minted for the value that arrived, which
/// is `amount` for the base asset and `swapped` otherwise.
pub open spec fn deposit_spec(
    v: VaultContract,
    position: UserPosition,
    amount: int,
    token: Seq<u8>,
    swapped: int,
) -> Result<(int, int), VaultError> {
    match deposit_route_spec(v, amount, token) {
        Err(e) => Err(e),
        Ok(route) => {
            let value = if route is None { amount } else { swapped };
            if route is Some && swapped < 0 {
                Err(VaultError::InvalidAmount)
            } else {
                match deposit_shares_spec(v.state, value) {
                    None => Err(VaultError::InvalidAmount),
                    Some(shares) => {
                        if !fits_i128(v.state.total_shares + shares) || !fits_i128(v.state.total_value + value)
                            || !fits_i128(position.shares + shares) {
                            Err(VaultError::InvalidAmount)
                        } else {
                            Ok((shares, value))
                        }
                    },
                }
            }
        },
    }
}

/// Shares minted for a deposit worth `amount` (see `deposit_shares_spec`).
pub fn deposit_shares(state: &VaultState, amount: i128) -> (r: Option<i128>)
    ensures
        crate::arith::opt_int(r) == deposit_shares_spec(*state, amount as int),
{
    if state.total_shares == 0 {
        Some(amount)
    } else {
        mul_div(amount, state.total_shares, state.total_value)
    }
}

/// What a withdrawal of `shares` pays once the exit asset holds `realized`
/// (see `payout_spec`).
pub fn withdrawal_payout(state: &VaultState, shares: i128, entitlement: i128, realized: i128) -> (r: Option<i128>)
    ensures
        crate::arith::opt_int(r) == payout_spec(*state, shares as int, entitlement as int, realized as int),
{
    if realized < state.total_value {
        mul_div(realized, shares, state.total_shares)
    } else {
        Some(entitlement)
    }
}

impl VaultContract {
    /// A vault that has not been initialized.
    pub fn new() -> (r: VaultContract)
        ensures
            r.config is None,
            r.state == (VaultState { total_shares: 0, total_value: 0, last_rebalance: 0 }),
    {
        VaultContract { config: None, state: VaultState { total_shares: 0, total_value: 0, last_rebalance: 0 } }
    }

    /// Stores the configuration and zeroes the state. Fails with
    /// `AlreadyInitialized` on a second call and with `InvalidConfiguration`
    /// when no asset is configured; nothing changes on failure.
    pub fn initialize(&mut self, config: VaultConfig) -> (r: Result<(), VaultError>)
        ensures
            old(self).config is Some ==> r == Err::<(), VaultError>(VaultError::AlreadyInitialized),
            old(self).config is None && config.assets.len() == 0 ==> r == Err::<(), VaultError>(
                VaultError::InvalidConfiguration,
            ),
            r is Err ==> *final(self) == *old(self),
            r is Ok <==> old(self).config is None && config.assets.len() > 0,
            r is Ok ==> final(self).config == Some(config) && final(self).state == (VaultState {
                total_shares: 0,
                total_value: 0,
                last_rebalance: 0,
            }),
    {
        if self.config.is_some() {
            return Err(VaultError::AlreadyInitialized);
        }
        if config.assets.len() == 0 {
            return Err(VaultError::InvalidConfiguration);
        }
        self.config = Some(config);
        self.state = VaultState { total_shares: 0, total_value: 0, last_rebalance: 0 };
        Ok(())
    }

    /// The aggregate state.
    pub fn get_state(&self) -> (r: VaultState)
        ensures
            r == self.state,
    {
        self.state
    }

    /// The configuration, or `NotInitialized`.
    pub fn get_config(&self) -> (r: Result<&VaultConfig, VaultError>)
        ensures
            self.config matches Some(c) ==> r == Ok::<&VaultConfig, VaultError>(&c),
            self.config is None ==> r == Err::<&VaultConfig, VaultError>(VaultError::NotInitialized),
    {
        match &self.config {
            Some(c) => Ok(c),
            None => Err(VaultError::NotInitialized),
        }
    }

    /// The base (deposit) asset: the first configured one.
    pub fn base_asset(&self) -> (r: Result<&AccountId, VaultError>)
        ensures
            self.config is None ==> r == Err::<&AccountId, VaultError>(VaultError::NotInitialized),
            self.config matches Some(c) ==> (c.assets.len() == 0 ==> r == Err::<&AccountId, VaultError>(
                VaultError::InvalidConfiguration,
            )) && (c.assets.len() > 0 ==> r == Ok::<&AccountId, VaultError>(&c.assets@[0])),
    {
        match &self.config {
            None => Err(VaultError::NotInitialized),
            Some(c) => {
                if c.assets.len() == 0 {
                    Err(VaultError::InvalidConfiguration)
                } else {
                    Ok(&c.assets[0])
                }
            },
        }
    }

    /// The exit (withdrawal) asset: the configured one if set, else the last
    /// configured asset. Fails with `NotInitialized`, or with
    /// `InvalidConfiguration` when no asset is configured.
    pub fn find_xlm_token(&self) -> (r: Result<&AccountId, VaultError>)
        ensures
            self.config is None ==> r == Err::<&AccountId, VaultError>(VaultError::NotInitialized),
            self.config matches Some(c) ==> (c.assets.len() == 0 ==> r == Err::<&AccountId, VaultError>(
                VaultError::InvalidConfiguration,
            )) && (c.assets.len() > 0 ==> r is Ok && r->Ok_0@ == exit_id(c)),
    {
        match &self.config {
            None => Err(VaultError::NotInitialized),
            Some(c) => {
                if c.assets.len() == 0 {
                    Err(VaultError::InvalidConfiguration)
                } else {
                    match &c.exit_asset {
                        Some(e) => Ok(e),
                        None => Ok(&c.assets[c.assets.len() - 1]),
                    }
                }
            },
        }
    }

    /// Sets the router used for swaps (the caller has already been
    /// authorized as the owner). Fails with `NotInitialized`.
    pub fn set_router(&mut self, router: AccountId) -> (r: Result<(), VaultError>)
        ensures
            old(self).config is None ==> r == Err::<(), VaultError>(VaultError::NotInitialized)
                && *final(self) == *old(self),
            old(self).config matches Some(c) ==> r is Ok && final(self).state == old(self).state
                && final(self).config == Some(VaultConfig { router_address: Some(router), ..c }),
    {
        match self.config.take() {
            None => Err(VaultError::NotInitialized),
            Some(mut c) => {
                c.router_address = Some(router);
                self.config = Some(c);
                Ok(())
            },
        }
    }

    /// Sets the staking pool; only the owner may. Fails with `NotInitialized`
    /// or `Unauthorized`, changing nothing.
    pub fn set_staking_pool(&mut self, caller: &AccountId, staking_pool: AccountId) -> (r: Result<(), VaultError>)
        ensures
            old(self).config is None ==> r == Err::<(), VaultError>(VaultError::NotInitialized),
            old(self).config is Some && caller@ != old(self).config.unwrap().owner@ ==> r == Err::<(), VaultError>(
                VaultError::Unauthorized,
            ),
            r is Err ==> *final(self) == *old(self),
            old(self).config is Some && caller@ == old(self).config.unwrap().owner@ ==> r is Ok
                && final(self).state == old(self).state && final(self).config == Some(
                VaultConfig { staking_pool_address: Some(staking_pool), ..old(self).config.unwrap() },
            ),
    {
        match &self.config {
            None => return Err(VaultError::NotInitialized),
            Some(c) => {
                if !caller.same_as(&c.owner) {
                    return Err(VaultError::Unauthorized);
                }
            },
        }
        let mut c = self.config.take().unwrap();
        c.staking_pool_address = Some(staking_pool);
        self.config = Some(c);
        Ok(())
    }

    /// Sets the pool-discovery factory; only the owner may. Fails with
    /// `NotInitialized` or `Unauthorized`, changing nothing.
    pub fn set_factory(&mut self, caller: &AccountId, factory: AccountId) -> (r: Result<(), VaultError>)
        ensures
            old(self).config is None ==> r == Err::<(), VaultError>(VaultError::NotInitialized),
            old(self).config is Some && caller@ != old(self).config.unwrap().owner@ ==> r == Err::<(), VaultError>(
                VaultError::Unauthorized,
            ),
            r is Err ==> *final(self) == *old(self),
            old(self).config is Some && caller@ == old(self).config.unwrap().owner@ ==> r is Ok
                && final(self).state == old(self).state && final(self).config == Some(
                VaultConfig { factory_address: Some(factory), ..old(self).config.unwrap() },
            ),
    {
        match &self.config {
            None => return Err(VaultError::NotInitialized),
            Some(c) => {
                if !caller.same_as(&c.owner) {
                    return Err(VaultError::Unauthorized);
                }
            },
        }
        let mut c = self.config.take().unwrap();
        c.factory_address = Some(factory);
        self.config = Some(c);
        Ok(())
    }

    /// Records that a rebalancing (or staking, or liquidity) run finished at `now`.
    pub fn record_rebalance(&mut self, now: u64) -> (r: Result<(), VaultError>)
        ensures
            old(self).config is None ==> r == Err::<(), VaultError>(VaultError::NotInitialized)
                && *final(self) == *old(self),
            old(self).config is Some ==> r is Ok && final(self).config == old(self).config
                && final(self).state == (VaultState { last_rebalance: now, ..old(self).state }),
    {
        if self.config.is_none() {
            return Err(VaultError::NotInitialized);
        }
        self.state.last_rebalance = now;
        Ok(())
    }
}

impl VaultContract {
    /// Checks a deposit of `amount` of `deposit_token` before any token moves:
    /// `None` when the token is the base asset, else the router through which
    /// it must be swapped into the base asset. Fails with `NotInitialized`,
    /// `InvalidAmount` (amount not positive), `InvalidConfiguration` (no
    /// asset) or `RouterNotSet`.
    pub fn deposit_route(&self, amount: i128, deposit_token: &AccountId) -> (r: Result<Option<AccountId>, VaultError>)
        ensures
            match (r, deposit_route_spec(*self, amount as int, deposit_token@)) {
                (Ok(None), Ok(None)) => true,
                (Ok(Some(x)), Ok(Some(y))) => x@ == y@,
                (Err(e), Err(f)) => e == f,
                _ => false,
            },
    {
        let c = match &self.config {
            None => return Err(VaultError::NotInitialized),
            Some(c) => c,
        };
        if amount <= 0 {
            return Err(VaultError::InvalidAmount);
        }
        if c.assets.len() == 0 {
            return Err(VaultError::InvalidConfiguration);
        }
        if deposit_token.same_as(&c.assets[0]) {
            return Ok(None);
        }
        match &c.router_address {
            None => Err(VaultError::RouterNotSet),
            Some(router) => Ok(Some(router.duplicate())),
        }
    }

    /// Records a deposit of `amount` of `deposit_token` for the depositor at
    /// `position`, at time `now`. The value credited is `amount` when the
    /// token is the base asset and otherwise `swapped`, what the router gave
    /// for it, which must not be negative (a tiny deposit may swap to 0 and
    /// then mints what 0 is worth). Mints one share per unit on the first deposit, else
    /// `value * total_shares / total_value`; returns the shares minted. Fails
    /// as `deposit_route` does, and with `InvalidAmount` for a negative
    /// `swapped` (when a swap was needed) or on any overflow; nothing changes
    /// on failure.
    pub fn deposit_with_token(
        &mut self,
        position: &mut UserPosition,
        amount: i128,
        deposit_token: &AccountId,
        swapped: i128,
        now: u64,
    ) -> (r: Result<i128, VaultError>)
        ensures
            r matches Ok(shares) ==> {
                let (s, value) = deposit_spec(*old(self), *old(position), amount as int, deposit_token@, swapped as int)->Ok_0;
                &&& deposit_spec(*old(self), *old(position), amount as int, deposit_token@, swapped as int) is Ok
                &&& shares == s
                &&& final(self).config == old(self).config
                &&& final(self).state == (VaultState {
                    total_shares: (old(self).state.total_shares + s) as i128,
                    total_value: (old(self).state.total_value + value) as i128,
                    ..old(self).state
                })
                &&& *final(position) == (UserPosition { shares: (old(position).shares + s) as i128, last_deposit: now })
            },
            r matches Err(e) ==> {
                &&& deposit_spec(*old(self), *old(position), amount as int, deposit_token@, swapped as int) == Err::<(int, int), VaultError>(e)
                &&& *final(self) == *old(self)
                &&& *final(position) == *old(position)
            },
    {
        let route = self.deposit_route(amount, deposit_token);
        let value = match route {
            Err(e) => return Err(e),
            Ok(None) => amount,
            Ok(Some(_)) => {
                if swapped < 0 {
                    return Err(VaultError::InvalidAmount);
                }
                swapped
            },
        };
        let shares = match deposit_shares(&self.state, value) {
            Some(v) => v,
            None => return Err(VaultError::InvalidAmount),
        };
        let total_shares = match self.state.total_shares.checked_add(shares) {
            Some(v) => v,
            None => return Err(VaultError::InvalidAmount),
        };
        let total_value = match self.state.total_value.checked_add(value) {
            Some(v) => v,
            None => return Err(VaultError::InvalidAmount),
        };
        let held = match position.shares.checked_add(shares) {
            Some(v) => v,
            None => return Err(VaultError::InvalidAmount),
        };
        self.state.total_shares = total_shares;
        self.state.total_value = total_value;
        position.shares = held;
        position.last_deposit = now;
        Ok(shares)
    }

    /// A deposit of the base asset (see `deposit_with_token`).
    pub fn deposit(&mut self, position: &mut UserPosition, amount: i128, now: u64) -> (r: Result<i128, VaultError>)
        ensures
            old(self).config is None ==> r == Err::<i128, VaultError>(VaultError::NotInitialized),
            old(self).config matches Some(c) && c.assets.len() == 0 ==> r == Err::<i128, VaultError>(
                VaultError::InvalidConfiguration,
            ),
            old(self).config is Some && old(self).config.unwrap().assets.len() > 0 ==> {
                let base = old(self).config.unwrap().assets@[0]@;
                match (r, deposit_spec(*old(self), *old(position), amount as int, base, 0)) {
                    (Ok(s), Ok((t, value))) => s == t && value == amount
                        && final(self).config == old(self).config
                        && final(self).state == (VaultState {
                            total_shares: (old(self).state.total_shares + t) as i128,
                            total_value: (old(self).state.total_value + amount) as i128,
                            ..old(self).state
                        })
                        && *final(position) == (UserPosition { shares: (old(position).shares + t) as i128, last_deposit: now }),
                    (Err(e), Err(f)) => e == f,
                    _ => false,
                }
            },
            r is Err ==> *final(self) == *old(self) && *final(position) == *old(position),
    {
        let base = match self.base_asset() {
            Err(e) => return Err(e),
            Ok(b) => b.duplicate(),
        };
        self.deposit_with_token(position, amount, &base, 0, now)
    }

    /// Checks a withdrawal of `shares` before anything is liquidated and
    /// returns what they are owed, `shares * total_value / total_shares`.
    /// Fails with `NotInitialized`, `InvalidAmount` (shares not positive, no
    /// shares outstanding, overflow), `InsufficientShares` or
    /// `InvalidConfiguration` (no asset).
    pub fn withdraw_entitlement(&self, position: &UserPosition, shares: i128) -> (r: Result<i128, VaultError>)
        ensures
            match (r, withdraw_check_spec(*self, *position, shares as int)) {
                (Ok(a), Ok(b)) => a == b,
                (Err(e), Err(f)) => e == f,
                _ => false,
            },
    {
        let c = match &self.config {
            None => return Err(VaultError::NotInitialized),
            Some(c) => c,
        };
        if shares <= 0 {
            return Err(VaultError::InvalidAmount);
        }
        if position.shares < shares {
            return Err(VaultError::InsufficientShares);
        }
        if self.state.total_shares == 0 {
            return Err(VaultError::InvalidAmount);
        }
        let amount = match mul_div(shares, self.state.total_value, self.state.total_shares) {
            Some(v) => v,
            None => return Err(VaultError::InvalidAmount),
        };
        if c.assets.len() == 0 {
            return Err(VaultError::InvalidConfiguration);
        }
        Ok(amount)
    }

    /// Completes a withdrawal of `shares` once every other asset has been
    /// converted and the exit asset holds `realized`. Pays the entitlement when
    /// `realized` covers the vault's whole recorded value, and otherwise
    /// `realized * shares / total_shares`, so that a shortfall is borne by all
    /// depositors in proportion to their shares. Burns the shares
    /// and takes the amount actually paid off the vault's value; returns that
    /// amount. Fails as `withdraw_entitlement` does, with
    /// `InsufficientBalance` when `realized` is below the payout and with
    /// `InvalidAmount` on overflow; nothing changes on failure.
    pub fn withdraw(&mut self, position: &mut UserPosition, shares: i128, realized: i128) -> (r: Result<i128, VaultError>)
        ensures
            r matches Ok(paid) ==> {
                &&& withdraw_spec(*old(self), *old(position), shares as int, realized as int) == Ok::<int, VaultError>(paid as int)
                &&& final(self).config == old(self).config
                &&& final(self).state == (VaultState {
                    total_shares: (old(self).state.total_shares - shares) as i128,
                    total_value: (old(self).state.total_value - paid) as i128,
                    ..old(self).state
                })
                &&& *final(position) == (UserPosition { shares: (old(position).shares - shares) as i128, ..*old(position) })
            },
            r matches Err(e) ==> {
                &&& withdraw_spec(*old(self), *old(position), shares as int, realized as int) == Err::<int, VaultError>(e)
                &&& *final(self) == *old(self)
                &&& *final(position) == *old(position)
            },
    {
        let amount = match self.withdraw_entitlement(position, shares) {
            Err(e) => return Err(e),
            Ok(a) => a,
        };
        let paid = match withdrawal_payout(&self.state, shares, amount, realized) {
            Some(v) => v,
            None => return Err(VaultError::InvalidAmount),
        };
        if realized < paid {
            return Err(VaultError::InsufficientBalance);
        }
        let total_shares = match self.state.total_shares.checked_sub(shares) {
            Some(v) => v,
            None => return Err(VaultError::InvalidAmount),
        };
        let total_value = match self.state.total_value.checked_sub(paid) {
            Some(v) => v,
            None => return Err(VaultError::InvalidAmount),
        };
        let held = match position.shares.checked_sub(shares) {
            Some(v) => v,
            None => return Err(VaultError::InvalidAmount),
        };
        self.state.total_shares = total_shares;
        self.state.total_value = total_value;
        position.shares = held;
        Ok(paid)
    }

    /// The assets to convert into the exit asset before a withdrawal (see
    /// `find_xlm_token`): the indices, in order, of every configured asset
    /// other than the exit asset whose balance (`balances`, aligned with the
    /// assets) is positive.
    pub fn assets_to_liquidate(&self, balances: &Vec<i128>) -> (r: Result<Vec<usize>, VaultError>)
        requires
            self.config is Some ==> balances.len() == self.config.unwrap().assets.len(),
        ensures
            self.config is None ==> r == Err::<Vec<usize>, VaultError>(VaultError::NotInitialized),
            self.config is Some && self.config.unwrap().assets.len() == 0 ==> r == Err::<Vec<usize>, VaultError>(
                VaultError::InvalidConfiguration,
            ),
            r matches Ok(v) ==> self.config is Some && v@ == liquidation_indices(
                self.config.unwrap().assets@.map_values(|a: AccountId| a@),
                balances@,
                exit_id(self.config.unwrap()),
                self.config.unwrap().assets.len() as int,
            ),
            self.config is Some && self.config.unwrap().assets.len() > 0 ==> r is Ok,
    {
        let c = match &self.config {
            None => return Err(VaultError::NotInitialized),
            Some(c) => c,
        };
        let n = c.assets.len();
        if n == 0 {
            return Err(VaultError::InvalidConfiguration);
        }
        let exit = match &c.exit_asset {
            Some(e) => e,
            None => &c.assets[n - 1],
        };
        let ghost ids = c.assets@.map_values(|a: AccountId| a@);
        let mut out: Vec<usize> = Vec::new();
        let mut i: usize = 0;
        while i < n
            invariant
                n == c.assets.len(),
                n == balances.len(),
                0 < n,
                i <= n,
                exit@ == exit_id(*c),
                ids == c.assets@.map_values(|a: AccountId| a@),
                out@ == liquidation_indices(ids, balances@, exit@, i as int),
            decreases n - i,
        {
            if !c.assets[i].same_as(exit) && balances[i] > 0 {
                out.push(i);
            }
            i = i + 1;
        }
        Ok(out)
    }
}

/// The address bytes of the exit asset of a configuration with assets.
pub open spec fn exit_id(c: VaultConfig) -> Seq<u8> {
    match c.exit_asset {
        Some(e) => e@,
        None => c.assets@[c.assets.len() - 1]@,
    }
}

/// Indices below `k` of the assets other than the exit asset `exit` whose
/// balance is positive.
pub open spec fn liquidation_indices(ids: Seq<Seq<u8>>, balances: Seq<i128>, exit: Seq<u8>, k: int) -> Seq<usize>
    decreases k,
{
    if k <= 0 {
        Seq::empty()
    } else {
        let prev = liquidation_indices(ids, balances, exit, k - 1);
        if ids[k - 1] != exit && balances[k - 1] > 0 {
            prev.push((k - 1) as usize)
        } else {
            prev
        }
    }
}

/// When the exit asset realizes less than the vault's recorded value, the
/// shortfall is shared in proportion to shares rather than first come, first
/// served: a withdrawal of `shares` pays `realized * shares / total_shares`
/// (rounded down), never more than was realized, and the vault is left with a
/// shortfall still, so the next withdrawal is cut in the same proportion.
pub proof fn lemma_shortfall_shared_pro_rata(v: VaultContract, position: UserPosition, shares: int, realized: int)
    requires
        withdraw_check_spec(v, position, shares) is Ok,
        0 <= realized < v.state.total_value,
        shares <= v.state.total_shares,
        fits_i128(realized * shares),
    ensures
        withdraw_spec(v, position, shares, realized) == Ok::<int, VaultError>(
            (realized * shares) / (v.state.total_shares as int),
        ),
        (realized * shares) / (v.state.total_shares as int) <= realized,
        realized - (realized * shares) / (v.state.total_shares as int) < v.state.total_value - (realized * shares)
            / (v.state.total_shares as int),
{
    let ts = v.state.total_shares as int;
    assert(shares > 0 && ts > 0);
    assert(realized * shares >= 0) by (nonlinear_arith)
        requires
            realized >= 0,
            shares > 0,
    ;
    assert((realized * shares) / ts <= realized) by (nonlinear_arith)
        requires
            realized >= 0,
            0 < shares <= ts,
    ;
    assert((realized * shares) / ts >= 0) by (nonlinear_arith)
        requires
            realized * shares >= 0,
            ts > 0,
    ;
}

/// Whether every running sum of `s` fits in 128 bits.
pub open spec fn sums_fit(s: Seq<i128>) -> bool {
    forall|k: int| 0 <= k <= s.len() ==> fits_i128(seq_sum(#[trigger] s.subrange(0, k)))
}

/// The value the vault actually holds: the sum of its balances of its assets.
/// Fails with `InvalidAmount` when a running sum overflows and with
/// `InsufficientBalance` when the sum is zero.
pub fn actual_total_value(balances: &Vec<i128>) -> (r: Result<i128, VaultError>)
    ensures
        !sums_fit(balances@) ==> r == Err::<i128, VaultError>(VaultError::InvalidAmount),
        sums_fit(balances@) && seq_sum(balances@) == 0 ==> r == Err::<i128, VaultError>(VaultError::InsufficientBalance),
        sums_fit(balances@) && seq_sum(balances@) != 0 ==> r == Ok::<i128, VaultError>(seq_sum(balances@) as i128),
{
    let mut sum: i128 = 0;
    let mut i: usize = 0;
    assert(balances@.subrange(0, 0) =~= Seq::<i128>::empty());
    while i < balances.len()
        invariant
            i <= balances.len(),
            sum == seq_sum(balances@.subrange(0, i as int)),
            forall|k: int| 0 <= k <= i ==> fits_i128(seq_sum(#[trigger] balances@.subrange(0, k))),
        decreases balances.len() - i,
    {
        assert(balances@.subrange(0, i + 1).drop_last() =~= balances@.subrange(0, i as int));
        sum = match sum.checked_add(balances[i]) {
            Some(v) => v,
            None => {
                assert(!fits_i128(seq_sum(balances@.subrange(0, i + 1))));
                return Err(VaultError::InvalidAmount);
            },
        };
        i = i + 1;
    }
    assert(balances@.subrange(0, balances.len() as int) =~= balances@);
    if sum == 0 {
        return Err(VaultError::InsufficientBalance);
    }
    Ok(sum)
}

/// Indices below `k` of the rules whose action is `action`.
pub open spec fn rule_indices(rules: Seq<RebalanceRule>, action: RuleAction, k: int) -> Seq<usize>
    decreases k,
{
    if k <= 0 {
        Seq::empty()
    } else {
        let prev = rule_indices(rules, action, k - 1);
        if rules[k - 1].action == action {
            prev.push((k - 1) as usize)
        } else {
            prev
        }
    }
}

/// The indices, in order, of the rules whose action is `action`.
pub fn rules_with_action(rules: &Vec<RebalanceRule>, action: RuleAction) -> (r: Vec<usize>)
    ensures
        r@ == rule_indices(rules@, action, rules.len() as int),
{
    let mut out: Vec<usize> = Vec::new();
    let mut i: usize = 0;
    while i < rules.len()
        invariant
            i <= rules.len(),
            out@ == rule_indices(rules@, action, i as int),
        decreases rules.len() - i,
    {
        if rules[i].action == action {
            out.push(i);
        }
        i = i + 1;
    }
    out
}

/// Amount a staking rule with `threshold` commits out of `total_value`.
pub open spec fn stake_spec(v: VaultContract, threshold: int, total_value: int, balance: int) -> Result<int, VaultError> {
    match v.config {
        None => Err(VaultError::NotInitialized),
        Some(c) => {
            if c.assets.len() == 0 {
                Err(VaultError::InvalidConfiguration)
            } else {
                match mul_div_spec(total_value, threshold, FULL_ALLOCATION as int) {
                    None => Err(VaultError::InvalidAmount),
                    Some(amount) => {
                        if amount > total_value || amount > balance {
                            Err(VaultError::InsufficientBalance)
                        } else if c.staking_pool_address is None {
                            Err(VaultError::InvalidConfiguration)
                        } else {
                            Ok(amount)
                        }
                    },
                }
            }
        },
    }
}

/// Amount a liquidity rule with `threshold` commits out of `total_value`, split
/// evenly between the first two assets.
pub open spec fn liquidity_spec(v: VaultContract, threshold: int, total_value: int, balance_a: int, balance_b: int) -> Result<int, VaultError> {
    match v.config {
        None => Err(VaultError::NotInitialized),
        Some(c) => {
            if c.assets.len() < 2 {
                Err(VaultError::InvalidConfiguration)
            } else {
                match mul_div_spec(total_value, threshold, FULL_ALLOCATION as int) {
                    None => Err(VaultError::InvalidAmount),
                    Some(amount) => {
                        if amount > total_value {
                            Err(VaultError::InsufficientBalance)
                        } else if c.liquidity_pool_address is None {
                            Err(VaultError::InvalidConfiguration)
                        } else if crate::arith::trunc_div(amount, 2) > balance_a || crate::arith::trunc_div(amount, 2) > balance_b {
                            Err(VaultError::InsufficientBalance)
                        } else {
                            Ok(crate::arith::trunc_div(amount, 2))
                        }
                    },
                }
            }
        },
    }
}

impl VaultContract {
    /// How much a staking rule stakes of the first asset:
    /// `total_value * threshold / 1,000,000`. Fails with `NotInitialized`,
    /// `InvalidConfiguration` (no asset, or no staking pool), `InvalidAmount`
    /// (overflow) or `InsufficientBalance` (more than the value or than the
    /// `balance` held of the first asset).
    pub fn stake_amount(&self, threshold: i128, total_value: i128, balance: i128) -> (r: Result<i128, VaultError>)
        ensures
            match (r, stake_spec(*self, threshold as int, total_value as int, balance as int)) {
                (Ok(a), Ok(b)) => a == b,
                (Err(e), Err(f)) => e == f,
                _ => false,
            },
    {
        let c = match &self.config {
            None => return Err(VaultError::NotInitialized),
            Some(c) => c,
        };
        if c.assets.len() == 0 {
            return Err(VaultError::InvalidConfiguration);
        }
        let amount = match mul_div(total_value, threshold, FULL_ALLOCATION) {
            Some(v) => v,
            None => return Err(VaultError::InvalidAmount),
        };
        if amount > total_value || amount > balance {
            return Err(VaultError::InsufficientBalance);
        }
        if c.staking_pool_address.is_none() {
            return Err(VaultError::InvalidConfiguration);
        }
        Ok(amount)
    }

    /// The position a liquidity rule records: `total_value * threshold /
    /// 1,000,000` split evenly between the first two assets, against the
    /// configured liquidity pool, at time `now`. Fails with `NotInitialized`,
    /// `InvalidConfiguration` (fewer than two assets, or no pool),
    /// `InvalidAmount` (overflow) or `InsufficientBalance` (more than the value,
    /// or a half above `balance_a` or `balance_b`).
    pub fn plan_liquidity(
        &self,
        threshold: i128,
        total_value: i128,
        balance_a: i128,
        balance_b: i128,
        now: u64,
    ) -> (r: Result<LiquidityPosition, VaultError>)
        ensures
            match (r, liquidity_spec(*self, threshold as int, total_value as int, balance_a as int, balance_b as int)) {
                (Ok(p), Ok(half)) => {
                    let c = self.config.unwrap();
                    &&& p.amount_a_provided == half && p.amount_b_provided == half
                    &&& p.lp_tokens == 2 * half
                    &&& p.pool_address@ == c.liquidity_pool_address.unwrap()@
                    &&& p.token_a@ == c.assets@[0]@ && p.token_b@ == c.assets@[1]@
                    &&& p.timestamp == now
                },
                (Err(e), Err(f)) => e == f,
                _ => false,
            },
    {
        let c = match &self.config {
            None => return Err(VaultError::NotInitialized),
            Some(c) => c,
        };
        if c.assets.len() < 2 {
            return Err(VaultError::InvalidConfiguration);
        }
        let amount = match mul_div(total_value, threshold, FULL_ALLOCATION) {
            Some(v) => v,
            None => return Err(VaultError::InvalidAmount),
        };
        if amount > total_value {
            return Err(VaultError::InsufficientBalance);
        }
        let pool = match &c.liquidity_pool_address {
            None => return Err(VaultError::InvalidConfiguration),
            Some(p) => p.duplicate(),
        };
        let half = match amount.checked_div(2) {
            Some(v) => v,
            None => return Err(VaultError::InvalidAmount),
        };
        if half > balance_a || half > balance_b {
            return Err(VaultError::InsufficientBalance);
        }
        Ok(LiquidityPosition {
            pool_address: pool,
            token_a: c.assets[0].duplicate(),
            token_b: c.assets[1].duplicate(),
            lp_tokens: half + half,
            amount_a_provided: half,
            amount_b_provided: half,
            timestamp: now,
        })
    }
}

} // verus!
