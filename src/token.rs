//! A plain fungible token: metadata, and the rules its balance and allowance
//! updates follow. Balances are handed in and out by the caller, which keeps
//! one record per account.
use vstd::prelude::*;
use crate::arith::fits_i128;
use crate::ids::AccountId;

verus! {

/// Decimals reported when none were set.
pub const DEFAULT_DECIMALS: u32 = 7;

/// Failures of the token.
#[derive(Clone, Copy, Debug, PartialEq, Eq, Structural, Hash)]
pub enum TokenError {
    NotInitialized,
    InsufficientBalance,
    InsufficientAllowance,
    Overflow,
}

/// Metadata of a token; each field is unset until `initialize`.
#[derive(Clone, Debug, PartialEq, Eq)]
pub struct CustomToken {
    pub admin: Option<AccountId>,
    pub decimals: Option<u32>,
    pub name: Option<String>,
    pub symbol: Option<String>,
}

/// Balances `(from, to)` after moving `amount`, for a move between two
/// accounts or (when `same`) from an account to itself.
pub open spec fn transfer_spec(same: bool, from_balance: int, to_balance: int, amount: int) -> Result<(int, int), TokenError> {
    if from_balance < amount {
        Err(TokenError::InsufficientBalance)
    } else if !fits_i128(from_balance - amount) {
        Err(TokenError::Overflow)
    } else if same {
        Ok((from_balance, from_balance))
    } else if !fits_i128(to_balance + amount) {
        Err(TokenError::Overflow)
    } else {
        Ok((from_balance - amount, to_balance + amount))
    }
}

impl CustomToken {
    /// A token with no metadata yet.
    pub fn new() -> (r: CustomToken)
        ensures
            r.admin is None && r.decimals is None && r.name is None && r.symbol is None,
    {
        CustomToken { admin: None, decimals: None, name: None, symbol: None }
    }

    /// Sets the metadata and the admin. Returns the admin's new balance when
    /// `initial_supply` is positive (it is minted to the admin), and `None`
    /// otherwise (the admin's balance stays as it is).
    pub fn initialize(&mut self, admin: AccountId, decimals: u32, name: String, symbol: String, initial_supply: i128) -> (r: Option<i128>)
        ensures
            *final(self) == (CustomToken {
                admin: Some(admin),
                decimals: Some(decimals),
                name: Some(name),
                symbol: Some(symbol),
            }),
            initial_supply > 0 ==> r == Some(initial_supply),
            initial_supply <= 0 ==> r is None,
    {
        self.admin = Some(admin);
        self.decimals = Some(decimals);
        self.name = Some(name);
        self.symbol = Some(symbol);
        if initial_supply > 0 {
            Some(initial_supply)
        } else {
            None
        }
    }

    /// The balance after the admin mints `amount` to an account holding
    /// `balance`. Fails with `NotInitialized` before `initialize` and with
    /// `Overflow` when the sum does not fit.
    pub fn mint(&self, balance: i128, amount: i128) -> (r: Result<i128, TokenError>)
        ensures
            self.admin is None ==> r == Err::<i128, TokenError>(TokenError::NotInitialized),
            self.admin is Some && !fits_i128(balance + amount) ==> r == Err::<i128, TokenError>(TokenError::Overflow),
            self.admin is Some && fits_i128(balance + amount) ==> r == Ok::<i128, TokenError>((balance + amount) as i128),
    {
        if self.admin.is_none() {
            return Err(TokenError::NotInitialized);
        }
        match balance.checked_add(amount) {
            Some(v) => Ok(v),
            None => Err(TokenError::Overflow),
        }
    }

    /// Balances `(from, to)` after `from` sends `amount` to `to`; a transfer
    /// to oneself leaves the balance as it was. Fails with
    /// `InsufficientBalance` when `from` holds less than `amount`, and with
    /// `Overflow` when a balance would not fit.
    pub fn transfer(from: &AccountId, to: &AccountId, from_balance: i128, to_balance: i128, amount: i128) -> (r: Result<(i128, i128), TokenError>)
        ensures
            match (r, transfer_spec(from@ == to@, from_balance as int, to_balance as int, amount as int)) {
                (Ok((x, y)), Ok((u, v))) => x == u && y == v,
                (Err(e), Err(f)) => e == f,
                _ => false,
            },
    {
        if from_balance < amount {
            return Err(TokenError::InsufficientBalance);
        }
        let left = match from_balance.checked_sub(amount) {
            Some(v) => v,
            None => return Err(TokenError::Overflow),
        };
        if from.same_as(to) {
            return Ok((from_balance, from_balance));
        }
        match to_balance.checked_add(amount) {
            Some(v) => Ok((left, v)),
            None => Err(TokenError::Overflow),
        }
    }

    /// Allowance and balances `(allowance, from, to)` after `spender` moves
    /// `amount` from `from` to `to`. Fails with `InsufficientAllowance` when
    /// the allowance is below `amount`, then as `transfer` does, and with
    /// `Overflow` when the remaining allowance would not fit.
    pub fn transfer_from(
        allowance: i128,
        from: &AccountId,
        to: &AccountId,
        from_balance: i128,
        to_balance: i128,
        amount: i128,
    ) -> (r: Result<(i128, i128, i128), TokenError>)
        ensures
            allowance < amount ==> r == Err::<(i128, i128, i128), TokenError>(TokenError::InsufficientAllowance),
            allowance >= amount ==> match (r, transfer_spec(from@ == to@, from_balance as int, to_balance as int, amount as int)) {
                (Ok((a, x, y)), Ok((u, v))) => a == allowance - amount && x == u && y == v,
                (Err(e), Ok(_)) => e == TokenError::Overflow && !fits_i128(allowance - amount),
                (Err(e), Err(f)) => e == f,
                _ => false,
            },
    {
        if allowance < amount {
            return Err(TokenError::InsufficientAllowance);
        }
        let (left, right) = match Self::transfer(from, to, from_balance, to_balance, amount) {
            Err(e) => return Err(e),
            Ok(p) => p,
        };
        match allowance.checked_sub(amount) {
            Some(a) => Ok((a, left, right)),
            None => Err(TokenError::Overflow),
        }
    }

    /// The decimals set at initialization, 7 when unset.
    pub fn decimals(&self) -> (r: u32)
        ensures
            self.decimals matches Some(d) ==> r == d,
            self.decimals is None ==> r == DEFAULT_DECIMALS,
    {
        match self.decimals {
            Some(d) => d,
            None => DEFAULT_DECIMALS,
        }
    }

    /// The name set at initialization, "Unknown" when unset.
    pub fn name(&self) -> (r: &str)
        ensures
            self.name matches Some(n) ==> r@ == n@,
            self.name is None ==> r@ == "Unknown"@,
    {
        match &self.name {
            Some(n) => n.as_str(),
            None => "Unknown",
        }
    }

    /// The symbol set at initialization, "???" when unset.
    pub fn symbol(&self) -> (r: &str)
        ensures
            self.symbol matches Some(s) ==> r@ == s@,
            self.symbol is None ==> r@ == "???"@,
    {
        match &self.symbol {
            Some(s) => s.as_str(),
            None => "???",
        }
    }

    /// The admin, who alone may mint.
    pub fn admin(&self) -> (r: Result<&AccountId, TokenError>)
        ensures
            self.admin matches Some(a) ==> r == Ok::<&AccountId, TokenError>(&a),
            self.admin is None ==> r == Err::<&AccountId, TokenError>(TokenError::NotInitialized),
    {
        match &self.admin {
            Some(a) => Ok(a),
            None => Err(TokenError::NotInitialized),
        }
    }
}

} // verus!
