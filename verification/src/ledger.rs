//! The share ledger: who holds how many shares, and how many exist.

use crate::error::VaultError;
use vstd::hash_map::StringHashMap;
use vstd::prelude::*;

verus! {

/// What a share ledger holds, as mathematics: the balance of each registered
/// account and the number of shares outstanding.
pub struct LedgerState {
    pub balances: Map<Seq<char>, u128>,
    pub total_supply: u128,
}

impl LedgerState {
    /// The ledger with no account and no share.
    pub open spec fn empty() -> LedgerState {
        LedgerState { balances: Map::empty(), total_supply: 0 }
    }

    /// Whether `account` is registered.
    pub open spec fn contains(self, account: Seq<char>) -> bool {
        self.balances.contains_key(account)
    }

    /// The ledger after `account` was registered with no share. A registered
    /// account keeps what it has.
    pub open spec fn register(self, account: Seq<char>) -> LedgerState {
        if self.contains(account) {
            self
        } else {
            LedgerState { balances: self.balances.insert(account, 0), ..self }
        }
    }

    /// The ledger after `account` gave up its registration, which it can once
    /// it holds no share. Otherwise the ledger is as it was.
    pub open spec fn unregister(self, account: Seq<char>) -> LedgerState {
        if self.contains(account) && self.balances[account] == 0 {
            LedgerState { balances: self.balances.remove(account), ..self }
        } else {
            self
        }
    }

    /// Minting `amount` shares to `account`: refused for an unknown account and
    /// where the balance or the supply would leave 128 bits.
    pub open spec fn deposit(self, account: Seq<char>, amount: u128) -> Result<
        LedgerState,
        VaultError,
    > {
        if !self.contains(account) {
            Err(VaultError::AccountNotRegistered)
        } else if self.balances[account] + amount > u128::MAX || self.total_supply + amount
            > u128::MAX {
            Err(VaultError::ArithmeticOverflow)
        } else {
            Ok(
                LedgerState {
                    balances: self.balances.insert(
                        account,
                        (self.balances[account] + amount) as u128,
                    ),
                    total_supply: (self.total_supply + amount) as u128,
                },
            )
        }
    }

    /// Burning `amount` shares of `account`: refused for an unknown account, for
    /// a balance that is too small, and where the supply cannot cover the burn.
    pub open spec fn withdraw(self, account: Seq<char>, amount: u128) -> Result<
        LedgerState,
        VaultError,
    > {
        if !self.contains(account) {
            Err(VaultError::AccountNotRegistered)
        } else if self.balances[account] < amount {
            Err(VaultError::InsufficientBalance)
        } else if self.total_supply < amount {
            Err(VaultError::InternalInvariantViolation)
        } else {
            Ok(
                LedgerState {
                    balances: self.balances.insert(
                        account,
                        (self.balances[account] - amount) as u128,
                    ),
                    total_supply: (self.total_supply - amount) as u128,
                },
            )
        }
    }
}

/// The share ledger of a vault, held in memory.
pub struct ShareLedger {
    accounts: StringHashMap<u128>,
    total_supply: u128,
}

impl View for ShareLedger {
    type V = LedgerState;

    closed spec fn view(&self) -> LedgerState {
        LedgerState { balances: self.accounts@, total_supply: self.total_supply }
    }
}

impl ShareLedger {
    /// A ledger with no account and no share.
    pub fn new() -> (out: ShareLedger)
        ensures
            out@ == LedgerState::empty(),
    {
        ShareLedger { accounts: StringHashMap::new(), total_supply: 0 }
    }

    /// A ledger with no account whose supply is already `total_supply`: the
    /// starting point for a ledger of which only some accounts are at hand.
    pub fn with_total_supply(total_supply: u128) -> (out: ShareLedger)
        ensures
            out@ == (LedgerState { balances: Map::empty(), total_supply }),
    {
        ShareLedger { accounts: StringHashMap::new(), total_supply }
    }

    /// Records `balance` as what `account_id` holds, registering the account if
    /// need be. The supply is left alone.
    pub fn set_balance(&mut self, account_id: &String, balance: u128)
        ensures
            final(self)@ == (LedgerState {
                balances: old(self)@.balances.insert(account_id@, balance),
                ..old(self)@
            }),
    {
        self.accounts.insert(account_id.clone(), balance);
    }

    /// The number of shares outstanding.
    pub fn total_supply(&self) -> (out: u128)
        ensures
            out == self@.total_supply,
    {
        self.total_supply
    }

    /// Whether `account_id` is registered.
    pub fn contains(&self, account_id: &String) -> (out: bool)
        ensures
            out == self@.contains(account_id@),
    {
        self.accounts.contains_key(account_id.as_str())
    }

    /// The shares of `account_id`, or `None` for an account that is not
    /// registered.
    pub fn balance_of(&self, account_id: &String) -> (out: Option<u128>)
        ensures
            out == (if self@.contains(account_id@) {
                Some(self@.balances[account_id@])
            } else {
                None
            }),
    {
        match self.accounts.get(account_id.as_str()) {
            Some(balance) => Some(*balance),
            None => None,
        }
    }

    /// Registers `account_id` with no share. Returns whether the account is
    /// new; one that is registered already keeps its balance.
    pub fn register(&mut self, account_id: &String) -> (out: bool)
        ensures
            out == !old(self)@.contains(account_id@),
            final(self)@ == old(self)@.register(account_id@),
    {
        if self.accounts.contains_key(account_id.as_str()) {
            false
        } else {
            self.accounts.insert(account_id.clone(), 0);
            true
        }
    }

    /// Removes `account_id` if it is registered and holds no share. Returns
    /// whether it was removed.
    pub fn unregister(&mut self, account_id: &String) -> (out: bool)
        ensures
            out == (old(self)@.contains(account_id@) && old(self)@.balances[account_id@] == 0),
            final(self)@ == old(self)@.unregister(account_id@),
    {
        match self.balance_of(account_id) {
            Some(balance) => {
                if balance == 0 {
                    self.accounts.remove(account_id.as_str());
                    true
                } else {
                    false
                }
            },
            None => false,
        }
    }

    /// Mints `amount` shares to `account_id`. On refusal nothing changes.
    pub fn deposit(&mut self, account_id: &String, amount: u128) -> (out: Result<(), VaultError>)
        ensures
            match out {
                Ok(()) => old(self)@.deposit(account_id@, amount) == Ok::<LedgerState, VaultError>(
                    final(self)@,
                ),
                Err(e) => old(self)@.deposit(account_id@, amount) == Err::<LedgerState, VaultError>(
                    e,
                ) && final(self)@ == old(self)@,
            },
    {
        let balance: u128 = match self.balance_of(account_id) {
            Some(balance) => balance,
            None => {
                return Err(VaultError::AccountNotRegistered);
            },
        };
        let new_balance: u128 = match balance.checked_add(amount) {
            Some(sum) => sum,
            None => {
                return Err(VaultError::ArithmeticOverflow);
            },
        };
        let new_supply: u128 = match self.total_supply.checked_add(amount) {
            Some(sum) => sum,
            None => {
                return Err(VaultError::ArithmeticOverflow);
            },
        };
        self.accounts.insert(account_id.clone(), new_balance);
        self.total_supply = new_supply;
        Ok(())
    }

    /// Burns `amount` shares of `account_id`. On refusal nothing changes.
    pub fn withdraw(&mut self, account_id: &String, amount: u128) -> (out: Result<(), VaultError>)
        ensures
            match out {
                Ok(()) => old(self)@.withdraw(account_id@, amount) == Ok::<
                    LedgerState,
                    VaultError,
                >(final(self)@),
                Err(e) => old(self)@.withdraw(account_id@, amount) == Err::<
                    LedgerState,
                    VaultError,
                >(e) && final(self)@ == old(self)@,
            },
    {
        let balance: u128 = match self.balance_of(account_id) {
            Some(balance) => balance,
            None => {
                return Err(VaultError::AccountNotRegistered);
            },
        };
        if balance < amount {
            return Err(VaultError::InsufficientBalance);
        }
        if self.total_supply < amount {
            return Err(VaultError::InternalInvariantViolation);
        }
        self.accounts.insert(account_id.clone(), balance - amount);
        self.total_supply = self.total_supply - amount;
        Ok(())
    }
}

} // verus!
