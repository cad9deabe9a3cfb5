//! The vault as mathematics: its state and what each operation makes of it.

use crate::error::VaultError;
use crate::ledger::LedgerState;
use crate::wide::mul_div_floor;
use vstd::prelude::*;

verus! {

/// Length of one reward period, in seconds: thirty days.
pub const DURATION_30DAYS_IN_SEC: u32 = 2_592_000;

/// The fewest shares that a withdrawal may leave outstanding: one whole share
/// token of 24 decimals.
pub const MIN_TOTAL_SUPPLY: u128 = 1_000_000_000_000_000_000_000_000;

/// How the transfer that pays out a withdrawal ended.
#[derive(Clone, Copy, Debug, PartialEq, Eq, Structural)]
pub enum TransferOutcome {
    Successful,
    Failed,
}

/// What the vault did on learning how a transfer ended.
#[derive(Clone, Copy, Debug, PartialEq, Eq, Structural)]
pub enum Settlement {
    /// The transfer went through; the withdrawal stands.
    Finalized,
    /// The transfer failed; shares and pool are as before the withdrawal.
    RolledBack,
    /// The transfer failed and the account is gone; the amount stays in the pool.
    Forfeited,
}

/// The state of a vault.
#[verifier::ext_equal]
pub struct VaultState {
    /// The share ledger.
    pub ledger: LedgerState,
    /// The one asset that the vault accepts.
    pub locked_token: Seq<char>,
    /// Base asset that backs the outstanding shares.
    pub locked_amount: u128,
    /// Reward received and not yet released into the pool.
    pub undistributed_reward: u128,
    /// When reward was last settled, in seconds.
    pub prev_distribution_time: u32,
    /// When the release of reward begins, in seconds.
    pub reward_genesis_time: u32,
    /// Reward released per period.
    pub period_reward: u128,
}

impl VaultState {
    /// A vault before its first deposit.
    pub open spec fn genesis(
        locked_token: Seq<char>,
        reward_genesis_time: u32,
        period_reward: u128,
    ) -> VaultState {
        VaultState {
            ledger: LedgerState::empty(),
            locked_token,
            locked_amount: 0,
            undistributed_reward: 0,
            prev_distribution_time: reward_genesis_time,
            reward_genesis_time,
            period_reward,
        }
    }

    /// Whether a share is worth at least as much in `later` as it is here:
    /// pool over supply, compared without dividing.
    pub open spec fn rate_le(self, later: VaultState) -> bool {
        self.locked_amount * later.ledger.total_supply <= later.locked_amount
            * self.ledger.total_supply
    }

    /// Whether the shares outstanding, if any, have a pool behind them.
    pub open spec fn backed(self) -> bool {
        self.ledger.total_supply > 0 ==> self.locked_amount > 0
    }

    /// Whole periods between the last settlement and `now`.
    pub open spec fn elapsed_periods(self, now: u32) -> int {
        (now - self.prev_distribution_time) / (DURATION_30DAYS_IN_SEC as int)
    }

    /// Reward due for release at `now`: the period reward for each whole period
    /// since the last settlement, capped by what is left to release; nothing
    /// before the release has begun.
    pub open spec fn releasable(self, now: u32) -> u128 {
        if now > self.reward_genesis_time && now > self.prev_distribution_time {
            let ideal = self.period_reward * self.elapsed_periods(now);
            if ideal <= self.undistributed_reward {
                ideal as u128
            } else {
                self.undistributed_reward
            }
        } else {
            0
        }
    }

    /// Settling reward at `now`: what is due moves into the pool, and the time
    /// of the last settlement becomes `now`, or the start of the release while
    /// `now` lies before it.
    pub open spec fn checkpoint(self, now: u32) -> Result<VaultState, VaultError> {
        let release = self.releasable(now);
        if self.locked_amount + release > u128::MAX {
            Err(VaultError::ArithmeticOverflow)
        } else {
            Ok(
                VaultState {
                    locked_amount: (self.locked_amount + release) as u128,
                    undistributed_reward: (self.undistributed_reward - release) as u128,
                    prev_distribution_time: if now >= self.reward_genesis_time {
                        now
                    } else {
                        self.reward_genesis_time
                    },
                    ..self
                },
            )
        }
    }

    /// Shares that a deposit of `amount` mints: one for one while no share
    /// exists, else in the proportion of supply to pool, rounded down.
    pub open spec fn shares_for(self, amount: u128) -> int {
        if self.ledger.total_supply == 0 {
            amount as int
        } else {
            mul_div_floor(amount, self.ledger.total_supply, self.locked_amount)
        }
    }

    /// A deposit of `amount` by `account`.
    pub open spec fn stake(self, account: Seq<char>, amount: u128) -> Result<
        VaultState,
        VaultError,
    > {
        if !self.ledger.contains(account) {
            Err(VaultError::AccountNotRegistered)
        } else if self.ledger.total_supply != 0 && self.locked_amount == 0 {
            Err(VaultError::InternalInvariantViolation)
        } else if self.shares_for(amount) > u128::MAX {
            Err(VaultError::ArithmeticOverflow)
        } else if self.shares_for(amount) == 0 {
            Err(VaultError::StakeTooSmall)
        } else if self.locked_amount + amount > u128::MAX {
            Err(VaultError::ArithmeticOverflow)
        } else {
            match self.ledger.deposit(account, self.shares_for(amount) as u128) {
                Ok(ledger) => Ok(
                    VaultState {
                        ledger,
                        locked_amount: (self.locked_amount + amount) as u128,
                        ..self
                    },
                ),
                Err(e) => Err(e),
            }
        }
    }

    /// Funding of future releases with `amount`.
    pub open spec fn add_reward(self, amount: u128) -> Result<VaultState, VaultError> {
        if self.undistributed_reward + amount > u128::MAX {
            Err(VaultError::ArithmeticOverflow)
        } else {
            Ok(
                VaultState {
                    undistributed_reward: (self.undistributed_reward + amount) as u128,
                    ..self
                },
            )
        }
    }

    /// Base asset that `shares` redeem: their part of the pool, rounded down.
    pub open spec fn payout_for(self, shares: u128) -> int {
        mul_div_floor(shares, self.locked_amount, self.ledger.total_supply)
    }

    /// The burn and payout of a withdrawal, on a vault whose reward is settled.
    pub open spec fn burn(self, account: Seq<char>, attached_deposit: u128, shares: u128) -> Result<
        VaultState,
        VaultError,
    > {
        if attached_deposit != 1 {
            Err(VaultError::OneYoctoRequired)
        } else if self.ledger.total_supply == 0 {
            Err(VaultError::EmptyTotalSupply)
        } else if self.payout_for(shares) > u128::MAX {
            Err(VaultError::ArithmeticOverflow)
        } else {
            match self.ledger.withdraw(account, shares) {
                Err(e) => Err(e),
                Ok(ledger) => if ledger.total_supply < MIN_TOTAL_SUPPLY {
                    Err(VaultError::KeepMinimumShares)
                } else {
                    Ok(
                        VaultState {
                            ledger,
                            locked_amount: (self.locked_amount - self.payout_for(shares)) as u128,
                            ..self
                        },
                    )
                },
            }
        }
    }

    /// A withdrawal of `shares` by `account` at `now`: reward is settled, the
    /// shares are burnt and their part of the pool leaves it.
    pub open spec fn unstake(
        self,
        account: Seq<char>,
        attached_deposit: u128,
        shares: u128,
        now: u32,
    ) -> Result<VaultState, VaultError> {
        match self.checkpoint(now) {
            Err(e) => Err(e),
            Ok(settled) => settled.burn(account, attached_deposit, shares),
        }
    }

    /// What a withdrawal of `shares` at `now` pays out.
    pub open spec fn unstake_payout(self, shares: u128, now: u32) -> int {
        match self.checkpoint(now) {
            Err(_) => 0,
            Ok(settled) => settled.payout_for(shares),
        }
    }

    /// What the vault does on learning `outcome`, given that one result came.
    pub open spec fn settlement(self, account: Seq<char>, outcome: TransferOutcome) -> Settlement {
        if outcome == TransferOutcome::Successful {
            Settlement::Finalized
        } else if self.ledger.contains(account) {
            Settlement::RolledBack
        } else {
            Settlement::Forfeited
        }
    }

    /// The vault after the transfer of `amount` for `shares` of `account` ended
    /// in `outcome`. A failed transfer to an account that is still registered
    /// gives back the shares and returns the amount to the pool.
    pub open spec fn settle(
        self,
        account: Seq<char>,
        amount: u128,
        shares: u128,
        results_count: u64,
        outcome: TransferOutcome,
    ) -> Result<VaultState, VaultError> {
        if results_count != 1 {
            Err(VaultError::InternalInvariantViolation)
        } else if self.settlement(account, outcome) != Settlement::RolledBack {
            Ok(self)
        } else if self.locked_amount + amount > u128::MAX {
            Err(VaultError::ArithmeticOverflow)
        } else {
            match self.ledger.deposit(account, shares) {
                Ok(ledger) => Ok(
                    VaultState {
                        ledger,
                        locked_amount: (self.locked_amount + amount) as u128,
                        ..self
                    },
                ),
                Err(e) => Err(e),
            }
        }
    }

    /// The arrival of `amount` of the asset `token_in` from `sender` at `now`:
    /// reward is settled; the amount is a deposit where `msg` is empty and
    /// funding of reward where it is not.
    pub open spec fn on_transfer(
        self,
        token_in: Seq<char>,
        sender: Seq<char>,
        amount: u128,
        msg: Seq<char>,
        now: u32,
    ) -> Result<VaultState, VaultError> {
        match self.checkpoint(now) {
            Err(e) => Err(e),
            Ok(settled) => if token_in != settled.locked_token {
                Err(VaultError::MismatchedAsset)
            } else if msg.len() == 0 {
                settled.stake(sender, amount)
            } else {
                settled.add_reward(amount)
            },
        }
    }
}

} // verus!
