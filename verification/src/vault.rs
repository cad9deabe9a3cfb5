//! The vault: reward schedule, deposits, and withdrawals in two phases.

use crate::error::VaultError;
use crate::ledger::ShareLedger;
use crate::state::Settlement;
use crate::state::TransferOutcome;
use crate::state::VaultState;
use crate::state::DURATION_30DAYS_IN_SEC;
use crate::state::MIN_TOTAL_SUPPLY;
use crate::wide::mul_div;
use vstd::arithmetic::div_mod::lemma_div_is_ordered;
use vstd::arithmetic::div_mod::lemma_div_multiples_vanish;
use vstd::prelude::*;

verus! {

/// The transfer that a withdrawal asks for, and what its completion has to be
/// told.
#[derive(Debug)]
pub struct PendingTransfer {
    /// Who burnt the shares and receives the base asset.
    pub receiver_id: String,
    /// Base asset to transfer.
    pub amount: u128,
    /// Shares that were burnt.
    pub shares: u128,
}

/// A staking vault.
pub struct Contract {
    /// The share ledger.
    pub ft: ShareLedger,
    /// The one asset that the vault accepts.
    pub locked_token: String,
    /// Reward received and not yet released into the pool.
    pub undistributed_reward: u128,
    /// Base asset that backs the outstanding shares.
    pub locked_token_amount: u128,
    /// When reward was last settled, in seconds.
    pub prev_distribution_time_in_sec: u32,
    /// When the release of reward begins, in seconds.
    pub reward_genesis_time_in_sec: u32,
    /// Reward released per period of thirty days.
    pub monthly_reward: u128,
}

impl View for Contract {
    type V = VaultState;

    open spec fn view(&self) -> VaultState {
        VaultState {
            ledger: self.ft@,
            locked_token: self.locked_token@,
            locked_amount: self.locked_token_amount,
            undistributed_reward: self.undistributed_reward,
            prev_distribution_time: self.prev_distribution_time_in_sec,
            reward_genesis_time: self.reward_genesis_time_in_sec,
            period_reward: self.monthly_reward,
        }
    }
}

/// Whole seconds in `nano` nanoseconds, kept to 32 bits.
pub fn nano_to_sec(nano: u64) -> (out: u32)
    ensures
        out == (nano / 1_000_000_000) % 0x1_0000_0000,
{
    ((nano / 1_000_000_000) % 0x1_0000_0000) as u32
}

/// Shares no larger than the supply redeem no more than the pool.
proof fn lemma_payout_within_pool(shares: u128, locked: u128, supply: u128)
    requires
        0 < supply,
        shares <= supply,
    ensures
        (shares * locked) / (supply as int) <= locked,
{
    assert(shares * locked <= supply * locked) by (nonlinear_arith)
        requires
            shares <= supply,
            locked >= 0,
    ;
    lemma_div_is_ordered(shares * locked, supply * locked, supply as int);
    lemma_div_multiples_vanish(locked as int, supply as int);
}

impl Contract {
    /// A vault for the asset `locked_token`, with no share and no reward, that
    /// begins to release `monthly_reward` per period at
    /// `reward_genesis_time_in_sec`.
    pub fn new(locked_token: String, reward_genesis_time_in_sec: u32, monthly_reward: u128) -> (out:
        Contract)
        ensures
            out@ == VaultState::genesis(locked_token@, reward_genesis_time_in_sec, monthly_reward),
    {
        Contract {
            ft: ShareLedger::new(),
            locked_token,
            undistributed_reward: 0,
            locked_token_amount: 0,
            prev_distribution_time_in_sec: reward_genesis_time_in_sec,
            reward_genesis_time_in_sec,
            monthly_reward,
        }
    }

    /// Takes a deposit of `amount` from `account_id` and mints shares for it at
    /// the current rate. Returns the shares minted. A deposit that would mint
    /// no share is refused, and a refused deposit changes nothing.
    pub fn internal_stake(&mut self, account_id: &String, amount: u128) -> (out: Result<
        u128,
        VaultError,
    >)
        ensures
            match out {
                Ok(minted) => minted == old(self)@.shares_for(amount) && minted > 0 && old(
                    self,
                )@.stake(account_id@, amount) == Ok::<VaultState, VaultError>(final(self)@),
                Err(e) => old(self)@.stake(account_id@, amount) == Err::<VaultState, VaultError>(e)
                    && final(self)@ == old(self)@,
            },
    {
        if !self.ft.contains(account_id) {
            return Err(VaultError::AccountNotRegistered);
        }
        let supply: u128 = self.ft.total_supply();
        let mut minted: u128 = amount;
        if supply != 0 {
            if self.locked_token_amount == 0 {
                return Err(VaultError::InternalInvariantViolation);
            }
            minted =
            match mul_div(amount, supply, self.locked_token_amount) {
                Some(shares) => shares,
                None => {
                    return Err(VaultError::ArithmeticOverflow);
                },
            };
        }
        if minted == 0 {
            return Err(VaultError::StakeTooSmall);
        }
        let locked: u128 = match self.locked_token_amount.checked_add(amount) {
            Some(sum) => sum,
            None => {
                return Err(VaultError::ArithmeticOverflow);
            },
        };
        match self.ft.deposit(account_id, minted) {
            Ok(()) => {
                self.locked_token_amount = locked;
                Ok(minted)
            },
            Err(e) => Err(e),
        }
    }

    /// Adds `amount` to the reward that awaits release. No share is minted and
    /// `account_id` need not be registered.
    pub fn internal_add_reward(&mut self, account_id: &String, amount: u128) -> (out: Result<
        (),
        VaultError,
    >)
        ensures
            match out {
                Ok(()) => old(self)@.add_reward(amount) == Ok::<VaultState, VaultError>(
                    final(self)@,
                ),
                Err(e) => old(self)@.add_reward(amount) == Err::<VaultState, VaultError>(e)
                    && final(self)@ == old(self)@,
            },
    {
        match self.undistributed_reward.checked_add(amount) {
            Some(sum) => {
                self.undistributed_reward = sum;
                Ok(())
            },
            None => Err(VaultError::ArithmeticOverflow),
        }
    }

    /// The reward due for release at `cur_timestamp_in_sec`. Changes nothing.
    pub fn try_distribute_reward(&self, cur_timestamp_in_sec: u32) -> (out: u128)
        ensures
            out == self@.releasable(cur_timestamp_in_sec),
            out <= self.undistributed_reward,
            cur_timestamp_in_sec >= self.prev_distribution_time_in_sec ==> out
                <= self.monthly_reward * self@.elapsed_periods(cur_timestamp_in_sec),
    {
        if cur_timestamp_in_sec > self.reward_genesis_time_in_sec && cur_timestamp_in_sec
            > self.prev_distribution_time_in_sec {
            let periods: u32 = (cur_timestamp_in_sec - self.prev_distribution_time_in_sec)
                / DURATION_30DAYS_IN_SEC;
            match self.monthly_reward.checked_mul(periods as u128) {
                Some(ideal) => if ideal <= self.undistributed_reward {
                    ideal
                } else {
                    self.undistributed_reward
                },
                None => self.undistributed_reward,
            }
        } else {
            0
        }
    }

    /// Settles reward at `cur_time`: what is due moves from the reward awaiting
    /// release into the pool, and the time of the last settlement advances, also
    /// where nothing is due.
    pub fn distribute_reward(&mut self, cur_time: u32) -> (out: Result<(), VaultError>)
        ensures
            match out {
                Ok(()) => old(self)@.checkpoint(cur_time) == Ok::<VaultState, VaultError>(
                    final(self)@,
                ),
                Err(e) => old(self)@.checkpoint(cur_time) == Err::<VaultState, VaultError>(e)
                    && final(self)@ == old(self)@,
            },
            final(self).ft == old(self).ft,
            final(self).locked_token == old(self).locked_token,
    {
        let new_reward: u128 = self.try_distribute_reward(cur_time);
        let locked: u128 = match self.locked_token_amount.checked_add(new_reward) {
            Some(sum) => sum,
            None => {
                return Err(VaultError::ArithmeticOverflow);
            },
        };
        if new_reward > 0 {
            self.undistributed_reward = self.undistributed_reward - new_reward;
            self.locked_token_amount = locked;
        }
        self.prev_distribution_time_in_sec =
        if cur_time >= self.reward_genesis_time_in_sec {
            cur_time
        } else {
            self.reward_genesis_time_in_sec
        };
        Ok(())
    }

    /// Puts back what a settlement of reward changed.
    fn restore(&mut self, locked: u128, undistributed: u128, prev_time: u32)
        ensures
            final(self).ft == old(self).ft,
            final(self).locked_token == old(self).locked_token,
            final(self).reward_genesis_time_in_sec == old(self).reward_genesis_time_in_sec,
            final(self).monthly_reward == old(self).monthly_reward,
            final(self).locked_token_amount == locked,
            final(self).undistributed_reward == undistributed,
            final(self).prev_distribution_time_in_sec == prev_time,
    {
        self.locked_token_amount = locked;
        self.undistributed_reward = undistributed;
        self.prev_distribution_time_in_sec = prev_time;
    }

    /// The burn and payout of a withdrawal, once reward is settled.
    fn burn(&mut self, account_id: &String, attached_deposit: u128, amount: u128) -> (out: Result<
        PendingTransfer,
        VaultError,
    >)
        ensures
            match out {
                Ok(pending) => pending.receiver_id@ == account_id@ && pending.amount == old(
                    self,
                )@.payout_for(amount) && pending.shares == amount && old(self)@.burn(
                    account_id@,
                    attached_deposit,
                    amount,
                ) == Ok::<VaultState, VaultError>(final(self)@),
                Err(e) => old(self)@.burn(account_id@, attached_deposit, amount) == Err::<
                    VaultState,
                    VaultError,
                >(e) && final(self)@ == old(self)@,
            },
    {
        if attached_deposit != 1 {
            return Err(VaultError::OneYoctoRequired);
        }
        let supply: u128 = self.ft.total_supply();
        if supply == 0 {
            return Err(VaultError::EmptyTotalSupply);
        }
        let unlocked: u128 = match mul_div(amount, self.locked_token_amount, supply) {
            Some(payout) => payout,
            None => {
                return Err(VaultError::ArithmeticOverflow);
            },
        };
        let balance: u128 = match self.ft.balance_of(account_id) {
            Some(balance) => balance,
            None => {
                return Err(VaultError::AccountNotRegistered);
            },
        };
        if balance < amount {
            return Err(VaultError::InsufficientBalance);
        }
        if supply < amount {
            return Err(VaultError::InternalInvariantViolation);
        }
        if supply - amount < MIN_TOTAL_SUPPLY {
            return Err(VaultError::KeepMinimumShares);
        }
        proof {
            lemma_payout_within_pool(amount, self.locked_token_amount, supply);
        }
        match self.ft.withdraw(account_id, amount) {
            Ok(()) => {
                self.locked_token_amount = self.locked_token_amount - unlocked;
                Ok(PendingTransfer { receiver_id: account_id.clone(), amount: unlocked, shares: amount })
            },
            Err(e) => Err(e),
        }
    }

    /// Begins the withdrawal of `amount` shares of `account_id` at `cur_time`.
    ///
    /// Reward is settled first. The call must carry `attached_deposit` of
    /// exactly one; shares must be outstanding; the account must hold the
    /// shares; the burn must leave at least `MIN_TOTAL_SUPPLY` shares. The
    /// shares are burnt and their part of the pool, rounded down, leaves it.
    /// Returns the transfer to dispatch. A refused withdrawal changes nothing,
    /// not even the settlement of reward.
    pub fn unstake(
        &mut self,
        account_id: &String,
        attached_deposit: u128,
        amount: u128,
        cur_time: u32,
    ) -> (out: Result<PendingTransfer, VaultError>)
        ensures
            match out {
                Ok(pending) => pending.receiver_id@ == account_id@ && pending.amount == old(
                    self,
                )@.unstake_payout(amount, cur_time) && pending.shares == amount && old(
                    self,
                )@.unstake(account_id@, attached_deposit, amount, cur_time) == Ok::<
                    VaultState,
                    VaultError,
                >(final(self)@) && final(self)@.ledger.total_supply >= MIN_TOTAL_SUPPLY,
                Err(e) => old(self)@.unstake(account_id@, attached_deposit, amount, cur_time)
                    == Err::<VaultState, VaultError>(e) && final(self)@ == old(self)@,
            },
    {
        let locked: u128 = self.locked_token_amount;
        let undistributed: u128 = self.undistributed_reward;
        let prev_time: u32 = self.prev_distribution_time_in_sec;
        match self.distribute_reward(cur_time) {
            Ok(()) => {},
            Err(e) => {
                return Err(e);
            },
        }
        match self.burn(account_id, attached_deposit, amount) {
            Ok(pending) => Ok(pending),
            Err(e) => {
                self.restore(locked, undistributed, prev_time);
                Err(e)
            },
        }
    }

    /// Completes the withdrawal of `share` shares of `sender_id`, whose
    /// transfer of `amount` ended in `outcome`.
    ///
    /// `results_count` is the number of results that the completion came with;
    /// any number but one is refused. A successful transfer changes nothing. A
    /// failed one gives the shares back and returns the amount to the pool if
    /// the account is still registered, and changes nothing if it is not.
    pub fn callback_post_unstake(
        &mut self,
        sender_id: &String,
        amount: u128,
        share: u128,
        results_count: u64,
        outcome: TransferOutcome,
    ) -> (out: Result<Settlement, VaultError>)
        ensures
            match out {
                Ok(done) => done == old(self)@.settlement(sender_id@, outcome) && old(
                    self,
                )@.settle(sender_id@, amount, share, results_count, outcome) == Ok::<
                    VaultState,
                    VaultError,
                >(final(self)@) && (done != Settlement::RolledBack ==> final(self)@ == old(self)@),
                Err(e) => old(self)@.settle(sender_id@, amount, share, results_count, outcome)
                    == Err::<VaultState, VaultError>(e) && final(self)@ == old(self)@,
            },
    {
        if results_count != 1 {
            return Err(VaultError::InternalInvariantViolation);
        }
        match outcome {
            TransferOutcome::Successful => Ok(Settlement::Finalized),
            TransferOutcome::Failed => {
                if self.ft.contains(sender_id) {
                    let locked: u128 = match self.locked_token_amount.checked_add(amount) {
                        Some(sum) => sum,
                        None => {
                            return Err(VaultError::ArithmeticOverflow);
                        },
                    };
                    match self.ft.deposit(sender_id, share) {
                        Ok(()) => {
                            self.locked_token_amount = locked;
                            Ok(Settlement::RolledBack)
                        },
                        Err(e) => Err(e),
                    }
                } else {
                    Ok(Settlement::Forfeited)
                }
            },
        }
    }

    /// Receives `amount` of the asset `token_in` from `sender_id` at
    /// `cur_time`.
    ///
    /// Reward is settled first. An asset other than the locked one is refused.
    /// With an empty `msg` the amount is a deposit of the sender, else it funds
    /// reward. Returns the part of the amount that was not used, which is
    /// always nothing. A refused transfer changes nothing.
    pub fn ft_on_transfer(
        &mut self,
        token_in: &String,
        sender_id: &String,
        amount: u128,
        msg: &String,
        cur_time: u32,
    ) -> (out: Result<u128, VaultError>)
        ensures
            match out {
                Ok(unused) => unused == 0 && old(self)@.on_transfer(
                    token_in@,
                    sender_id@,
                    amount,
                    msg@,
                    cur_time,
                ) == Ok::<VaultState, VaultError>(final(self)@),
                Err(e) => old(self)@.on_transfer(token_in@, sender_id@, amount, msg@, cur_time)
                    == Err::<VaultState, VaultError>(e) && final(self)@ == old(self)@,
            },
    {
        let locked: u128 = self.locked_token_amount;
        let undistributed: u128 = self.undistributed_reward;
        let prev_time: u32 = self.prev_distribution_time_in_sec;
        match self.distribute_reward(cur_time) {
            Ok(()) => {},
            Err(e) => {
                return Err(e);
            },
        }
        if *token_in != self.locked_token {
            self.restore(locked, undistributed, prev_time);
            return Err(VaultError::MismatchedAsset);
        }
        let routed: Result<(), VaultError> = if msg.as_str().is_empty() {
            match self.internal_stake(sender_id, amount) {
                Ok(_) => Ok(()),
                Err(e) => Err(e),
            }
        } else {
            self.internal_add_reward(sender_id, amount)
        };
        match routed {
            Ok(()) => Ok(0),
            Err(e) => {
                self.restore(locked, undistributed, prev_time);
                Err(e)
            },
        }
    }
}

} // verus!
