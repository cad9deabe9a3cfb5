//! What holds of the vault over all states and all histories.

use crate::error::VaultError;
use crate::state::TransferOutcome;
use crate::state::VaultState;
use crate::state::DURATION_30DAYS_IN_SEC;
use crate::state::MIN_TOTAL_SUPPLY;
use vstd::arithmetic::div_mod::lemma_div_multiples_vanish;
use vstd::arithmetic::div_mod::lemma_fundamental_div_mod;
use vstd::arithmetic::div_mod::lemma_mod_bound;
use vstd::prelude::*;

verus! {

/// One operation on a vault.
pub enum Step {
    /// A deposit of `amount` by `account`.
    Stake { account: Seq<char>, amount: u128 },
    /// Funding of reward with `amount`.
    AddReward { amount: u128 },
    /// A settlement of reward at `now`.
    Distribute { now: u32 },
    /// A withdrawal of `shares` by `account` at `now`.
    Unstake { account: Seq<char>, shares: u128, now: u32 },
}

/// The vault after `step`; a refused step leaves it as it was.
pub open spec fn apply(s: VaultState, step: Step) -> VaultState {
    let next = match step {
        Step::Stake { account, amount } => s.stake(account, amount),
        Step::AddReward { amount } => s.add_reward(amount),
        Step::Distribute { now } => s.checkpoint(now),
        Step::Unstake { account, shares, now } => s.unstake(account, 1, shares, now),
    };
    match next {
        Ok(t) => t,
        Err(_) => s,
    }
}

/// The vault after `steps`, taken in order.
pub open spec fn run(s: VaultState, steps: Seq<Step>) -> VaultState
    decreases steps.len(),
{
    if steps.len() == 0 {
        s
    } else {
        apply(run(s, steps.drop_last()), steps.last())
    }
}

/// A quotient rounded down, times the divisor, falls short of the dividend by
/// less than the divisor.
proof fn lemma_floor_product(x: int, d: int)
    requires
        d > 0,
    ensures
        (x / d) * d <= x < (x / d) * d + d,
{
    lemma_fundamental_div_mod(x, d);
    lemma_mod_bound(x, d);
    assert(d * (x / d) == (x / d) * d) by (nonlinear_arith);
}

/// The comparison of rates carries over a state with shares outstanding.
proof fn lemma_rate_le_transitive(a: VaultState, b: VaultState, c: VaultState)
    requires
        a.rate_le(b),
        b.rate_le(c),
        b.ledger.total_supply > 0,
    ensures
        a.rate_le(c),
{
    let la = a.locked_amount as int;
    let lb = b.locked_amount as int;
    let lc = c.locked_amount as int;
    let ta = a.ledger.total_supply as int;
    let tb = b.ledger.total_supply as int;
    let tc = c.ledger.total_supply as int;
    assert(tb * (la * tc) <= tb * (lc * ta)) by (nonlinear_arith)
        requires
            la * tb <= lb * ta,
            lb * tc <= lc * tb,
            ta >= 0,
            tc >= 0,
    {
        assert((la * tb) * tc <= (lb * ta) * tc);
        assert((lb * tc) * ta <= (lc * tb) * ta);
    }
    assert(la * tc <= lc * ta) by (nonlinear_arith)
        requires
            tb * (la * tc) <= tb * (lc * ta),
            tb > 0,
    ;
}

/// A settlement of reward mints and burns nothing, moves into the pool exactly
/// what it takes from the reward awaiting release, and so never lowers what a
/// share is worth.
pub proof fn lemma_checkpoint_raises_rate(s: VaultState, now: u32)
    requires
        s.checkpoint(now) is Ok,
    ensures
        ({
            let t = s.checkpoint(now)->Ok_0;
            &&& t.ledger == s.ledger
            &&& t.locked_amount >= s.locked_amount
            &&& t.locked_amount + t.undistributed_reward == s.locked_amount
                + s.undistributed_reward
            &&& s.rate_le(t)
        }),
{
    let t = s.checkpoint(now)->Ok_0;
    assert(s.locked_amount * s.ledger.total_supply <= t.locked_amount * s.ledger.total_supply)
        by (nonlinear_arith)
        requires
            s.locked_amount <= t.locked_amount,
    ;
}

/// A deposit into a vault with shares outstanding never lowers what a share is
/// worth: the shares minted are rounded down.
pub proof fn lemma_stake_raises_rate(s: VaultState, account: Seq<char>, amount: u128)
    requires
        s.ledger.total_supply > 0,
        s.stake(account, amount) is Ok,
    ensures
        s.rate_le(s.stake(account, amount)->Ok_0),
        s.stake(account, amount)->Ok_0.ledger.total_supply > s.ledger.total_supply,
{
    let t = s.stake(account, amount)->Ok_0;
    let supply = s.ledger.total_supply as int;
    let locked = s.locked_amount as int;
    let minted = s.shares_for(amount);
    lemma_floor_product(amount * supply, locked);
    assert(locked * (supply + minted) <= (locked + amount) * supply) by (nonlinear_arith)
        requires
            minted * locked <= amount * supply,
    ;
}

/// The burn of a withdrawal never lowers what a share is worth: the payout is
/// rounded down. It leaves at least the floor of shares outstanding.
pub proof fn lemma_burn_raises_rate(
    s: VaultState,
    account: Seq<char>,
    attached_deposit: u128,
    shares: u128,
)
    requires
        s.burn(account, attached_deposit, shares) is Ok,
    ensures
        s.rate_le(s.burn(account, attached_deposit, shares)->Ok_0),
        s.burn(account, attached_deposit, shares)->Ok_0.ledger.total_supply >= MIN_TOTAL_SUPPLY,
        s.payout_for(shares) <= s.locked_amount,
{
    let t = s.burn(account, attached_deposit, shares)->Ok_0;
    let supply = s.ledger.total_supply as int;
    let locked = s.locked_amount as int;
    let payout = s.payout_for(shares);
    lemma_floor_product(shares * locked, supply);
    assert(payout <= locked) by (nonlinear_arith)
        requires
            payout * supply <= shares * locked,
            shares <= supply,
            supply > 0,
            locked >= 0,
    ;
    assert(locked * (supply - shares) <= (locked - payout) * supply) by (nonlinear_arith)
        requires
            payout * supply <= shares * locked,
    ;
}

/// No single operation on a vault with shares outstanding lowers what a share
/// is worth, and none leaves it without shares.
pub proof fn lemma_step_raises_rate(s: VaultState, step: Step)
    requires
        s.ledger.total_supply > 0,
    ensures
        s.rate_le(apply(s, step)),
        apply(s, step).ledger.total_supply > 0,
{
    match step {
        Step::Stake { account, amount } => {
            if s.stake(account, amount) is Ok {
                lemma_stake_raises_rate(s, account, amount);
            }
        },
        Step::AddReward { amount } => {},
        Step::Distribute { now } => {
            if s.checkpoint(now) is Ok {
                lemma_checkpoint_raises_rate(s, now);
            }
        },
        Step::Unstake { account, shares, now } => {
            if s.unstake(account, 1, shares, now) is Ok {
                let settled = s.checkpoint(now)->Ok_0;
                lemma_checkpoint_raises_rate(s, now);
                lemma_burn_raises_rate(settled, account, 1, shares);
                lemma_rate_le_transitive(s, settled, settled.burn(account, 1, shares)->Ok_0);
            }
        },
    }
}

/// Over any history of deposits, funding, settlements of reward and
/// withdrawals, begun with shares outstanding, what a share is worth never
/// falls.
pub proof fn lemma_rate_never_falls(s: VaultState, steps: Seq<Step>)
    requires
        s.ledger.total_supply > 0,
    ensures
        s.rate_le(run(s, steps)),
        run(s, steps).ledger.total_supply > 0,
    decreases steps.len(),
{
    if steps.len() > 0 {
        let before = run(s, steps.drop_last());
        lemma_rate_never_falls(s, steps.drop_last());
        lemma_step_raises_rate(before, steps.last());
        lemma_rate_le_transitive(s, before, apply(before, steps.last()));
    }
}

/// No single operation takes the pool from under the shares outstanding.
pub proof fn lemma_step_keeps_shares_backed(s: VaultState, step: Step)
    requires
        s.backed(),
    ensures
        apply(s, step).backed(),
{
    match step {
        Step::Unstake { account, shares, now } => {
            if s.unstake(account, 1, shares, now) is Ok {
                let settled = s.checkpoint(now)->Ok_0;
                let supply = settled.ledger.total_supply as int;
                let locked = settled.locked_amount as int;
                let payout = settled.payout_for(shares);
                lemma_floor_product(shares * locked, supply);
                assert(payout < locked) by (nonlinear_arith)
                    requires
                        payout * supply <= shares * locked,
                        0 <= shares < supply,
                        locked > 0,
                ;
            }
        },
        _ => {},
    }
}

/// Over any history that begins with a pool behind its shares, as every new
/// vault does, shares outstanding always have a pool behind them: no deposit
/// is ever refused for shares over an empty pool.
pub proof fn lemma_shares_stay_backed(s: VaultState, steps: Seq<Step>)
    requires
        s.backed(),
    ensures
        run(s, steps).backed(),
        forall|account: Seq<char>, amount: u128| #[trigger]
            run(s, steps).stake(account, amount) != Err::<VaultState, VaultError>(
                VaultError::InternalInvariantViolation,
            ),
    decreases steps.len(),
{
    if steps.len() > 0 {
        lemma_shares_stay_backed(s, steps.drop_last());
        lemma_step_keeps_shares_backed(run(s, steps.drop_last()), steps.last());
    }
}

/// A deposit into a vault in which a share is worth exactly one unit (an empty
/// vault among them) mints as many shares as was deposited, and these shares
/// redeem the deposit exactly.
pub proof fn lemma_round_trip_payout(s: VaultState, account: Seq<char>, amount: u128)
    requires
        s.locked_amount == s.ledger.total_supply,
        s.stake(account, amount) is Ok,
    ensures
        s.shares_for(amount) == amount,
        s.stake(account, amount)->Ok_0.payout_for(amount) == amount,
{
    let supply = s.ledger.total_supply as int;
    if supply > 0 {
        assert(amount * supply == supply * amount) by (nonlinear_arith);
        lemma_div_multiples_vanish(amount as int, supply);
    }
    let after = supply + amount;
    assert(amount * after == after * amount) by (nonlinear_arith);
    lemma_div_multiples_vanish(amount as int, after);
}

/// A deposit at a rate of one, followed at once by the withdrawal of the shares
/// it minted, pays out the deposit exactly and leaves the vault as it was
/// before the deposit.
pub proof fn lemma_round_trip(s: VaultState, account: Seq<char>, amount: u128)
    requires
        s.locked_amount == s.ledger.total_supply,
        s.stake(account, amount) is Ok,
        s.stake(account, amount)->Ok_0.burn(account, 1, amount) is Ok,
    ensures
        s.stake(account, amount)->Ok_0.burn(account, 1, amount)->Ok_0 == s,
{
    lemma_round_trip_payout(s, account, amount);
    let t = s.stake(account, amount)->Ok_0;
    let u = t.burn(account, 1, amount)->Ok_0;
    assert(u.ledger.balances =~= s.ledger.balances);
    assert(u =~= s);
}

/// The same through a withdrawal at `now`, when no reward is due at `now`: the
/// payout is the deposit, and pool and ledger are as before the deposit.
pub proof fn lemma_round_trip_unstake(s: VaultState, account: Seq<char>, amount: u128, now: u32)
    requires
        s.locked_amount == s.ledger.total_supply,
        s.stake(account, amount) is Ok,
        s.releasable(now) == 0,
        s.stake(account, amount)->Ok_0.unstake(account, 1, amount, now) is Ok,
    ensures
        s.stake(account, amount)->Ok_0.unstake_payout(amount, now) == amount,
        ({
            let u = s.stake(account, amount)->Ok_0.unstake(account, 1, amount, now)->Ok_0;
            &&& u.ledger == s.ledger
            &&& u.locked_amount == s.locked_amount
            &&& u.undistributed_reward == s.undistributed_reward
        }),
{
    lemma_round_trip_payout(s, account, amount);
    let t = s.stake(account, amount)->Ok_0;
    let settled = t.checkpoint(now)->Ok_0;
    assert(settled.locked_amount == t.locked_amount);
    let u = settled.burn(account, 1, amount)->Ok_0;
    assert(u.ledger.balances =~= s.ledger.balances);
}

/// A deposit that is accepted mints at least one share to the depositor; one
/// that would mint none is refused as too small.
pub proof fn lemma_no_free_shares(s: VaultState, account: Seq<char>, amount: u128)
    ensures
        s.stake(account, amount) matches Ok(t) ==> {
            &&& s.shares_for(amount) > 0
            &&& t.ledger.total_supply == s.ledger.total_supply + s.shares_for(amount)
            &&& t.ledger.balances[account] == s.ledger.balances[account] + s.shares_for(amount)
            &&& t.locked_amount == s.locked_amount + amount
        },
        s.ledger.contains(account) && (s.ledger.total_supply == 0 || s.locked_amount > 0)
            && s.shares_for(amount) == 0 ==> s.stake(account, amount) == Err::<
            VaultState,
            VaultError,
        >(VaultError::StakeTooSmall),
{
}

/// The reward due never exceeds what awaits release nor, from the last
/// settlement on, the period reward for each whole period elapsed.
pub proof fn lemma_release_bound(s: VaultState, now: u32)
    ensures
        s.releasable(now) <= s.undistributed_reward,
        now >= s.prev_distribution_time ==> s.releasable(now) <= s.period_reward
            * s.elapsed_periods(now),
{
    if now >= s.prev_distribution_time {
        let periods = s.elapsed_periods(now);
        assert(periods >= 0);
        assert(s.period_reward * periods >= 0) by (nonlinear_arith)
            requires
                s.period_reward >= 0,
                periods >= 0,
        ;
    }
}

/// A settlement less than one period after the last one releases nothing, and
/// still moves the time of the last settlement to `now`, or to the start of
/// the release while `now` lies before it.
pub proof fn lemma_checkpoint_within_period(s: VaultState, now: u32)
    requires
        now < s.prev_distribution_time + DURATION_30DAYS_IN_SEC,
    ensures
        s.releasable(now) == 0,
        s.checkpoint(now) == Ok::<VaultState, VaultError>(
            VaultState {
                prev_distribution_time: if now >= s.reward_genesis_time {
                    now
                } else {
                    s.reward_genesis_time
                },
                ..s
            },
        ),
{
    if now > s.prev_distribution_time {
        assert(s.elapsed_periods(now) == 0);
        assert(s.period_reward * 0 == 0) by (nonlinear_arith);
    }
}

/// Two settlements in a row, the second less than one period after the first:
/// the second releases nothing and leaves pool and reward as the first made
/// them.
pub proof fn lemma_repeated_checkpoint(s: VaultState, first: u32, second: u32)
    requires
        s.checkpoint(first) is Ok,
        first <= second < first + DURATION_30DAYS_IN_SEC,
    ensures
        ({
            let a = s.checkpoint(first)->Ok_0;
            &&& a.releasable(second) == 0
            &&& a.checkpoint(second) is Ok
            &&& a.checkpoint(second)->Ok_0.locked_amount == a.locked_amount
            &&& a.checkpoint(second)->Ok_0.undistributed_reward == a.undistributed_reward
            &&& second >= s.reward_genesis_time ==> a.checkpoint(second)->Ok_0.prev_distribution_time
                == second
        }),
{
    let a = s.checkpoint(first)->Ok_0;
    lemma_checkpoint_within_period(a, second);
}

/// A withdrawal whose transfer fails is undone exactly while the account is
/// registered: the vault is again as the settlement of reward, with which the
/// withdrawal began, had left it. Balances and supply are those from before
/// the withdrawal, and the pool is that from before plus the reward released.
pub proof fn lemma_compensation_exact(s: VaultState, account: Seq<char>, shares: u128, now: u32)
    requires
        s.unstake(account, 1, shares, now) is Ok,
    ensures
        ({
            let t = s.unstake(account, 1, shares, now)->Ok_0;
            let payout = s.unstake_payout(shares, now) as u128;
            let undone = t.settle(account, payout, shares, 1, TransferOutcome::Failed);
            &&& undone == s.checkpoint(now)
            &&& undone is Ok
            &&& undone->Ok_0.ledger == s.ledger
            &&& undone->Ok_0.locked_amount == s.locked_amount + s.releasable(now)
        }),
{
    let settled = s.checkpoint(now)->Ok_0;
    let t = settled.burn(account, 1, shares)->Ok_0;
    lemma_burn_raises_rate(settled, account, 1, shares);
    let payout = settled.payout_for(shares) as u128;
    let undone = t.settle(account, payout, shares, 1, TransferOutcome::Failed);
    assert(t.ledger.contains(account));
    assert(undone is Ok);
    assert(undone->Ok_0.ledger.balances =~= settled.ledger.balances);
    assert(undone->Ok_0 =~= settled);
}

/// A failed transfer to an account that is no longer registered, and a
/// successful transfer, change nothing.
pub proof fn lemma_settle_without_compensation(
    s: VaultState,
    account: Seq<char>,
    amount: u128,
    shares: u128,
    outcome: TransferOutcome,
)
    requires
        outcome == TransferOutcome::Successful || !s.ledger.contains(account),
    ensures
        s.settle(account, amount, shares, 1, outcome) == Ok::<VaultState, VaultError>(s),
{
}

/// A withdrawal never leaves fewer shares outstanding than the floor: one that
/// would is refused, whatever else holds of it, once the burn itself is in
/// order.
pub proof fn lemma_floor_enforced(
    s: VaultState,
    account: Seq<char>,
    attached_deposit: u128,
    shares: u128,
    now: u32,
)
    ensures
        s.unstake(account, attached_deposit, shares, now) matches Ok(t) ==> t.ledger.total_supply
            >= MIN_TOTAL_SUPPLY,
        ({
            &&& s.checkpoint(now) matches Ok(settled)
            &&& attached_deposit == 1
            &&& settled.payout_for(shares) <= u128::MAX
            &&& settled.ledger.withdraw(account, shares) matches Ok(ledger)
            &&& 0 < settled.ledger.total_supply
            &&& ledger.total_supply < MIN_TOTAL_SUPPLY
        }) ==> s.unstake(account, attached_deposit, shares, now) == Err::<VaultState, VaultError>(
            VaultError::KeepMinimumShares,
        ),
{
}

} // verus!
