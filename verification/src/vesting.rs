//! The vesting schedule: pure arithmetic that says how much of a locked
//! deposit has matured by a given query time.

use vstd::prelude::*;
use vstd::arithmetic::div_mod::{
    lemma_div_by_self, lemma_div_is_ordered, lemma_div_is_ordered_by_denominator,
    lemma_div_multiples_vanish, lemma_div_of0, lemma_div_pos_is_pos,
    lemma_fundamental_div_mod, lemma_mod_bound,
};

verus! {

/// Length of one vesting period, in milliseconds.
pub const DAY: u64 = 1000 * 60 * 60 * 24;

/// One account's vesting deposit: the amount locked, when the lock began,
/// and the time through which matured value has already been paid out
/// (`None` until the first claim).
#[derive(Debug, Clone, Copy, PartialEq, Eq)]
pub struct Lock {
    /// Total quantity originally deposited.
    pub locked_amt: u128,
    /// Timestamp, in milliseconds, at which the lock began.
    pub locked_on: u64,
    /// Timestamp of the most recent successful claim, `None` before any claim.
    /// The amount already paid out is re-derived by evaluating the schedule
    /// at this time, not tracked as a running counter.
    pub last_claimed: Option<u64>,
}

/// The tranche that matures as soon as the lock is queried: half the deposit,
/// rounded down.
pub open spec fn initial_claim(amt: nat) -> nat {
    amt / 2
}

/// What is left to trickle out daily after the initial tranche.
pub open spec fn initial_tokens(amt: nat) -> nat {
    (amt - amt / 2) as nat
}

/// The size of one daily tranche: a tenth of the deposit, rounded down.
pub open spec fn daily_unlock(amt: nat) -> nat {
    amt / 10
}

/// Runs the daily schedule for `n` more day boundaries: `tokens` is the
/// balance still locked beyond the tranches counted in `claim` so far, and
/// `daily` the tranche size. Each boundary moves one tranche from `tokens`
/// to `claim`; when less than a full tranche would remain, the leftover is
/// folded into the claim at once.
pub open spec fn vest_iter(tokens: nat, claim: nat, daily: nat, n: nat) -> nat
    decreases n,
{
    if n == 0 || tokens == 0 {
        claim
    } else if tokens < 2 * daily {
        claim + tokens
    } else {
        vest_iter((tokens - daily) as nat, claim + daily, daily, (n - 1) as nat)
    }
}

/// Cumulative matured value of a deposit of `amt` once `n` day boundaries
/// have passed.
pub open spec fn claimable_after(amt: nat, n: nat) -> nat {
    vest_iter(initial_tokens(amt), initial_claim(amt), daily_unlock(amt), n)
}

/// How many day boundaries of a lock started at `locked_on` have passed by
/// `time`: the boundaries are `locked_on + DAY`, `locked_on + 2 * DAY`, and
/// so on.
pub open spec fn periods_elapsed(locked_on: nat, time: nat) -> nat {
    if locked_on <= time {
        ((time - locked_on) as nat) / (DAY as nat)
    } else {
        0
    }
}

/// Arithmetic facts about how a deposit splits into the initial tranche,
/// the trickling remainder, and the daily tranche size.
proof fn lemma_tranche_bounds(amt: nat)
    ensures
        initial_claim(amt) + initial_tokens(amt) == amt,
        daily_unlock(amt) <= initial_tokens(amt),
        10 <= amt ==> 1 <= daily_unlock(amt),
        10 <= amt ==> initial_tokens(amt) <= 11 * daily_unlock(amt),
{
    let a = amt as int;
    lemma_fundamental_div_mod(a, 2);
    lemma_mod_bound(a, 2);
    lemma_fundamental_div_mod(a, 10);
    lemma_mod_bound(a, 10);
    lemma_div_pos_is_pos(a, 2);
    lemma_div_pos_is_pos(a, 10);
    lemma_div_is_ordered_by_denominator(a, 2, 10);
    if 10 <= amt {
        lemma_div_is_ordered(10, a, 10);
        lemma_div_by_self(10);
    }
}

/// The claim never falls below the tranches already counted and never
/// exceeds them plus what is still trickling out.
proof fn lemma_vest_iter_bounds(tokens: nat, claim: nat, daily: nat, n: nat)
    ensures
        claim <= vest_iter(tokens, claim, daily, n) <= claim + tokens,
    decreases n,
{
    if n == 0 || tokens == 0 || tokens < 2 * daily {
    } else {
        lemma_vest_iter_bounds((tokens - daily) as nat, claim + daily, daily, (n - 1) as nat);
    }
}

/// Letting more day boundaries pass never shrinks the claim.
proof fn lemma_vest_iter_mono(tokens: nat, claim: nat, daily: nat, n1: nat, n2: nat)
    requires
        n1 <= n2,
    ensures
        vest_iter(tokens, claim, daily, n1) <= vest_iter(tokens, claim, daily, n2),
    decreases n2,
{
    if n1 == 0 {
        lemma_vest_iter_bounds(tokens, claim, daily, n2);
    } else if tokens == 0 || tokens < 2 * daily {
    } else {
        lemma_vest_iter_mono(
            (tokens - daily) as nat,
            claim + daily,
            daily,
            (n1 - 1) as nat,
            (n2 - 1) as nat,
        );
    }
}

/// Once enough day boundaries have passed to cover the whole trickling
/// balance, the claim is exactly everything.
proof fn lemma_vest_iter_complete(tokens: nat, claim: nat, daily: nat, n: nat)
    requires
        1 <= daily,
        tokens <= n * daily,
    ensures
        vest_iter(tokens, claim, daily, n) == claim + tokens,
    decreases n,
{
    if n == 0 {
        assert(n * daily == 0) by (nonlinear_arith)
            requires n == 0;
    } else if tokens == 0 || tokens < 2 * daily {
    } else {
        assert(((n - 1) as nat) * daily == n * daily - daily) by (nonlinear_arith)
            requires 1 <= n;
        lemma_vest_iter_complete((tokens - daily) as nat, claim + daily, daily, (n - 1) as nat);
    }
}

/// Law: the matured value never exceeds the deposit, whatever the query
/// time.
pub proof fn lemma_claimable_le_amt(lock: Lock, time: Option<u64>)
    ensures
        lock.claimable(time) <= lock.locked_amt,
{
    match time {
        None => {},
        Some(t) => {
            let amt = lock.locked_amt as nat;
            lemma_tranche_bounds(amt);
            lemma_vest_iter_bounds(
                initial_tokens(amt),
                initial_claim(amt),
                daily_unlock(amt),
                periods_elapsed(lock.locked_on as nat, t as nat),
            );
        },
    }
}

/// Law: queried at the very moment the lock began, a positive deposit has
/// already matured at least half its value.
pub proof fn lemma_day_one_tranche(lock: Lock)
    requires
        0 < lock.locked_amt,
    ensures
        lock.claimable(Some(lock.locked_on)) >= lock.locked_amt / 2,
{
    let amt = lock.locked_amt as nat;
    let lo = lock.locked_on as nat;
    lemma_div_of0(DAY as int);
    assert(periods_elapsed(lo, lo) == 0);
    assert(lock.claimable(Some(lock.locked_on)) == initial_claim(amt));
}

/// Law: the matured value is monotonically non-decreasing in the query
/// time.
pub proof fn lemma_claimable_monotonic(lock: Lock, t1: u64, t2: u64)
    requires
        t1 <= t2,
    ensures
        lock.claimable(Some(t1)) <= lock.claimable(Some(t2)),
{
    let amt = lock.locked_amt as nat;
    let lo = lock.locked_on as nat;
    if lo <= t1 {
        lemma_div_is_ordered((t1 as nat - lo) as int, (t2 as nat - lo) as int, DAY as int);
    }
    lemma_vest_iter_mono(
        initial_tokens(amt),
        initial_claim(amt),
        daily_unlock(amt),
        periods_elapsed(lo, t1 as nat),
        periods_elapsed(lo, t2 as nat),
    );
}

/// Law: a deposit of at least ten units has matured in full once eleven day
/// boundaries have passed, and stays in full from then on. (A deposit below
/// ten has a zero daily tranche, so only its initial half ever matures.)
pub proof fn lemma_full_maturity(amt: nat, locked_on: nat, time: nat)
    requires
        10 <= amt,
        locked_on + 11 * DAY <= time,
    ensures
        claimable_after(amt, periods_elapsed(locked_on, time)) == amt,
{
    lemma_tranche_bounds(amt);
    let n = periods_elapsed(locked_on, time);
    lemma_div_is_ordered(11 * (DAY as int), (time - locked_on) as int, DAY as int);
    lemma_div_multiples_vanish(11, DAY as int);
    assert(11 <= n);
    assert(11 * daily_unlock(amt) <= n * daily_unlock(amt)) by (nonlinear_arith)
        requires 11 <= n;
    lemma_vest_iter_complete(initial_tokens(amt), initial_claim(amt), daily_unlock(amt), n);
}

/// Law: the same full-maturity statement on a lock record: eleven days after
/// `locked_on`, a deposit of at least ten units is claimable in full.
pub proof fn lemma_full_maturity_lock(lock: Lock, time: u64)
    requires
        10 <= lock.locked_amt,
        lock.locked_on + 11 * DAY <= time,
    ensures
        lock.claimable(Some(time)) == lock.locked_amt,
{
    lemma_full_maturity(lock.locked_amt as nat, lock.locked_on as nat, time as nat);
}

impl Lock {
    /// Matured (claimable-to-date) value of this lock at the given query
    /// time. An absent time stands for "no claims yet" and yields zero; any
    /// present time, even one before `locked_on`, already counts the initial
    /// half tranche.
    pub open spec fn claimable(self, time: Option<u64>) -> nat {
        match time {
            None => 0,
            Some(t) => claimable_after(
                self.locked_amt as nat,
                periods_elapsed(self.locked_on as nat, t as nat),
            ),
        }
    }

    /// Calculates the unlocked amount at a given time.
    pub fn claimable_value(&self, time: Option<u64>) -> (claim: u128)
        ensures
            claim == self.claimable(time),
            claim <= self.locked_amt,
    {
        match time {
            None => 0,
            Some(time) => {
                let amt = self.locked_amt;
                let mut claim: u128 = amt / 2;
                let daily: u128 = amt / 10;
                proof {
                    lemma_tranche_bounds(amt as nat);
                }
                let mut tokens: u128 = amt - claim;
                let n: u64 = if self.locked_on <= time {
                    (time - self.locked_on) / DAY
                } else {
                    0
                };
                let mut i: u64 = 0;
                while i < n && tokens > 0
                    invariant
                        i <= n,
                        claim + tokens == amt,
                        daily as nat == daily_unlock(amt as nat),
                        tokens == 0 || daily <= tokens,
                        vest_iter(tokens as nat, claim as nat, daily as nat, (n - i) as nat)
                            == claimable_after(amt as nat, n as nat),
                    decreases n - i,
                {
                    tokens = tokens - daily;
                    claim = claim + daily;
                    if tokens < daily {
                        // Folds in the tokens that integer division would
                        // otherwise leave behind.
                        claim = claim + tokens;
                        tokens = 0;
                    }
                    i = i + 1;
                }
                claim
            },
        }
    }

    /// Returns the total amount locked by the given user.
    pub fn locked_amt(&self) -> (amt: u128)
        ensures
            amt == self.locked_amt,
    {
        self.locked_amt
    }
}

} // verus!
