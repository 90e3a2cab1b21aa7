//! The per-account lock registry and the lock/claim lifecycle.

use vstd::prelude::*;
use std::collections::HashMap;
use crate::vesting::{lemma_claimable_le_amt, lemma_claimable_monotonic, Lock};

verus! {

broadcast use vstd::std_specs::hash::group_hash_axioms;

/// Why a lock cannot be created.
#[derive(Debug, Clone, Copy, PartialEq, Eq)]
pub enum LockError {
    /// A zero-value deposit was offered.
    InvalidAmount,
    /// The caller's previous lock still has unmatured balance.
    LockStillActive,
    /// Matured value from the caller's previous lock has not been claimed.
    UnclaimedBalance,
}

/// Per-account lock registry: at most one lock per account identity. Records
/// are never deleted; a fully drained record behaves like absence for the
/// purpose of creating a new lock.
pub struct Staking {
    stakes: HashMap<u64, Lock>,
}

impl View for Staking {
    type V = Map<u64, Lock>;

    closed spec fn view(&self) -> Map<u64, Lock> {
        self.stakes@
    }
}

impl Staking {
    pub fn new() -> (s: Staking)
        ensures
            s@ == Map::<u64, Lock>::empty(),
    {
        Staking { stakes: HashMap::new() }
    }

    /// The lock stored for `caller`, if any.
    pub open spec fn spec_lock(self, caller: u64) -> Option<Lock> {
        if self@.contains_key(caller) {
            Some(self@[caller])
        } else {
            None
        }
    }

    /// Clock consistency for `caller`: a stored claim timestamp never lies
    /// in the future of `now`. The host clock is monotonic, so every value
    /// it hands to an operation satisfies this.
    pub open spec fn time_consistent(self, caller: u64, now: u64) -> bool {
        self@.contains_key(caller) ==> match self@[caller].last_claimed {
            Some(lc) => lc <= now,
            None => true,
        }
    }

    /// The still-illiquid remainder of `caller`'s deposit at `now`.
    pub open spec fn spec_locked_amt(self, caller: u64, now: u64) -> int {
        match self.spec_lock(caller) {
            None => 0,
            Some(lock) => lock.locked_amt - lock.claimable(Some(now)),
        }
    }

    /// What has already been settled: the value matured as of the last
    /// claim.
    pub open spec fn spec_claimed_amt(self, caller: u64) -> int {
        match self.spec_lock(caller) {
            None => 0,
            Some(lock) => lock.claimable(lock.last_claimed) as int,
        }
    }

    /// Matured but not yet paid out value at `now`.
    pub open spec fn spec_pending_amt(self, caller: u64, now: u64) -> int {
        match self.spec_lock(caller) {
            None => 0,
            Some(lock) => lock.claimable(Some(now)) - lock.claimable(lock.last_claimed),
        }
    }

    /// Reads lock state of the invoker.
    pub fn get_lock_details(&self, caller: u64) -> (lock: Option<Lock>)
        ensures
            lock == self.spec_lock(caller),
    {
        match self.stakes.get(&caller) {
            Some(lock) => Some(*lock),
            None => None,
        }
    }

    /// Returns the amount of tokens still locked.
    pub fn get_locked_amt(&self, caller: u64, now: u64) -> (amt: u128)
        ensures
            amt == self.spec_locked_amt(caller, now),
    {
        let lock = self.get_lock_details(caller);
        match lock {
            None => 0,
            Some(lock) => {
                proof {
                    lemma_claimable_le_amt(lock, Some(now));
                }
                lock.locked_amt() - lock.claimable_value(Some(now))
            },
        }
    }

    /// Returns the amount already claimed by the user so far.
    pub fn get_claimed_amt(&self, caller: u64) -> (amt: u128)
        ensures
            amt == self.spec_claimed_amt(caller),
    {
        let lock = self.get_lock_details(caller);
        match lock {
            None => 0,
            Some(lock) => lock.claimable_value(lock.last_claimed),
        }
    }

    /// Returns the amount of tokens that the invoker can claim at `now`.
    pub fn get_pending_amt(&self, caller: u64, now: u64) -> (amt: u128)
        requires
            self.time_consistent(caller, now),
        ensures
            amt == self.spec_pending_amt(caller, now),
    {
        let lock = self.get_lock_details(caller);
        match lock {
            None => 0,
            Some(lock) => {
                proof {
                    if let Some(lc) = lock.last_claimed {
                        lemma_claimable_monotonic(lock, lc, now);
                    }
                }
                lock.claimable_value(Some(now)) - lock.claimable_value(lock.last_claimed)
            },
        }
    }

    /// The user can deposit `amount` for staking, but only when no previous
    /// stake order is active or awaiting a claim. On success the stored
    /// record is overwritten with a fresh lock started at `now`.
    pub fn lock_tokens(&mut self, caller: u64, now: u64, amount: u128) -> (r: Result<
        (),
        LockError,
    >)
        requires
            old(self).time_consistent(caller, now),
        ensures
            amount == 0 ==> r == Err::<(), LockError>(LockError::InvalidAmount),
            amount != 0 && old(self).spec_locked_amt(caller, now) != 0 ==> r == Err::<
                (),
                LockError,
            >(LockError::LockStillActive),
            amount != 0 && old(self).spec_locked_amt(caller, now) == 0 && old(
                self,
            ).spec_pending_amt(caller, now) != 0 ==> r == Err::<(), LockError>(
                LockError::UnclaimedBalance,
            ),
            r is Ok <==> amount != 0 && old(self).spec_locked_amt(caller, now) == 0 && old(
                self,
            ).spec_pending_amt(caller, now) == 0,
            r is Ok ==> final(self)@ == old(self)@.insert(
                caller,
                Lock { locked_amt: amount, locked_on: now, last_claimed: None },
            ),
            r is Err ==> final(self)@ == old(self)@,
    {
        if amount == 0 {
            return Err(LockError::InvalidAmount);
        }
        if self.get_locked_amt(caller, now) != 0 {
            return Err(LockError::LockStillActive);
        }
        if self.get_pending_amt(caller, now) != 0 {
            return Err(LockError::UnclaimedBalance);
        }
        let lock = Lock { locked_amt: amount, locked_on: now, last_claimed: None };
        self.stakes.insert(caller, lock);
        Ok(())
    }

    /// The user can claim their pending tokens which have been unlocked.
    /// Returns the amount that must now be transferred to the caller; when
    /// nothing is pending, nothing is stored and zero is returned. The
    /// embedding program performs the transfer and must do so before
    /// committing this mutation, so that a failed transfer never advances
    /// the settlement point.
    pub fn claim_tokens(&mut self, caller: u64, now: u64) -> (claimed: u128)
        requires
            old(self).time_consistent(caller, now),
        ensures
            claimed == old(self).spec_pending_amt(caller, now),
            claimed == 0 ==> final(self)@ == old(self)@,
            claimed != 0 ==> old(self)@.contains_key(caller) && final(self)@ == old(
                self,
            )@.insert(
                caller,
                Lock {
                    locked_amt: old(self)@[caller].locked_amt,
                    locked_on: old(self)@[caller].locked_on,
                    last_claimed: Some(now),
                },
            ),
    {
        let value = self.get_pending_amt(caller, now);
        if value == 0 {
            return 0;
        }
        let mut lock = self.get_lock_details(caller).unwrap();
        lock.last_claimed = Some(now);
        self.stakes.insert(caller, lock);
        value
    }

    // @dev: Only there for simple testing
    pub fn insert(&mut self, caller: u64, locked_amt: u128, locked_on: u64)
        ensures
            final(self)@ == old(self)@.insert(
                caller,
                Lock { locked_amt, locked_on, last_claimed: None },
            ),
    {
        let lock = Lock { locked_amt, locked_on, last_claimed: None };
        self.stakes.insert(caller, lock);
    }
}

/// Law: for an account that holds a lock, what was already settled, what is
/// matured but unpaid, and what is still locked re-assemble the original
/// deposit exactly, and none of the three parts is ever negative.
pub proof fn lemma_no_over_payment(s: Staking, caller: u64, now: u64)
    requires
        s@.contains_key(caller),
        s.time_consistent(caller, now),
    ensures
        s.spec_claimed_amt(caller) + s.spec_pending_amt(caller, now) + s.spec_locked_amt(
            caller,
            now,
        ) == s@[caller].locked_amt,
        0 <= s.spec_claimed_amt(caller),
        0 <= s.spec_pending_amt(caller, now),
        0 <= s.spec_locked_amt(caller, now),
{
    let lock = s@[caller];
    lemma_claimable_le_amt(lock, Some(now));
    if let Some(lc) = lock.last_claimed {
        lemma_claimable_monotonic(lock, lc, now);
    }
}

} // verus!
