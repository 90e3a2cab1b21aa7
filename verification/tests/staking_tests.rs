use staking::account::{LockError, Staking};
use staking::vesting::{Lock, DAY};

#[test]
fn new_works() {
    let staking = Staking::new();
    assert_eq!(staking.get_lock_details(1), None);
}

#[test]
fn insert_works() {
    let mut staking = Staking::new();
    assert_eq!(staking.get_lock_details(1), None);
    staking.insert(1, 5, 10);
    let output = Lock { locked_amt: 5, locked_on: 10, last_claimed: None };
    assert_eq!(staking.get_lock_details(1), Some(output));
}

#[test]
fn absent_time_yields_zero() {
    let lock = Lock { locked_amt: 100, locked_on: 0, last_claimed: None };
    assert_eq!(lock.claimable_value(None), 0);
}

#[test]
fn locked_amt_returns_deposit() {
    let lock = Lock { locked_amt: 23, locked_on: 5, last_claimed: None };
    assert_eq!(lock.locked_amt(), 23);
}

#[test]
fn schedule_of_one_hundred() {
    let lock = Lock { locked_amt: 100, locked_on: 0, last_claimed: None };
    assert_eq!(lock.claimable_value(Some(0)), 50);
    assert_eq!(lock.claimable_value(Some(DAY)), 60);
    assert_eq!(lock.claimable_value(Some(4 * DAY)), 90);
    assert_eq!(lock.claimable_value(Some(9 * DAY)), 100);
    assert_eq!(lock.claimable_value(Some(100 * DAY)), 100);
}

#[test]
fn schedule_of_non_divisible_deposit() {
    // Deposit 23: initial tranche 11, remainder 12, daily tranche 2; the
    // sixth daily tranche folds in the rounding leftover and tops out at 23.
    let lock = Lock { locked_amt: 23, locked_on: 0, last_claimed: None };
    assert_eq!(lock.claimable_value(Some(0)), 11);
    assert_eq!(lock.claimable_value(Some(DAY)), 13);
    assert_eq!(lock.claimable_value(Some(5 * DAY)), 21);
    assert_eq!(lock.claimable_value(Some(6 * DAY)), 23);
    assert_eq!(lock.claimable_value(Some(7 * DAY)), 23);
}

#[test]
fn day_one_tranche_is_at_least_half() {
    let lock = Lock { locked_amt: 7, locked_on: 1000, last_claimed: None };
    assert!(lock.claimable_value(Some(1000)) >= 7 / 2);
    // Even a query before the lock began counts the initial tranche.
    assert_eq!(lock.claimable_value(Some(0)), 3);
}

#[test]
fn claimable_is_monotonic() {
    let lock = Lock { locked_amt: 101, locked_on: DAY, last_claimed: None };
    let mut previous = 0;
    for day in 0..15u64 {
        let now = lock.claimable_value(Some(day * DAY));
        assert!(previous <= now);
        previous = now;
    }
}

#[test]
fn full_maturity_after_eleven_days() {
    let lock = Lock { locked_amt: 10, locked_on: 0, last_claimed: None };
    assert_eq!(lock.claimable_value(Some(11 * DAY)), 10);
    assert_eq!(lock.claimable_value(Some(12 * DAY)), 10);
    let lock = Lock { locked_amt: 999, locked_on: 3 * DAY, last_claimed: None };
    assert_eq!(lock.claimable_value(Some(14 * DAY)), 999);
    assert_eq!(lock.claimable_value(Some(400 * DAY)), 999);
}

#[test]
fn small_deposit_never_fully_matures() {
    // Below ten units the daily tranche rounds down to zero, so only the
    // initial half ever matures.
    let lock = Lock { locked_amt: 5, locked_on: 0, last_claimed: None };
    assert_eq!(lock.claimable_value(Some(0)), 2);
    assert_eq!(lock.claimable_value(Some(50 * DAY)), 2);
}

#[test]
fn getters_without_a_lock_return_zero() {
    let staking = Staking::new();
    assert_eq!(staking.get_locked_amt(1, 0), 0);
    assert_eq!(staking.get_claimed_amt(1), 0);
    assert_eq!(staking.get_pending_amt(1, 0), 0);
}

#[test]
fn lock_tokens_rejects_zero_amount() {
    let mut staking = Staking::new();
    assert_eq!(staking.lock_tokens(1, 0, 0), Err(LockError::InvalidAmount));
    assert_eq!(staking.get_lock_details(1), None);
}

#[test]
fn lock_tokens_rejects_while_still_active() {
    let mut staking = Staking::new();
    assert_eq!(staking.lock_tokens(1, 0, 100), Ok(()));
    assert_eq!(staking.lock_tokens(1, DAY, 50), Err(LockError::LockStillActive));
    // The stored record is untouched by the refusal.
    let kept = Lock { locked_amt: 100, locked_on: 0, last_claimed: None };
    assert_eq!(staking.get_lock_details(1), Some(kept));
}

#[test]
fn lock_tokens_rejects_while_unclaimed() {
    let mut staking = Staking::new();
    assert_eq!(staking.lock_tokens(1, 0, 100), Ok(()));
    // By day nine everything has matured: nothing is locked, all is pending.
    assert_eq!(staking.get_locked_amt(1, 9 * DAY), 0);
    assert_eq!(staking.get_pending_amt(1, 9 * DAY), 100);
    assert_eq!(staking.lock_tokens(1, 9 * DAY, 50), Err(LockError::UnclaimedBalance));
}

#[test]
fn lock_tokens_accepts_over_a_drained_record() {
    let mut staking = Staking::new();
    assert_eq!(staking.lock_tokens(1, 0, 100), Ok(()));
    assert_eq!(staking.claim_tokens(1, 9 * DAY), 100);
    assert_eq!(staking.lock_tokens(1, 10 * DAY, 50), Ok(()));
    let fresh = Lock { locked_amt: 50, locked_on: 10 * DAY, last_claimed: None };
    assert_eq!(staking.get_lock_details(1), Some(fresh));
}

#[test]
fn claim_with_zero_pending_changes_nothing() {
    let mut staking = Staking::new();
    assert_eq!(staking.claim_tokens(1, DAY), 0);
    assert_eq!(staking.get_lock_details(1), None);
    assert_eq!(staking.lock_tokens(1, 0, 100), Ok(()));
    assert_eq!(staking.claim_tokens(1, 9 * DAY), 100);
    let settled = Lock { locked_amt: 100, locked_on: 0, last_claimed: Some(9 * DAY) };
    assert_eq!(staking.get_lock_details(1), Some(settled));
    // A second claim at the same time has nothing pending and stores nothing.
    assert_eq!(staking.claim_tokens(1, 9 * DAY), 0);
    assert_eq!(staking.get_lock_details(1), Some(settled));
}

#[test]
fn partial_claims_settle_in_steps() {
    let mut staking = Staking::new();
    assert_eq!(staking.lock_tokens(1, 0, 100), Ok(()));
    assert_eq!(staking.claim_tokens(1, DAY), 60);
    assert_eq!(staking.get_claimed_amt(1), 60);
    assert_eq!(staking.get_pending_amt(1, 2 * DAY), 10);
    assert_eq!(staking.get_locked_amt(1, 2 * DAY), 30);
    assert_eq!(staking.claim_tokens(1, 2 * DAY), 10);
    assert_eq!(staking.get_claimed_amt(1), 70);
}

#[test]
fn parts_reassemble_the_deposit() {
    let mut staking = Staking::new();
    assert_eq!(staking.lock_tokens(1, 0, 100), Ok(()));
    assert_eq!(staking.claim_tokens(1, DAY), 60);
    for day in 1..12u64 {
        let now = day * DAY;
        let sum = staking.get_claimed_amt(1)
            + staking.get_pending_amt(1, now)
            + staking.get_locked_amt(1, now);
        assert_eq!(sum, 100);
    }
}

#[test]
fn accounts_do_not_interfere() {
    let mut staking = Staking::new();
    assert_eq!(staking.lock_tokens(1, 0, 100), Ok(()));
    assert_eq!(staking.lock_tokens(2, 0, 23), Ok(()));
    assert_eq!(staking.claim_tokens(2, 0), 11);
    let first = Lock { locked_amt: 100, locked_on: 0, last_claimed: None };
    assert_eq!(staking.get_lock_details(1), Some(first));
    assert_eq!(staking.get_claimed_amt(1), 0);
    assert_eq!(staking.get_claimed_amt(2), 11);
}
