//! A token time-lock with a tiered vesting schedule.
//!
//! A participant deposits a balance once; half of it matures the moment the
//! lock is queried, and the rest trickles out in equal daily tranches of one
//! tenth of the deposit, with any rounding leftover folded into the final
//! tranche. The `vesting` module holds the pure schedule arithmetic; the
//! `account` module holds the per-account lock registry and the
//! lock/claim lifecycle built on top of it.
//!
//! The host environment (caller identity, clock, and balance transfers) is
//! supplied by the embedding program: every operation takes the caller and
//! the current time as explicit arguments.

pub mod account;
pub mod vesting;
