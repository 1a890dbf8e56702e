use vstd::prelude::*;

use crate::model::{LedgerError, User, Wager};

verus! {

/// What a join request comes to once it is admitted.
#[derive(Clone, Copy, Debug, PartialEq, Eq, Structural)]
pub enum JoinOutcome {
    /// The user had joined the wager already: nothing more is done.
    AlreadyJoined,
    /// A new participation is to be recorded.
    Join,
}

/// Accepts a stake for a new wager: a stake must be positive.
pub fn validate_stake(stake: i64) -> (r: Result<i64, LedgerError>)
    ensures
        stake > 0 ==> r == Ok::<i64, LedgerError>(stake),
        stake <= 0 ==> r == Err::<i64, LedgerError>(LedgerError::InvalidStake),
{
    if stake > 0 {
        Ok(stake)
    } else {
        Err(LedgerError::InvalidStake)
    }
}

/// Decides a request to create a user, given the user already recorded under
/// the same external id, if any.
pub fn decide_create_user(existing: &Option<User>) -> (r: Result<(), LedgerError>)
    ensures
        existing.is_some() ==> r == Err::<(), LedgerError>(LedgerError::Conflict),
        existing.is_none() ==> r == Ok::<(), LedgerError>(()),
{
    match existing {
        Some(_) => Err(LedgerError::Conflict),
        None => Ok(()),
    }
}

/// Decides a request to join `wager` by a user whose balance is `balance`.
/// A repeated join succeeds with no effect; a balance below the stake is
/// refused, and so, with enough balance, is a closed wager.
pub fn decide_join(balance: i64, wager: &Wager, already_joined: bool) -> (r: Result<JoinOutcome, LedgerError>)
    ensures
        already_joined ==> r == Ok::<JoinOutcome, LedgerError>(JoinOutcome::AlreadyJoined),
        !already_joined && balance < wager.stake ==> r == Err::<JoinOutcome, LedgerError>(
            LedgerError::InsufficientFunds,
        ),
        !already_joined && balance >= wager.stake && wager.closed ==> r == Err::<
            JoinOutcome,
            LedgerError,
        >(LedgerError::AlreadyClosed),
        !already_joined && balance >= wager.stake && !wager.closed ==> r == Ok::<
            JoinOutcome,
            LedgerError,
        >(JoinOutcome::Join),
{
    if already_joined {
        Ok(JoinOutcome::AlreadyJoined)
    } else if balance < wager.stake {
        Err(LedgerError::InsufficientFunds)
    } else if wager.closed {
        Err(LedgerError::AlreadyClosed)
    } else {
        Ok(JoinOutcome::Join)
    }
}

} // verus!
