use vstd::prelude::*;

use crate::ledger::{
    close_post, create_user_post, has_user, join_post, joined, lemma_joined_is_participant,
    participants_of, resolved_id, resolved_users, Ledger,
};
use crate::model::{LedgerError, User};
use crate::settlement::{
    loser_count, payout_spec, settlement_fits, winner_count, Settlement,
};

verus! {

/// The smaller of two integers.
pub open spec fn min_int(x: int, y: int) -> int {
    if x <= y {
        x
    } else {
        y
    }
}

/// Once a wager has been settled, settling it again is refused as already
/// closed, and leaves every balance and every wager as they were.
pub proof fn law_close_is_single_shot(
    a: Ledger,
    b: Ledger,
    c: Ledger,
    wager_id: i64,
    winning1: Seq<u64>,
    losing1: Seq<u64>,
    r1: Result<Settlement, LedgerError>,
    winning2: Seq<u64>,
    losing2: Seq<u64>,
    r2: Result<Settlement, LedgerError>,
)
    requires
        a.wf(),
        close_post(a, wager_id, winning1, losing1, r1, b),
        close_post(b, wager_id, winning2, losing2, r2, c),
        r1.is_ok(),
    ensures
        b.wagers@[wager_id - 1].closed,
        r2 == Err::<Settlement, LedgerError>(LedgerError::AlreadyClosed),
        c.users@ == b.users@,
        c.wagers@ == b.wagers@,
{
}

/// Settling never reopens a wager: each wager that was closed stays closed.
pub proof fn law_closed_stays_closed(
    a: Ledger,
    b: Ledger,
    wager_id: i64,
    winning: Seq<u64>,
    losing: Seq<u64>,
    r: Result<Settlement, LedgerError>,
    j: int,
)
    requires
        a.wf(),
        close_post(a, wager_id, winning, losing, r, b),
        0 <= j < a.wagers@.len(),
        a.wagers@[j].closed,
    ensures
        b.wagers@.len() == a.wagers@.len(),
        b.wagers@[j].closed,
{
}

/// In a settlement at stake `S` with `W` winners and `L` losers, each winner
/// gains exactly `floor(S * L / W)` and each loser loses `min(balance, S)`.
pub proof fn law_settlement_payout(
    a: Ledger,
    b: Ledger,
    wager_id: i64,
    winning: Seq<u64>,
    losing: Seq<u64>,
    s: Settlement,
    k: int,
)
    requires
        a.wf(),
        close_post(a, wager_id, winning, losing, Ok(s), b),
        0 <= k < a.users@.len(),
        joined(a.participations@, wager_id, k + 1),
    ensures
        ({
            let stake = a.wagers@[wager_id - 1].stake as int;
            let ps = participants_of(a.users@, a.participations@, wager_id);
            let w = winner_count(ps, winning, losing);
            let l = loser_count(ps, winning, losing);
            let before = a.users@[k].balance as int;
            let after = b.users@[k].balance as int;
            &&& s.payout == payout_spec(stake, l, w)
            &&& w > 0 ==> s.payout == (stake * l) / w
            &&& winning.contains(a.users@[k].external_id) ==> after == before + payout_spec(
                stake,
                l,
                w,
            )
            &&& !winning.contains(a.users@[k].external_id) && losing.contains(
                a.users@[k].external_id,
            ) ==> after == before - min_int(before, stake) && after >= 0
        }),
{
    let stake = a.wagers@[wager_id - 1].stake as int;
    let ps = participants_of(a.users@, a.participations@, wager_id);
    let i = choose|i: int|
        0 <= i < a.participations@.len() && (#[trigger] a.participations@[i]).wager_id == wager_id
            && a.participations@[i].user_id == k + 1;
    lemma_joined_is_participant(a.users@, a.participations@, wager_id, i);
    let j = choose|j: int|
        0 <= j < ps.len() && #[trigger] ps[j] == a.users@[a.participations@[i].user_id - 1];
    assert(settlement_fits(stake, ps, winning, losing));
}

/// With no winners the payout is zero: winners keep their balances and
/// losers still lose `min(balance, S)`.
pub proof fn law_no_winners(
    a: Ledger,
    b: Ledger,
    wager_id: i64,
    winning: Seq<u64>,
    losing: Seq<u64>,
    s: Settlement,
    k: int,
)
    requires
        a.wf(),
        close_post(a, wager_id, winning, losing, Ok(s), b),
        winner_count(participants_of(a.users@, a.participations@, wager_id), winning, losing) == 0,
        0 <= k < a.users@.len(),
    ensures
        s.payout == 0,
        b.users@[k].balance <= a.users@[k].balance || a.users@[k].balance < 0,
        joined(a.participations@, wager_id, k + 1) && !winning.contains(a.users@[k].external_id)
            && losing.contains(a.users@[k].external_id) ==> b.users@[k].balance == a.users@[k].balance
            - min_int(a.users@[k].balance as int, a.wagers@[wager_id - 1].stake as int),
{
    if joined(a.participations@, wager_id, k + 1) {
        law_settlement_payout(a, b, wager_id, winning, losing, s, k);
    }
}

/// A user who has not joined the wager, or whose external id is in neither
/// list, comes out of the settlement unchanged.
pub proof fn law_bystanders_unaffected(
    a: Ledger,
    b: Ledger,
    wager_id: i64,
    winning: Seq<u64>,
    losing: Seq<u64>,
    r: Result<Settlement, LedgerError>,
    k: int,
)
    requires
        a.wf(),
        close_post(a, wager_id, winning, losing, r, b),
        0 <= k < a.users@.len(),
        !joined(a.participations@, wager_id, k + 1) || (!winning.contains(
            a.users@[k].external_id,
        ) && !losing.contains(a.users@[k].external_id)),
    ensures
        b.users@[k] == a.users@[k],
{
}

/// Joining a wager a second time succeeds and changes nothing: no balance
/// moves and no second participation is recorded.
pub proof fn law_join_is_idempotent(
    a: Ledger,
    b: Ledger,
    c: Ledger,
    external_id: u64,
    name1: String,
    name2: String,
    wager_id: i64,
    r1: Result<(), LedgerError>,
    r2: Result<(), LedgerError>,
)
    requires
        a.wf(),
        b.wf(),
        join_post(a, external_id, name1, wager_id, r1, b),
        join_post(b, external_id, name2, wager_id, r2, c),
        r1 == Ok::<(), LedgerError>(()),
    ensures
        r2 == Ok::<(), LedgerError>(()),
        c.users@ == b.users@,
        c.participations@ == b.participations@,
        c.next_participation_id == b.next_participation_id,
{
    let ou = a.users@;
    let uid = resolved_id(ou, external_id);
    if !has_user(ou, external_id) {
        let n = ou.len() as int;
        assert(b.users@[n].external_id == external_id);
        assert(has_user(b.users@, external_id));
        let c0 = choose|k: int|
            0 <= k < b.users@.len() && #[trigger] b.users@[k].external_id == external_id;
        if c0 != n {
            assert(b.users@[c0].external_id != b.users@[n].external_id);
        }
    }
    assert(resolved_id(b.users@, external_id) == uid);
    if !joined(a.participations@, wager_id, uid) {
        let i = a.participations@.len() as int;
        assert(b.participations@[i].wager_id == wager_id && b.participations@[i].user_id == uid);
    }
    assert(joined(b.participations@, wager_id, uid));
}

/// Joining a wager with a balance below its stake is refused as
/// insufficient funds, whether or not the wager is closed, and records no
/// participation; a user seen for the first time is still recorded.
pub proof fn law_join_needs_funds(
    a: Ledger,
    b: Ledger,
    external_id: u64,
    name: String,
    wager_id: i64,
    r: Result<(), LedgerError>,
)
    requires
        a.wf(),
        join_post(a, external_id, name, wager_id, r, b),
        has_user(a.users@, external_id) || a.users@.len() < i64::MAX,
        1 <= wager_id <= a.wagers@.len(),
        !joined(a.participations@, wager_id, resolved_id(a.users@, external_id)),
        resolved_users(a.users@, external_id, name)[resolved_id(a.users@, external_id) - 1].balance
            < a.wagers@[wager_id - 1].stake,
    ensures
        r == Err::<(), LedgerError>(LedgerError::InsufficientFunds),
        b.participations@ == a.participations@,
        b.users@ == resolved_users(a.users@, external_id, name),
{
}

/// Creating a user under an external id that is taken is a conflict, and
/// leaves every user, and so every balance, as it was.
pub proof fn law_create_user_conflict(
    a: Ledger,
    b: Ledger,
    external_id: u64,
    name: String,
    r: Result<User, LedgerError>,
)
    requires
        a.wf(),
        create_user_post(a, external_id, name, r, b),
        has_user(a.users@, external_id),
    ensures
        r == Err::<User, LedgerError>(LedgerError::Conflict),
        b.users@ == a.users@,
{
}

} // verus!
