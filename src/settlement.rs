use vstd::prelude::*;

use crate::model::{LedgerError, User, Wager};

verus! {

/// Whether `x` fits in an `i64`.
pub open spec fn fits_i64(x: int) -> bool {
    i64::MIN <= x <= i64::MAX
}

/// What each winner receives: the losers' stakes shared among the winners,
/// rounded down; nothing when there are no winners.
pub open spec fn payout_spec(stake: int, losers: int, winners: int) -> int {
    if winners == 0 {
        0
    } else {
        (stake * losers) / winners
    }
}

/// A loser's balance after settlement: the stake is taken, but never below zero.
pub open spec fn debit_spec(balance: int, stake: int) -> int {
    if balance - stake < 0 {
        0
    } else {
        balance - stake
    }
}

/// How a participant comes out of a settlement.
#[derive(Clone, Copy, Debug, PartialEq, Eq, Structural)]
pub enum Role {
    Winner,
    Loser,
    Bystander,
}

/// The role of `external_id`: a winner when it is among the winning ids,
/// else a loser when it is among the losing ids, else neither.
pub open spec fn role_spec(external_id: u64, winning: Seq<u64>, losing: Seq<u64>) -> Role {
    if winning.contains(external_id) {
        Role::Winner
    } else if losing.contains(external_id) {
        Role::Loser
    } else {
        Role::Bystander
    }
}

/// The payout to each winner when `losers` losers each give up `stake`.
/// `None` when the payout does not fit in an `i64`.
pub fn payout(stake: i64, losers: usize, winners: usize) -> (r: Option<i64>)
    requires
        stake > 0,
    ensures
        r.is_some() <==> fits_i64(payout_spec(stake as int, losers as int, winners as int)),
        r.is_some() ==> r.unwrap() == payout_spec(stake as int, losers as int, winners as int),
        r.is_some() ==> r.unwrap() >= 0,
{
    if winners == 0 {
        return Some(0);
    }
    let s = stake as i128;
    let l = losers as i128;
    let w = winners as i128;
    assert(0 <= s * l <= 0x7fff_ffff_ffff_ffff * 0xffff_ffff_ffff_ffff) by (nonlinear_arith)
        requires
            0 < s <= 0x7fff_ffff_ffff_ffff,
            0 <= l <= 0xffff_ffff_ffff_ffff,
    ;
    let total = s * l;
    let share = total / w;
    assert(0 <= share <= total) by (nonlinear_arith)
        requires
            share == total / w,
            w >= 1,
            total >= 0,
    ;
    if share > i64::MAX as i128 {
        None
    } else {
        Some(share as i64)
    }
}

/// A winner's new balance; `None` when it does not fit in an `i64`.
pub fn credit(balance: i64, amount: i64) -> (r: Option<i64>)
    requires
        amount >= 0,
    ensures
        r.is_some() <==> fits_i64(balance + amount),
        r.is_some() ==> r.unwrap() == balance + amount,
{
    balance.checked_add(amount)
}

/// A loser's new balance: `balance - stake`, floored at zero.
pub fn debit(balance: i64, stake: i64) -> (r: i64)
    requires
        stake > 0,
    ensures
        r == debit_spec(balance as int, stake as int),
        r >= 0,
{
    if balance < stake {
        0
    } else {
        balance - stake
    }
}

/// Whether `ids` holds `id`.
pub fn contains_id(ids: &Vec<u64>, id: u64) -> (r: bool)
    ensures
        r == ids@.contains(id),
{
    let mut i: usize = 0;
    while i < ids.len()
        invariant
            i <= ids.len(),
            forall|j: int| 0 <= j < i ==> ids@[j] != id,
        decreases ids.len() - i,
    {
        if ids[i] == id {
            return true;
        }
        i = i + 1;
    }
    false
}

/// The role of `external_id` in a settlement; the winning ids take precedence.
pub fn classify(external_id: u64, winning: &Vec<u64>, losing: &Vec<u64>) -> (r: Role)
    ensures
        r == role_spec(external_id, winning@, losing@),
{
    if contains_id(winning, external_id) {
        Role::Winner
    } else if contains_id(losing, external_id) {
        Role::Loser
    } else {
        Role::Bystander
    }
}

/// The participants of `ps` that have `role`, in their order.
pub open spec fn with_role(ps: Seq<User>, winning: Seq<u64>, losing: Seq<u64>, role: Role) -> Seq<User>
    decreases ps.len(),
{
    if ps.len() == 0 {
        Seq::empty()
    } else {
        let rest = with_role(ps.drop_last(), winning, losing, role);
        if role_spec(ps.last().external_id, winning, losing) == role {
            rest.push(ps.last())
        } else {
            rest
        }
    }
}

/// The number of participants that win.
pub open spec fn winner_count(ps: Seq<User>, winning: Seq<u64>, losing: Seq<u64>) -> int {
    with_role(ps, winning, losing, Role::Winner).len() as int
}

/// The number of participants that lose.
pub open spec fn loser_count(ps: Seq<User>, winning: Seq<u64>, losing: Seq<u64>) -> int {
    with_role(ps, winning, losing, Role::Loser).len() as int
}

/// The payout of a settlement of `ps` at `stake`.
pub open spec fn settlement_payout(stake: int, ps: Seq<User>, winning: Seq<u64>, losing: Seq<u64>) -> int {
    payout_spec(stake, loser_count(ps, winning, losing), winner_count(ps, winning, losing))
}

/// The balance that a participant with `role` has after settlement.
pub open spec fn balance_after(balance: int, role: Role, stake: int, payout: int) -> int {
    match role {
        Role::Winner => balance + payout,
        Role::Loser => debit_spec(balance, stake),
        Role::Bystander => balance,
    }
}

/// The user `u` as it stands after a settlement in which it has `role`.
pub open spec fn settled_user(u: User, role: Role, stake: int, payout: int) -> User {
    User { balance: balance_after(u.balance as int, role, stake, payout) as i64, ..u }
}

/// The participants with `role`, as they stand after settlement.
pub open spec fn settled_with_role(
    ps: Seq<User>,
    winning: Seq<u64>,
    losing: Seq<u64>,
    role: Role,
    stake: int,
    payout: int,
) -> Seq<User> {
    with_role(ps, winning, losing, role).map(|_i: int, u: User| settled_user(u, role, stake, payout))
}

/// Whether the payout and every winner's new balance fit in an `i64`.
pub open spec fn settlement_fits(stake: int, ps: Seq<User>, winning: Seq<u64>, losing: Seq<u64>) -> bool {
    let p = settlement_payout(stake, ps, winning, losing);
    &&& fits_i64(p)
    &&& forall|j: int|
        0 <= j < ps.len() && #[trigger] role_spec(ps[j].external_id, winning, losing) == Role::Winner
            ==> fits_i64(ps[j].balance + p)
}

/// The outcome of closing a wager.
pub struct Settlement {
    /// The winners, with their balances after settlement.
    pub winners: Vec<User>,
    /// The losers, with their balances after settlement.
    pub losers: Vec<User>,
    /// The wager, now closed.
    pub wager: Wager,
    /// What each winner received.
    pub payout: i64,
}

/// Taking one more element of `ps` adds `ps[i]` at the end.
pub(crate) proof fn lemma_take_step<A>(ps: Seq<A>, i: int)
    requires
        0 <= i < ps.len(),
    ensures
        ps.take(i + 1).drop_last() == ps.take(i),
        ps.take(i + 1).last() == ps[i],
        ps.take(i + 1).len() == i + 1,
{
    assert(ps.take(i + 1).drop_last() =~= ps.take(i));
}

/// Counts the winners and the losers among `ps`.
fn count_roles(ps: &Vec<User>, winning: &Vec<u64>, losing: &Vec<u64>) -> (r: (usize, usize))
    ensures
        r.0 == winner_count(ps@, winning@, losing@),
        r.1 == loser_count(ps@, winning@, losing@),
{
    let mut w: usize = 0;
    let mut l: usize = 0;
    let mut i: usize = 0;
    while i < ps.len()
        invariant
            i <= ps.len(),
            w == winner_count(ps@.take(i as int), winning@, losing@),
            l == loser_count(ps@.take(i as int), winning@, losing@),
            w + l <= i,
        decreases ps.len() - i,
    {
        proof {
            lemma_take_step(ps@, i as int);
        }
        let role = classify(ps[i].external_id, winning, losing);
        if role == Role::Winner {
            w = w + 1;
        } else if role == Role::Loser {
            l = l + 1;
        }
        i = i + 1;
    }
    assert(ps@.take(ps.len() as int) =~= ps@);
    (w, l)
}

/// Settles `wager` among the resolved `participants`.
///
/// A participant whose external id is among `winning` wins, else one whose
/// external id is among `losing` loses, and the others are left out. Each
/// winner receives the payout, each loser gives up the stake, floored at zero,
/// and the wager comes back closed. A closed wager is refused, and so is a
/// settlement whose balances would leave the range of `i64`.
pub fn settle(wager: &Wager, participants: &Vec<User>, winning: &Vec<u64>, losing: &Vec<u64>) -> (r:
    Result<Settlement, LedgerError>)
    requires
        wager.stake > 0,
    ensures
        wager.closed ==> r == Err::<Settlement, LedgerError>(LedgerError::AlreadyClosed),
        !wager.closed ==> (r.is_ok() <==> settlement_fits(
            wager.stake as int,
            participants@,
            winning@,
            losing@,
        )),
        !wager.closed && r.is_err() ==> r == Err::<Settlement, LedgerError>(LedgerError::Overflow),
        r matches Ok(s) ==> {
            let p = settlement_payout(wager.stake as int, participants@, winning@, losing@);
            &&& s.wager == (Wager { closed: true, ..*wager })
            &&& s.payout == p
            &&& s.winners@ == settled_with_role(
                participants@,
                winning@,
                losing@,
                Role::Winner,
                wager.stake as int,
                p,
            )
            &&& s.losers@ == settled_with_role(
                participants@,
                winning@,
                losing@,
                Role::Loser,
                wager.stake as int,
                p,
            )
        },
{
    if wager.closed {
        return Err(LedgerError::AlreadyClosed);
    }
    let ghost ps = participants@;
    let ghost stake = wager.stake as int;
    let (w, l) = count_roles(participants, winning, losing);
    let p = match payout(wager.stake, l, w) {
        Some(p) => p,
        None => return Err(LedgerError::Overflow),
    };
    let mut winners: Vec<User> = Vec::new();
    let mut losers: Vec<User> = Vec::new();
    let mut i: usize = 0;
    while i < participants.len()
        invariant
            ps == participants@,
            stake == wager.stake,
            !wager.closed,
            stake > 0,
            p >= 0,
            p == settlement_payout(stake, ps, winning@, losing@),
            i <= ps.len(),
            winners@ == settled_with_role(ps.take(i as int), winning@, losing@, Role::Winner, stake, p as int),
            losers@ == settled_with_role(ps.take(i as int), winning@, losing@, Role::Loser, stake, p as int),
            forall|j: int|
                0 <= j < i && #[trigger] role_spec(ps[j].external_id, winning@, losing@) == Role::Winner
                    ==> fits_i64(ps[j].balance + p),
        decreases ps.len() - i,
    {
        proof {
            lemma_take_step(ps, i as int);
        }
        let u = &participants[i];
        let role = classify(u.external_id, winning, losing);
        let ghost before_w = with_role(ps.take(i as int), winning@, losing@, Role::Winner);
        let ghost before_l = with_role(ps.take(i as int), winning@, losing@, Role::Loser);
        if role == Role::Winner {
            match credit(u.balance, p) {
                Some(b) => {
                    winners.push(u.with_balance(b));
                    proof {
                        let f = |_i: int, x: User| settled_user(x, Role::Winner, stake, p as int);
                        assert(before_w.push(*u).map(f) =~= before_w.map(f).push(f(0, *u)));
                    }
                },
                None => {
                    return Err(LedgerError::Overflow);
                },
            }
        } else if role == Role::Loser {
            losers.push(u.with_balance(debit(u.balance, wager.stake)));
            proof {
                let f = |_i: int, x: User| settled_user(x, Role::Loser, stake, p as int);
                assert(before_l.push(*u).map(f) =~= before_l.map(f).push(f(0, *u)));
            }
        }
        i = i + 1;
    }
    assert(ps.take(ps.len() as int) =~= ps);
    Ok(Settlement { winners, losers, wager: Wager { closed: true, ..*wager }, payout: p })
}

} // verus!
