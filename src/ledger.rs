use vstd::prelude::*;

use crate::lifecycle::{decide_join, validate_stake, JoinOutcome};
use crate::model::{LedgerError, Participation, User, Wager, STARTING_BALANCE};
use crate::settlement::{
    classify, debit, lemma_take_step, role_spec, settle, settled_user, settled_with_role,
    settlement_fits, settlement_payout, Role, Settlement,
};

verus! {

/// An in-memory store of users, wagers and participations on which every
/// operation of the ledger runs.
///
/// The user with id `k + 1` stands at index `k` of `users`, and likewise for
/// wagers; participation ids are handed out from `next_participation_id`.
pub struct Ledger {
    pub users: Vec<User>,
    pub wagers: Vec<Wager>,
    pub participations: Vec<Participation>,
    pub next_participation_id: i64,
}

/// Whether some user in `users` has `external_id`.
pub open spec fn has_user(users: Seq<User>, external_id: u64) -> bool {
    exists|k: int| 0 <= k < users.len() && #[trigger] users[k].external_id == external_id
}

/// The id of the user with `external_id`, once the user is resolved: the
/// recorded one, else the one that a new record gets.
pub open spec fn resolved_id(users: Seq<User>, external_id: u64) -> int {
    if has_user(users, external_id) {
        (choose|k: int| 0 <= k < users.len() && #[trigger] users[k].external_id == external_id) + 1
    } else {
        users.len() + 1 as int
    }
}

/// The users once the user with `external_id` is resolved: unchanged when it
/// is recorded, else with a new user at the starting balance.
pub open spec fn resolved_users(users: Seq<User>, external_id: u64, display_name: String) -> Seq<User> {
    if has_user(users, external_id) {
        users
    } else {
        users.push(
            User {
                id: (users.len() + 1) as i64,
                external_id,
                display_name,
                balance: STARTING_BALANCE,
            },
        )
    }
}

/// Whether `parts` records that the user `user_id` has joined the wager `wager_id`.
pub open spec fn joined(parts: Seq<Participation>, wager_id: i64, user_id: int) -> bool {
    exists|i: int|
        0 <= i < parts.len() && (#[trigger] parts[i]).wager_id == wager_id && parts[i].user_id
            == user_id
}

/// The users that have joined the wager `wager_id`, in the order of `parts`.
pub open spec fn participants_of(users: Seq<User>, parts: Seq<Participation>, wager_id: i64) -> Seq<
    User,
>
    decreases parts.len(),
{
    if parts.len() == 0 {
        Seq::empty()
    } else {
        let rest = participants_of(users, parts.drop_last(), wager_id);
        if parts.last().wager_id == wager_id {
            rest.push(users[parts.last().user_id - 1])
        } else {
            rest
        }
    }
}

/// The role of the user at index `k` in the settlement of `wager_id`: none
/// unless the user has joined the wager.
pub open spec fn role_in(
    users: Seq<User>,
    parts: Seq<Participation>,
    wager_id: i64,
    k: int,
    winning: Seq<u64>,
    losing: Seq<u64>,
) -> Role {
    if joined(parts, wager_id, k + 1) {
        role_spec(users[k].external_id, winning, losing)
    } else {
        Role::Bystander
    }
}

/// What `create_user` does to the store `a`, giving `r` and the store `b`.
pub open spec fn create_user_post(
    a: Ledger,
    external_id: u64,
    display_name: String,
    r: Result<User, LedgerError>,
    b: Ledger,
) -> bool {
    &&& (b.wagers@ == a.wagers@)
    &&& (b.participations@ == a.participations@)
    &&& (b.next_participation_id == a.next_participation_id)
    &&& (has_user(a.users@, external_id) ==> r == Err::<User, LedgerError>(
        LedgerError::Conflict,
    ) && b.users@ == a.users@)
    &&& (!has_user(a.users@, external_id) && a.users@.len() >= i64::MAX ==> r
        == Err::<User, LedgerError>(LedgerError::Overflow) && b.users@ == a.users@)
    &&& (!has_user(a.users@, external_id) && a.users@.len() < i64::MAX ==> {
        let u = User {
            id: (a.users@.len() + 1) as i64,
            external_id,
            display_name,
            balance: STARTING_BALANCE,
        };
        &&& r == Ok::<User, LedgerError>(u)
        &&& b.users@ == a.users@.push(u)
    })
}

/// What `add_user_to_wager` does to the store `a`, giving `r` and the store `b`.
pub open spec fn join_post(
    a: Ledger,
    external_id: u64,
    display_name: String,
    wager_id: i64,
    r: Result<(), LedgerError>,
    b: Ledger,
) -> bool {
    &&& (b.wagers@ == a.wagers@)
    &&& ({
        let ou = a.users@;
        let mu = resolved_users(ou, external_id, display_name);
        let uid = resolved_id(ou, external_id);
        let ow = a.wagers@;
        let unchanged = b.participations@ == a.participations@
            && b.next_participation_id == a.next_participation_id;
        if !has_user(ou, external_id) && ou.len() >= i64::MAX {
            r == Err::<(), LedgerError>(LedgerError::Overflow) && b.users@ == ou
                && unchanged
        } else {
            &&& b.users@ == mu
            &&& 1 <= uid <= mu.len()
            &&& if !(1 <= wager_id <= ow.len()) {
                r == Err::<(), LedgerError>(LedgerError::NotFound) && unchanged
            } else if joined(a.participations@, wager_id, uid) {
                r == Ok::<(), LedgerError>(()) && unchanged
            } else if mu[uid - 1].balance < ow[wager_id - 1].stake {
                r == Err::<(), LedgerError>(LedgerError::InsufficientFunds) && unchanged
            } else if ow[wager_id - 1].closed {
                r == Err::<(), LedgerError>(LedgerError::AlreadyClosed) && unchanged
            } else if a.next_participation_id == i64::MAX {
                r == Err::<(), LedgerError>(LedgerError::Overflow) && unchanged
            } else {
                &&& r == Ok::<(), LedgerError>(())
                &&& b.participations@ == a.participations@.push(
                    Participation {
                        id: a.next_participation_id,
                        wager_id,
                        user_id: uid as i64,
                    },
                )
                &&& b.next_participation_id == a.next_participation_id
                    + 1
            }
        }
    })
}

/// What `close_wager` does to the store `a`, giving `r` and the store `b`.
pub open spec fn close_post(
    a: Ledger,
    wager_id: i64,
    winning: Seq<u64>,
    losing: Seq<u64>,
    r: Result<Settlement, LedgerError>,
    b: Ledger,
) -> bool {
    &&& (b.participations@ == a.participations@)
    &&& (b.next_participation_id == a.next_participation_id)
    &&& ({
        let ou = a.users@;
        let ow = a.wagers@;
        let op = a.participations@;
        let unchanged = b.users@ == ou && b.wagers@ == ow;
        if !(1 <= wager_id <= ow.len()) {
            r == Err::<Settlement, LedgerError>(LedgerError::NotFound) && unchanged
        } else if ow[wager_id - 1].closed {
            r == Err::<Settlement, LedgerError>(LedgerError::AlreadyClosed) && unchanged
        } else {
            let w = ow[wager_id - 1];
            let ps = participants_of(ou, op, wager_id);
            let p = settlement_payout(w.stake as int, ps, winning, losing);
            if !settlement_fits(w.stake as int, ps, winning, losing) {
                r == Err::<Settlement, LedgerError>(LedgerError::Overflow) && unchanged
            } else {
                &&& r matches Ok(s) && {
                    &&& s.wager == (Wager { closed: true, ..w })
                    &&& s.payout == p
                    &&& s.winners@ == settled_with_role(
                        ps,
                        winning,
                        losing,
                        Role::Winner,
                        w.stake as int,
                        p,
                    )
                    &&& s.losers@ == settled_with_role(
                        ps,
                        winning,
                        losing,
                        Role::Loser,
                        w.stake as int,
                        p,
                    )
                }
                &&& b.wagers@ == ow.update(wager_id - 1, Wager { closed: true, ..w })
                &&& b.users@.len() == ou.len()
                &&& forall|k: int|
                    0 <= k < ou.len() ==> #[trigger] b.users@[k] == settled_user(
                        ou[k],
                        role_in(ou, op, wager_id, k, winning, losing),
                        w.stake as int,
                        p,
                    )
            }
        }
    })
}

impl Ledger {
    /// The invariant of the store: ids match positions, external ids and
    /// (wager, user) pairs are unique, stakes are positive, and each
    /// participation names a recorded user and wager.
    pub open spec fn wf(&self) -> bool {
        &&& forall|k: int| 0 <= k < self.users@.len() ==> (#[trigger] self.users@[k]).id == k + 1
        &&& forall|i: int, j: int|
            0 <= i < self.users@.len() && 0 <= j < self.users@.len() && i != j
                ==> (#[trigger] self.users@[i]).external_id != (#[trigger] self.users@[j]).external_id
        &&& forall|k: int|
            0 <= k < self.wagers@.len() ==> (#[trigger] self.wagers@[k]).id == k + 1
                && self.wagers@[k].stake > 0
        &&& forall|i: int|
            0 <= i < self.participations@.len() ==> {
                let p = #[trigger] self.participations@[i];
                &&& 1 <= p.user_id <= self.users@.len()
                &&& 1 <= p.wager_id <= self.wagers@.len()
                &&& p.id < self.next_participation_id
            }
        &&& forall|i: int, j: int|
            0 <= i < self.participations@.len() && 0 <= j < self.participations@.len() && i != j
                ==> !((#[trigger] self.participations@[i]).wager_id == (
            #[trigger] self.participations@[j]).wager_id && self.participations@[i].user_id
                == self.participations@[j].user_id)
        &&& self.next_participation_id >= 1
    }

    /// An empty store.
    pub fn new() -> (r: Ledger)
        ensures
            r.wf(),
            r.users@.len() == 0,
            r.wagers@.len() == 0,
            r.participations@.len() == 0,
            r.next_participation_id == 1,
    {
        Ledger {
            users: Vec::new(),
            wagers: Vec::new(),
            participations: Vec::new(),
            next_participation_id: 1,
        }
    }

    /// The index of the user with `external_id`, if one is recorded.
    pub fn find_user(&self, external_id: u64) -> (r: Option<usize>)
        requires
            self.wf(),
        ensures
            r.is_none() <==> !has_user(self.users@, external_id),
            r matches Some(k) ==> k < self.users@.len() && self.users@[k as int].external_id
                == external_id && resolved_id(self.users@, external_id) == k + 1,
    {
        let mut k: usize = 0;
        while k < self.users.len()
            invariant
                self.wf(),
                k <= self.users@.len(),
                forall|j: int| 0 <= j < k ==> (#[trigger] self.users@[j]).external_id != external_id,
            decreases self.users@.len() - k,
        {
            if self.users[k].external_id == external_id {
                proof {
                    assert(has_user(self.users@, external_id));
                    let c = choose|j: int|
                        0 <= j < self.users@.len() && #[trigger] self.users@[j].external_id
                            == external_id;
                    if c != k as int {
                        assert(self.users@[c].external_id != self.users@[k as int].external_id);
                    }
                }
                return Some(k);
            }
            k = k + 1;
        }
        None
    }

    /// The user with `external_id`, if one is recorded.
    pub fn get_user(&self, external_id: u64) -> (r: Option<User>)
        requires
            self.wf(),
        ensures
            r.is_none() <==> !has_user(self.users@, external_id),
            r matches Some(u) ==> u == self.users@[resolved_id(self.users@, external_id) - 1]
                && u.external_id == external_id,
    {
        match self.find_user(external_id) {
            Some(k) => Some(self.users[k].copied()),
            None => None,
        }
    }

    /// Every recorded user, in order of creation.
    pub fn list_users(&self) -> (r: Vec<User>)
        ensures
            r@ == self.users@,
    {
        let mut out: Vec<User> = Vec::new();
        let mut k: usize = 0;
        while k < self.users.len()
            invariant
                k <= self.users@.len(),
                out@ == self.users@.take(k as int),
            decreases self.users@.len() - k,
        {
            out.push(self.users[k].copied());
            assert(self.users@.take(k + 1) =~= self.users@.take(k as int).push(self.users@[k as int]));
            k = k + 1;
        }
        assert(self.users@.take(k as int) =~= self.users@);
        out
    }

    /// The wager with id `wager_id`, if one is recorded.
    pub fn get_wager(&self, wager_id: i64) -> (r: Option<Wager>)
        requires
            self.wf(),
        ensures
            1 <= wager_id <= self.wagers@.len() ==> r == Some(self.wagers@[wager_id - 1]),
            !(1 <= wager_id <= self.wagers@.len()) ==> r.is_none(),
    {
        if 1 <= wager_id && ((wager_id - 1) as u128) < (self.wagers.len() as u128) {
            Some(self.wagers[(wager_id - 1) as usize])
        } else {
            None
        }
    }

    /// Records a new user at the starting balance. A user whose external id is
    /// recorded already is a conflict, and nothing changes.
    pub fn create_user(&mut self, external_id: u64, display_name: String) -> (r: Result<User, LedgerError>)
        requires
            old(self).wf(),
        ensures
            final(self).wf(),
            create_user_post(*old(self), external_id, display_name, r, *final(self)),
    {
        if self.find_user(external_id).is_some() {
            return Err(LedgerError::Conflict);
        }
        if self.users.len() as u128 >= i64::MAX as u128 {
            return Err(LedgerError::Overflow);
        }
        let u = User::new(self.users.len() as i64 + 1, external_id, display_name);
        self.users.push(u.copied());
        Ok(u)
    }

    /// Records a new, open wager. A stake that is not positive is refused.
    pub fn create_wager(&mut self, stake: i64) -> (r: Result<Wager, LedgerError>)
        requires
            old(self).wf(),
        ensures
            final(self).wf(),
            final(self).users@ == old(self).users@,
            final(self).participations@ == old(self).participations@,
            final(self).next_participation_id == old(self).next_participation_id,
            stake <= 0 ==> r == Err::<Wager, LedgerError>(LedgerError::InvalidStake)
                && final(self).wagers@ == old(self).wagers@,
            stake > 0 && old(self).wagers@.len() >= i64::MAX ==> r == Err::<Wager, LedgerError>(
                LedgerError::Overflow,
            ) && final(self).wagers@ == old(self).wagers@,
            stake > 0 && old(self).wagers@.len() < i64::MAX ==> {
                let w = Wager { id: (old(self).wagers@.len() + 1) as i64, stake, closed: false };
                &&& r == Ok::<Wager, LedgerError>(w)
                &&& final(self).wagers@ == old(self).wagers@.push(w)
            },
    {
        let stake = match validate_stake(stake) {
            Ok(s) => s,
            Err(e) => return Err(e),
        };
        if self.wagers.len() as u128 >= i64::MAX as u128 {
            return Err(LedgerError::Overflow);
        }
        let w = Wager { id: self.wagers.len() as i64 + 1, stake, closed: false };
        self.wagers.push(w);
        Ok(w)
    }
}

impl Ledger {
    /// The index of the participation of user `user_id` in wager `wager_id`, if any.
    pub fn find_participation(&self, wager_id: i64, user_id: i64) -> (r: Option<usize>)
        ensures
            r.is_none() <==> !joined(self.participations@, wager_id, user_id as int),
            r matches Some(i) ==> i < self.participations@.len()
                && self.participations@[i as int].wager_id == wager_id
                && self.participations@[i as int].user_id == user_id,
    {
        let mut i: usize = 0;
        while i < self.participations.len()
            invariant
                i <= self.participations@.len(),
                forall|j: int|
                    0 <= j < i ==> !((#[trigger] self.participations@[j]).wager_id == wager_id
                        && self.participations@[j].user_id == user_id),
            decreases self.participations@.len() - i,
        {
            let p = self.participations[i];
            if p.wager_id == wager_id && p.user_id == user_id {
                return Some(i);
            }
            i = i + 1;
        }
        None
    }

    /// Adds the user with `external_id` to the wager `wager_id`, recording the
    /// user first, at the starting balance, when it is new.
    ///
    /// A user who has joined already succeeds with no further effect. A
    /// missing wager, a balance below the stake, and then a closed wager are
    /// refused with no participation recorded. No bucks are set aside.
    pub fn add_user_to_wager(&mut self, external_id: u64, display_name: String, wager_id: i64) -> (r:
        Result<(), LedgerError>)
        requires
            old(self).wf(),
        ensures
            final(self).wf(),
            join_post(*old(self), external_id, display_name, wager_id, r, *final(self)),
    {
        let ghost ou = self.users@;
        let ghost name = display_name;
        let idx: usize = match self.find_user(external_id) {
            Some(k) => k,
            None => match self.create_user(external_id, display_name) {
                Ok(_) => self.users.len() - 1,
                Err(e) => return Err(e),
            },
        };
        let uid = self.users[idx].id;
        assert(uid == resolved_id(ou, external_id));
        assert(self.users@ == resolved_users(ou, external_id, name));
        let wager = match self.get_wager(wager_id) {
            Some(w) => w,
            None => return Err(LedgerError::NotFound),
        };
        let already = self.find_participation(wager_id, uid).is_some();
        let balance = self.users[idx].balance;
        match decide_join(balance, &wager, already) {
            Ok(JoinOutcome::AlreadyJoined) => Ok(()),
            Ok(JoinOutcome::Join) => {
                if self.next_participation_id == i64::MAX {
                    return Err(LedgerError::Overflow);
                }
                let p = Participation { id: self.next_participation_id, wager_id, user_id: uid };
                self.participations.push(p);
                self.next_participation_id = self.next_participation_id + 1;
                Ok(())
            },
            Err(e) => Err(e),
        }
    }

    /// Takes the user with `external_id` out of the wager `wager_id`. A user
    /// who is unknown or has not joined that wager is refused. Leaving a
    /// closed wager is allowed: it moves no bucks.
    pub fn remove_user_from_wager(&mut self, external_id: u64, wager_id: i64) -> (r: Result<
        (),
        LedgerError,
    >)
        requires
            old(self).wf(),
        ensures
            final(self).wf(),
            final(self).users@ == old(self).users@,
            final(self).wagers@ == old(self).wagers@,
            final(self).next_participation_id == old(self).next_participation_id,
            !(has_user(old(self).users@, external_id) && joined(
                old(self).participations@,
                wager_id,
                resolved_id(old(self).users@, external_id),
            )) ==> r == Err::<(), LedgerError>(LedgerError::NotAParticipant)
                && final(self).participations@ == old(self).participations@,
            has_user(old(self).users@, external_id) && joined(
                old(self).participations@,
                wager_id,
                resolved_id(old(self).users@, external_id),
            ) ==> r == Ok::<(), LedgerError>(()) && exists|i: int|
                0 <= i < old(self).participations@.len() && (#[trigger] old(
                    self,
                ).participations@[i]).wager_id == wager_id && old(self).participations@[i].user_id
                    == resolved_id(old(self).users@, external_id) && final(self).participations@
                    == old(self).participations@.remove(i),
    {
        let k = match self.find_user(external_id) {
            Some(k) => k,
            None => return Err(LedgerError::NotAParticipant),
        };
        let uid = self.users[k].id;
        match self.find_participation(wager_id, uid) {
            Some(i) => {
                let ghost before = self.participations@;
                self.participations.remove(i);
                proof {
                    assert forall|j: int|
                        0 <= j < self.participations@.len() implies #[trigger] self.participations@[j]
                        == before[if j < i {
                        j
                    } else {
                        j + 1
                    }] by {}
                }
                Ok(())
            },
            None => Err(LedgerError::NotAParticipant),
        }
    }
}

/// A participation of the wager `wager_id` brings its user into the
/// participants of that wager.
pub(crate) proof fn lemma_joined_is_participant(
    users: Seq<User>,
    parts: Seq<Participation>,
    wager_id: i64,
    i: int,
)
    requires
        0 <= i < parts.len(),
        parts[i].wager_id == wager_id,
    ensures
        exists|j: int|
            0 <= j < participants_of(users, parts, wager_id).len() && #[trigger] participants_of(
                users,
                parts,
                wager_id,
            )[j] == users[parts[i].user_id - 1],
    decreases parts.len(),
{
    let all = participants_of(users, parts, wager_id);
    let rest = participants_of(users, parts.drop_last(), wager_id);
    if i == parts.len() - 1 {
        assert(all[rest.len() as int] == users[parts[i].user_id - 1]);
    } else {
        lemma_joined_is_participant(users, parts.drop_last(), wager_id, i);
        let j = choose|j: int|
            0 <= j < rest.len() && #[trigger] rest[j] == users[parts.drop_last()[i].user_id - 1];
        assert(all[j] == rest[j]);
    }
}

impl Ledger {
    /// The users that have joined the wager `wager_id`.
    pub fn participants(&self, wager_id: i64) -> (r: Vec<User>)
        requires
            self.wf(),
        ensures
            r@ == participants_of(self.users@, self.participations@, wager_id),
    {
        let ghost parts = self.participations@;
        let mut out: Vec<User> = Vec::new();
        let mut i: usize = 0;
        while i < self.participations.len()
            invariant
                self.wf(),
                parts == self.participations@,
                i <= parts.len(),
                out@ == participants_of(self.users@, parts.take(i as int), wager_id),
            decreases parts.len() - i,
        {
            proof {
                lemma_take_step(parts, i as int);
            }
            let p = self.participations[i];
            let n = self.users.len();
            assert(1 <= p.user_id <= n);
            if p.wager_id == wager_id {
                let idx = (p.user_id - 1) as usize;
                out.push(self.users[idx].copied());
            }
            i = i + 1;
        }
        assert(parts.take(parts.len() as int) =~= parts);
        out
    }

    /// Settles the wager `wager_id`: each participant whose external id is
    /// among `winning` receives the payout, each other participant whose
    /// external id is among `losing` gives up the stake, floored at zero, and
    /// the wager is closed. Every other user keeps its balance.
    ///
    /// A missing wager, a closed wager, and a settlement whose balances would
    /// leave the range of `i64` are refused, and nothing changes.
    pub fn close_wager(&mut self, wager_id: i64, winning: &Vec<u64>, losing: &Vec<u64>) -> (r:
        Result<Settlement, LedgerError>)
        requires
            old(self).wf(),
        ensures
            final(self).wf(),
            close_post(*old(self), wager_id, winning@, losing@, r, *final(self)),
    {
        let wager = match self.get_wager(wager_id) {
            Some(w) => w,
            None => return Err(LedgerError::NotFound),
        };
        let participants = self.participants(wager_id);
        let s = match settle(&wager, &participants, winning, losing) {
            Ok(s) => s,
            Err(e) => return Err(e),
        };
        let ghost ou = self.users@;
        let ghost op = self.participations@;
        let ghost ps = participants@;
        let mut k: usize = 0;
        while k < self.users.len()
            invariant
                self.wf(),
                op == self.participations@,
                self.next_participation_id == old(self).next_participation_id,
                self.wagers@ == old(self).wagers@,
                1 <= wager_id <= self.wagers@.len(),
                wager == self.wagers@[wager_id - 1],
                !wager.closed,
                ps == participants_of(ou, op, wager_id),
                settlement_fits(wager.stake as int, ps, winning@, losing@),
                s.payout == settlement_payout(wager.stake as int, ps, winning@, losing@),
                s.payout >= 0,
                self.users@.len() == ou.len(),
                k <= ou.len(),
                forall|j: int|
                    0 <= j < k ==> #[trigger] self.users@[j] == settled_user(
                        ou[j],
                        role_in(ou, op, wager_id, j, winning@, losing@),
                        wager.stake as int,
                        s.payout as int,
                    ),
                forall|j: int| k <= j < ou.len() ==> #[trigger] self.users@[j] == ou[j],
            decreases ou.len() - k,
        {
            let u = self.users[k].copied();
            let found = self.find_participation(wager_id, u.id);
            if let Some(i) = found {
                let role = classify(u.external_id, winning, losing);
                if role == Role::Winner {
                    proof {
                        lemma_joined_is_participant(ou, op, wager_id, i as int);
                        let j = choose|j: int|
                            0 <= j < ps.len() && #[trigger] ps[j] == ou[op[i as int].user_id - 1];
                        assert(role_spec(ps[j].external_id, winning@, losing@) == Role::Winner);
                    }
                    let b = u.balance + s.payout;
                    self.users.set(k, u.with_balance(b));
                } else if role == Role::Loser {
                    self.users.set(k, u.with_balance(debit(u.balance, wager.stake)));
                }
            }
            k = k + 1;
        }
        let n = self.wagers.len();
        assert(wager_id <= n);
        self.wagers.set((wager_id - 1) as usize, Wager { closed: true, ..wager });
        proof {
            assert forall|j: int| 0 <= j < self.wagers@.len() implies (
            #[trigger] self.wagers@[j]).id == j + 1 && self.wagers@[j].stake > 0 by {
                if j != wager_id - 1 {
                    assert(self.wagers@[j] == old(self).wagers@[j]);
                }
            }
        }
        Ok(s)
    }
}

} // verus!
