use vstd::prelude::*;

verus! {

/// The balance that every new user starts with.
pub const STARTING_BALANCE: i64 = 500;

/// A user of the ledger, keyed internally by `id` and externally by
/// `external_id`, the identifier of the calling platform.
#[derive(Clone, Debug, PartialEq, Eq)]
pub struct User {
    pub id: i64,
    pub external_id: u64,
    pub display_name: String,
    pub balance: i64,
}

/// A pooled bet in which every participant risks `stake` bucks.
#[derive(Clone, Copy, Debug, PartialEq, Eq, Structural)]
pub struct Wager {
    pub id: i64,
    pub stake: i64,
    pub closed: bool,
}

/// The record that one user has joined one wager.
#[derive(Clone, Copy, Debug, PartialEq, Eq, Structural)]
pub struct Participation {
    pub id: i64,
    pub wager_id: i64,
    pub user_id: i64,
}

/// Why an operation of the ledger was refused.
#[derive(Clone, Copy, Debug, PartialEq, Eq, Structural)]
pub enum LedgerError {
    /// The user or the wager named does not exist.
    NotFound,
    /// A user with that external id exists already.
    Conflict,
    /// The wager has been settled already.
    AlreadyClosed,
    /// The user's balance is below the wager's stake.
    InsufficientFunds,
    /// The user has not joined the wager.
    NotAParticipant,
    /// A wager's stake must be positive.
    InvalidStake,
    /// A balance or an identifier would leave the range of `i64`.
    Overflow,
}

impl User {
    /// A new user with the starting balance.
    pub fn new(id: i64, external_id: u64, display_name: String) -> (r: User)
        ensures
            r.id == id,
            r.external_id == external_id,
            r.display_name == display_name,
            r.balance == STARTING_BALANCE,
    {
        User { id, external_id, display_name, balance: STARTING_BALANCE }
    }

    /// A field-for-field copy of this user.
    pub fn copied(&self) -> (r: User)
        ensures
            r == *self,
    {
        User {
            id: self.id,
            external_id: self.external_id,
            display_name: self.display_name.clone(),
            balance: self.balance,
        }
    }

    /// This user with its balance replaced.
    pub fn with_balance(&self, balance: i64) -> (r: User)
        ensures
            r == (User { balance, ..*self }),
    {
        User {
            id: self.id,
            external_id: self.external_id,
            display_name: self.display_name.clone(),
            balance,
        }
    }
}

} // verus!
