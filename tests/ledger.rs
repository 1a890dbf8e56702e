use wager_ledger::{Ledger, LedgerError, Wager};

fn balance(l: &Ledger, external_id: u64) -> i64 {
    l.get_user(external_id).unwrap().balance
}

#[test]
fn round_trip_one_winner_one_loser() {
    let mut l = Ledger::new();
    let w = l.create_wager(50).unwrap();
    assert_eq!(w, Wager { id: 1, stake: 50, closed: false });
    assert_eq!(l.add_user_to_wager(1, "win".to_string(), w.id), Ok(()));
    assert_eq!(l.add_user_to_wager(2, "lose".to_string(), w.id), Ok(()));
    assert_eq!(balance(&l, 1), 500);
    assert_eq!(balance(&l, 2), 500);
    let s = l.close_wager(w.id, &vec![1], &vec![2]).unwrap();
    assert_eq!(balance(&l, 1), 550);
    assert_eq!(balance(&l, 2), 450);
    assert!(l.get_wager(w.id).unwrap().closed);
    assert!(s.wager.closed);
    assert_eq!(s.winners[0].balance, 550);
    assert_eq!(s.losers[0].balance, 450);
}

#[test]
fn second_close_is_refused_and_changes_nothing() {
    let mut l = Ledger::new();
    let w = l.create_wager(100).unwrap();
    l.add_user_to_wager(1, "a".to_string(), w.id).unwrap();
    l.add_user_to_wager(2, "b".to_string(), w.id).unwrap();
    l.close_wager(w.id, &vec![1], &vec![2]).unwrap();
    let users = l.list_users();
    assert_eq!(l.close_wager(w.id, &vec![2], &vec![1]).err(), Some(LedgerError::AlreadyClosed));
    assert_eq!(l.list_users(), users);
    assert!(l.get_wager(w.id).unwrap().closed);
}

#[test]
fn close_missing_wager_is_not_found() {
    let mut l = Ledger::new();
    assert_eq!(l.close_wager(1, &vec![], &vec![]).err(), Some(LedgerError::NotFound));
    assert_eq!(l.close_wager(0, &vec![], &vec![]).err(), Some(LedgerError::NotFound));
}

#[test]
fn ledger_payout_two_winners_three_losers() {
    let mut l = Ledger::new();
    let w = l.create_wager(100).unwrap();
    for id in 1..=5u64 {
        l.add_user_to_wager(id, format!("u{}", id), w.id).unwrap();
    }
    let s = l.close_wager(w.id, &vec![1, 2], &vec![3, 4, 5]).unwrap();
    assert_eq!(s.payout, 150);
    assert_eq!(balance(&l, 1), 650);
    assert_eq!(balance(&l, 2), 650);
    assert_eq!(balance(&l, 3), 400);
    assert_eq!(balance(&l, 5), 400);
}

#[test]
fn ledger_zero_winners_only_debits_losers() {
    let mut l = Ledger::new();
    let w = l.create_wager(100).unwrap();
    l.add_user_to_wager(1, "a".to_string(), w.id).unwrap();
    l.add_user_to_wager(2, "b".to_string(), w.id).unwrap();
    let s = l.close_wager(w.id, &vec![], &vec![1, 2]).unwrap();
    assert_eq!(s.payout, 0);
    assert_eq!(balance(&l, 1), 400);
    assert_eq!(balance(&l, 2), 400);
}

#[test]
fn unlisted_and_absent_users_are_unaffected() {
    let mut l = Ledger::new();
    let w = l.create_wager(100).unwrap();
    l.create_user(9, "outsider".to_string()).unwrap();
    l.add_user_to_wager(1, "a".to_string(), w.id).unwrap();
    l.add_user_to_wager(2, "b".to_string(), w.id).unwrap();
    l.add_user_to_wager(3, "c".to_string(), w.id).unwrap();
    l.close_wager(w.id, &vec![1, 9], &vec![2]).unwrap();
    assert_eq!(balance(&l, 1), 600);
    assert_eq!(balance(&l, 2), 400);
    assert_eq!(balance(&l, 3), 500);
    assert_eq!(balance(&l, 9), 500);
}

#[test]
fn listed_in_both_counts_as_winner() {
    let mut l = Ledger::new();
    let w = l.create_wager(100).unwrap();
    l.add_user_to_wager(1, "a".to_string(), w.id).unwrap();
    l.add_user_to_wager(2, "b".to_string(), w.id).unwrap();
    l.close_wager(w.id, &vec![1], &vec![1, 2]).unwrap();
    assert_eq!(balance(&l, 1), 600);
    assert_eq!(balance(&l, 2), 400);
}

#[test]
fn joining_twice_is_idempotent() {
    let mut l = Ledger::new();
    let w = l.create_wager(100).unwrap();
    l.add_user_to_wager(1, "a".to_string(), w.id).unwrap();
    let users = l.list_users();
    let parts = l.participations.clone();
    assert_eq!(l.add_user_to_wager(1, "a".to_string(), w.id), Ok(()));
    assert_eq!(l.list_users(), users);
    assert_eq!(l.participations, parts);
    assert_eq!(l.participations.len(), 1);
}

#[test]
fn joining_without_funds_is_refused() {
    let mut l = Ledger::new();
    let w = l.create_wager(600).unwrap();
    assert_eq!(l.add_user_to_wager(1, "a".to_string(), w.id), Err(LedgerError::InsufficientFunds));
    assert!(l.participations.is_empty());
    assert_eq!(balance(&l, 1), 500);
}

#[test]
fn joining_missing_or_closed_wager_is_refused() {
    let mut l = Ledger::new();
    assert_eq!(l.add_user_to_wager(1, "a".to_string(), 3), Err(LedgerError::NotFound));
    let w = l.create_wager(10).unwrap();
    l.close_wager(w.id, &vec![], &vec![]).unwrap();
    assert_eq!(l.add_user_to_wager(2, "b".to_string(), w.id), Err(LedgerError::AlreadyClosed));
    assert!(l.participations.is_empty());
}

#[test]
fn creating_existing_user_conflicts() {
    let mut l = Ledger::new();
    let u = l.create_user(7, "ann".to_string()).unwrap();
    assert_eq!(u.id, 1);
    assert_eq!(u.balance, 500);
    let w = l.create_wager(100).unwrap();
    l.add_user_to_wager(7, "ann".to_string(), w.id).unwrap();
    l.add_user_to_wager(8, "bo".to_string(), w.id).unwrap();
    l.close_wager(w.id, &vec![8], &vec![7]).unwrap();
    assert_eq!(l.create_user(7, "other".to_string()).err(), Some(LedgerError::Conflict));
    assert_eq!(balance(&l, 7), 400);
    assert_eq!(l.get_user(7).unwrap().display_name, "ann");
}

#[test]
fn create_wager_rejects_non_positive_stake() {
    let mut l = Ledger::new();
    assert_eq!(l.create_wager(0).err(), Some(LedgerError::InvalidStake));
    assert_eq!(l.create_wager(-1).err(), Some(LedgerError::InvalidStake));
    assert!(l.wagers.is_empty());
}

#[test]
fn remove_user_from_wager_deletes_participation() {
    let mut l = Ledger::new();
    let w = l.create_wager(100).unwrap();
    l.add_user_to_wager(1, "a".to_string(), w.id).unwrap();
    l.add_user_to_wager(2, "b".to_string(), w.id).unwrap();
    assert_eq!(l.remove_user_from_wager(1, w.id), Ok(()));
    assert_eq!(l.participations.len(), 1);
    assert_eq!(l.participations[0].user_id, 2);
    assert_eq!(l.remove_user_from_wager(1, w.id), Err(LedgerError::NotAParticipant));
    assert_eq!(l.remove_user_from_wager(5, w.id), Err(LedgerError::NotAParticipant));
    let parts = l.participants(w.id);
    assert_eq!(parts.len(), 1);
    assert_eq!(parts[0].external_id, 2);
}

#[test]
fn lookups_distinguish_missing_users() {
    let mut l = Ledger::new();
    assert!(l.get_user(1).is_none());
    assert!(l.list_users().is_empty());
    l.create_user(1, "a".to_string()).unwrap();
    l.create_user(2, "b".to_string()).unwrap();
    assert_eq!(l.find_user(2), Some(1));
    assert_eq!(l.list_users().len(), 2);
    assert!(l.get_wager(1).is_none());
}

#[test]
fn joining_closed_wager_without_funds_reports_insufficient_funds() {
    let mut l = Ledger::new();
    let w = l.create_wager(600).unwrap();
    l.close_wager(w.id, &vec![], &vec![]).unwrap();
    assert_eq!(l.add_user_to_wager(1, "a".to_string(), w.id), Err(LedgerError::InsufficientFunds));
    assert!(l.participations.is_empty());
    assert_eq!(balance(&l, 1), 500);
    assert_eq!(l.next_participation_id, 1);
}
