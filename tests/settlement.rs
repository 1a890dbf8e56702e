use wager_ledger::{
    classify, contains_id, credit, debit, payout, settle, LedgerError, Role, User, Wager,
};

fn user(id: i64, external_id: u64, balance: i64) -> User {
    User { id, external_id, display_name: format!("user{}", external_id), balance }
}

#[test]
fn payout_shares_losers_stakes_among_winners() {
    assert_eq!(payout(100, 3, 2), Some(150));
    assert_eq!(payout(50, 1, 1), Some(50));
}

#[test]
fn payout_rounds_down() {
    assert_eq!(payout(100, 1, 3), Some(33));
    assert_eq!(payout(7, 2, 4), Some(3));
}

#[test]
fn payout_without_winners_is_zero() {
    assert_eq!(payout(100, 5, 0), Some(0));
}

#[test]
fn payout_out_of_range_is_refused() {
    assert_eq!(payout(i64::MAX, 2, 1), None);
    assert_eq!(payout(i64::MAX, 2, 2), Some(i64::MAX));
}

#[test]
fn credit_adds_and_refuses_overflow() {
    assert_eq!(credit(500, 50), Some(550));
    assert_eq!(credit(i64::MAX, 1), None);
}

#[test]
fn debit_floors_at_zero() {
    assert_eq!(debit(80, 100), 0);
    assert_eq!(debit(200, 100), 100);
    assert_eq!(debit(100, 100), 0);
    assert_eq!(debit(-5, 10), 0);
}

#[test]
fn contains_id_finds_members() {
    assert!(contains_id(&vec![3, 4, 5], 5));
    assert!(!contains_id(&vec![3, 4, 5], 6));
    assert!(!contains_id(&vec![], 1));
}

#[test]
fn classify_gives_winning_ids_precedence() {
    assert_eq!(classify(1, &vec![1], &vec![1]), Role::Winner);
    assert_eq!(classify(2, &vec![1], &vec![2]), Role::Loser);
    assert_eq!(classify(3, &vec![1], &vec![2]), Role::Bystander);
}

#[test]
fn settle_example_two_winners_three_losers() {
    let wager = Wager { id: 1, stake: 100, closed: false };
    let ps = vec![
        user(1, 11, 500),
        user(2, 12, 300),
        user(3, 13, 80),
        user(4, 14, 200),
        user(5, 15, 1000),
    ];
    let s = settle(&wager, &ps, &vec![11, 12], &vec![13, 14, 15]).unwrap();
    assert_eq!(s.payout, 150);
    assert_eq!(s.winners.len(), 2);
    assert_eq!(s.winners[0].balance, 650);
    assert_eq!(s.winners[1].balance, 450);
    assert_eq!(s.losers.len(), 3);
    assert_eq!(s.losers[0].balance, 0);
    assert_eq!(s.losers[1].balance, 100);
    assert_eq!(s.losers[2].balance, 900);
    assert_eq!(s.wager, Wager { id: 1, stake: 100, closed: true });
}

#[test]
fn settle_without_winners_pays_nothing() {
    let wager = Wager { id: 2, stake: 100, closed: false };
    let ps = vec![user(1, 11, 500), user(2, 12, 50)];
    let s = settle(&wager, &ps, &vec![99], &vec![11, 12]).unwrap();
    assert_eq!(s.payout, 0);
    assert!(s.winners.is_empty());
    assert_eq!(s.losers[0].balance, 400);
    assert_eq!(s.losers[1].balance, 0);
}

#[test]
fn settle_leaves_out_unlisted_participants() {
    let wager = Wager { id: 3, stake: 10, closed: false };
    let ps = vec![user(1, 11, 500), user(2, 12, 500), user(3, 13, 500)];
    let s = settle(&wager, &ps, &vec![11], &vec![12]).unwrap();
    assert_eq!(s.winners.len(), 1);
    assert_eq!(s.losers.len(), 1);
    assert!(s.winners.iter().chain(s.losers.iter()).all(|u| u.external_id != 13));
}

#[test]
fn settle_refuses_closed_wager() {
    let wager = Wager { id: 4, stake: 10, closed: true };
    let ps = vec![user(1, 11, 500)];
    assert_eq!(settle(&wager, &ps, &vec![11], &vec![]).err(), Some(LedgerError::AlreadyClosed));
}

#[test]
fn settle_refuses_balance_overflow() {
    let wager = Wager { id: 5, stake: 10, closed: false };
    let ps = vec![user(1, 11, i64::MAX - 5), user(2, 12, 500)];
    assert_eq!(settle(&wager, &ps, &vec![11], &vec![12]).err(), Some(LedgerError::Overflow));
}
