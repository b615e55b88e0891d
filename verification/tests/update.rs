use stake_cache::account::Account;
use stake_cache::pubkey::Pubkey;
use stake_cache::table::Table;
use stake_cache::update::{
    can_move_stake, delegation_of_update, move_stake, stake_toward, store_stake_account,
};

fn name(n: u8) -> Pubkey {
    Pubkey::new([n; 32])
}

fn validators(stakes: &[(u8, u64)]) -> Table<(u64, Account)> {
    let mut votes = Table::new();
    for (n, stake) in stakes.iter() {
        votes.insert(name(*n), (*stake, Account::new(1, 2, &name(200))));
    }
    votes
}

fn stake_in(votes: &Table<(u64, Account)>, n: u8) -> Option<u64> {
    votes.get(&name(n)).map(|entry| entry.0)
}

#[test]
fn stake_toward_counts_the_target_only() {
    assert_eq!(stake_toward(&Some((name(1), 40)), &name(1)), 40);
    assert_eq!(stake_toward(&Some((name(1), 40)), &name(2)), 0);
    assert_eq!(stake_toward(&Some((name(1), u64::MAX)), &name(1)), u64::MAX);
    assert_eq!(stake_toward(&None, &name(1)), 0);
}

#[test]
fn closed_update_keeps_its_target_and_delegates_nothing() {
    assert_eq!(delegation_of_update(1, Some((name(1), 40))), Some((name(1), 40)));
    assert_eq!(delegation_of_update(u64::MAX, Some((name(1), 0))), Some((name(1), 0)));
    assert_eq!(delegation_of_update(0, Some((name(1), 40))), Some((name(1), 0)));
    assert_eq!(delegation_of_update(1, None), None);
    assert_eq!(delegation_of_update(0, None), None);
}

#[test]
fn move_stake_takes_out_and_adds() {
    let mut votes = validators(&[(1, 100), (2, 1000)]);
    move_stake(&mut votes, &Some((name(1), 30)), &Some((name(2), 7)));
    assert_eq!(stake_in(&votes, 1), Some(70));
    assert_eq!(stake_in(&votes, 2), Some(1007));

    move_stake(&mut votes, &None, &Some((name(1), 5)));
    assert_eq!(stake_in(&votes, 1), Some(75));
    move_stake(&mut votes, &Some((name(2), 1007)), &None);
    assert_eq!(stake_in(&votes, 2), Some(0));

    // within one validator
    move_stake(&mut votes, &Some((name(1), 75)), &Some((name(1), u64::MAX)));
    assert_eq!(stake_in(&votes, 1), Some(u64::MAX));
    assert_eq!(votes.len(), 2);
    assert_eq!(votes.get(&name(1)).unwrap().1, Account::new(1, 2, &name(200)));
}

#[test]
fn move_stake_passes_over_unknown_targets_and_equal_delegations() {
    let mut votes = validators(&[(1, 100)]);
    move_stake(&mut votes, &Some((name(8), 30)), &Some((name(9), 7)));
    assert_eq!(stake_in(&votes, 1), Some(100));
    assert_eq!(stake_in(&votes, 8), None);
    assert_eq!(stake_in(&votes, 9), None);
    assert_eq!(votes.len(), 1);

    move_stake(&mut votes, &Some((name(1), 500)), &Some((name(1), 500)));
    assert_eq!(stake_in(&votes, 1), Some(100));
    move_stake(&mut votes, &None, &None);
    assert_eq!(stake_in(&votes, 1), Some(100));

    move_stake(&mut votes, &Some((name(8), 30)), &Some((name(1), 7)));
    assert_eq!(stake_in(&votes, 1), Some(107));
    move_stake(&mut votes, &Some((name(1), 7)), &Some((name(8), 7)));
    assert_eq!(stake_in(&votes, 1), Some(100));
}

#[test]
fn can_move_stake_tells_underflow_and_overflow() {
    let votes = validators(&[(1, 100), (2, u64::MAX - 10)]);
    assert!(can_move_stake(&votes, &Some((name(1), 100)), &None));
    assert!(!can_move_stake(&votes, &Some((name(1), 101)), &None));
    assert!(can_move_stake(&votes, &None, &Some((name(2), 10))));
    assert!(!can_move_stake(&votes, &None, &Some((name(2), 11))));
    // what leaves makes room for what joins
    assert!(can_move_stake(&votes, &Some((name(2), 5)), &Some((name(2), 15))));
    assert!(!can_move_stake(&votes, &Some((name(2), 5)), &Some((name(2), 16))));
    assert!(!can_move_stake(&votes, &Some((name(1), 5)), &Some((name(2), 15))));
    // nothing moves
    assert!(can_move_stake(&votes, &Some((name(1), 101)), &Some((name(1), 101))));
    assert!(can_move_stake(&votes, &None, &None));
    // unknown targets are passed over
    assert!(can_move_stake(&votes, &Some((name(8), 101)), &Some((name(9), u64::MAX))));
}

#[test]
fn store_stake_account_updates_both_tables() {
    let mut votes = validators(&[(1, 100), (2, 1000)]);
    let mut stakes: Table<Account> = Table::new();
    let delegator = name(50);
    let update = Account::new(3, 4, &name(201));

    store_stake_account(&mut votes, &mut stakes, &delegator, &update, &None, Some((name(1), 8)));
    assert_eq!(stake_in(&votes, 1), Some(108));
    assert_eq!(stakes.get(&delegator), Some(&update));

    let moved = Account::new(5, 6, &name(201));
    store_stake_account(
        &mut votes,
        &mut stakes,
        &delegator,
        &moved,
        &Some((name(1), 8)),
        Some((name(2), 9)),
    );
    assert_eq!(stake_in(&votes, 1), Some(100));
    assert_eq!(stake_in(&votes, 2), Some(1009));
    assert_eq!(stakes.get(&delegator), Some(&moved));
    assert_eq!(stakes.len(), 1);

    let closed = Account::new(0, 6, &name(201));
    store_stake_account(
        &mut votes,
        &mut stakes,
        &delegator,
        &closed,
        &Some((name(2), 9)),
        Some((name(2), 9)),
    );
    assert_eq!(stake_in(&votes, 2), Some(1000));
    assert_eq!(stakes.get(&delegator), None);
    assert_eq!(stakes.len(), 0);
}
