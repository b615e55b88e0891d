use solana_sdk::account::Account as ChainAccount;
use solana_sdk::account_utils::StateMut;
use solana_sdk::pubkey::Pubkey as ChainPubkey;
use solana_sdk::stake::state::{Delegation, Meta, Stake, StakeState};
use stake_cache::account::Account;
use stake_cache::pubkey::Pubkey;
use stake_cache::stakes::Stakes;
use stake_cache::AccountKind;

fn key(pubkey: &ChainPubkey) -> Pubkey {
    Pubkey::new(pubkey.to_bytes())
}

fn account(account: &ChainAccount) -> Account {
    Account {
        lamports: account.lamports,
        data: account.data.clone(),
        owner: key(&account.owner),
        executable: account.executable,
        rent_epoch: account.rent_epoch,
    }
}

fn new_rand() -> Pubkey {
    key(&solana_sdk::pubkey::new_rand())
}

fn chain_key(pubkey: &Pubkey) -> ChainPubkey {
    ChainPubkey::new_from_array(pubkey.to_bytes())
}

fn create_vote_account(lamports: u64) -> Account {
    account(&ChainAccount::new(lamports, 200, &solana_sdk::vote::program::id()))
}

//  set up some dummies  for a staked node    ((     vote      )  (     stake     ))
fn create_staked_node_accounts(stake: u64) -> ((Pubkey, Account), (Pubkey, Account)) {
    let vote_pubkey = new_rand();
    let vote_account = create_vote_account(1);
    (
        (vote_pubkey, vote_account),
        create_stake_account(stake, &vote_pubkey),
    )
}

//   add stake to a vote_pubkey                               (   stake    )
fn create_stake_account(stake: u64, vote_pubkey: &Pubkey) -> (Pubkey, Account) {
    let mut stake_account = ChainAccount::new(
        stake,
        std::mem::size_of::<StakeState>(),
        &solana_sdk::stake::program::id(),
    );
    let delegation = Delegation {
        voter_pubkey: chain_key(vote_pubkey),
        stake,
        ..Delegation::default()
    };
    stake_account
        .set_state(&StakeState::Stake(
            Meta::default(),
            Stake {
                delegation,
                credits_observed: 0,
            },
        ))
        .expect("set_state");
    (new_rand(), account(&stake_account))
}

#[test]
fn test_stakes_basic() {
    let mut stakes = Stakes::default();

    let ((vote_pubkey, vote_account), (stake_pubkey, mut stake_account)) =
        create_staked_node_accounts(10);

    stakes.store(&vote_pubkey, &vote_account);
    stakes.store(&stake_pubkey, &stake_account);

    {
        let vote_accounts = stakes.vote_accounts();
        assert!(vote_accounts.get(&vote_pubkey).is_some());
        assert_eq!(vote_accounts.get(&vote_pubkey).unwrap().0, 10);
    }

    stake_account.lamports = 42;
    stakes.store(&stake_pubkey, &stake_account);
    {
        let vote_accounts = stakes.vote_accounts();
        assert!(vote_accounts.get(&vote_pubkey).is_some());
        assert_eq!(vote_accounts.get(&vote_pubkey).unwrap().0, 10); // stays old stake, because only 10 is activated
    }

    // activate more
    let (_stake_pubkey, mut stake_account) = create_stake_account(42, &vote_pubkey);
    stakes.store(&stake_pubkey, &stake_account);
    {
        let vote_accounts = stakes.vote_accounts();
        assert!(vote_accounts.get(&vote_pubkey).is_some());
        assert_eq!(vote_accounts.get(&vote_pubkey).unwrap().0, 42); // now stake of 42 is activated
    }

    stake_account.lamports = 0;
    stakes.store(&stake_pubkey, &stake_account);
    {
        let vote_accounts = stakes.vote_accounts();
        assert!(vote_accounts.get(&vote_pubkey).is_some());
        assert_eq!(vote_accounts.get(&vote_pubkey).unwrap().0, 0);
    }
}

#[test]
fn test_stakes_vote_account_disappear_reappear() {
    let mut stakes = Stakes::default();

    let ((vote_pubkey, mut vote_account), (stake_pubkey, stake_account)) =
        create_staked_node_accounts(10);

    stakes.store(&vote_pubkey, &vote_account);
    stakes.store(&stake_pubkey, &stake_account);

    {
        let vote_accounts = stakes.vote_accounts();
        assert!(vote_accounts.get(&vote_pubkey).is_some());
        assert_eq!(vote_accounts.get(&vote_pubkey).unwrap().0, 10);
    }

    vote_account.lamports = 0;
    stakes.store(&vote_pubkey, &vote_account);

    {
        let vote_accounts = stakes.vote_accounts();
        assert!(vote_accounts.get(&vote_pubkey).is_none());
    }
    vote_account.lamports = 1;
    stakes.store(&vote_pubkey, &vote_account);

    {
        let vote_accounts = stakes.vote_accounts();
        assert!(vote_accounts.get(&vote_pubkey).is_some());
        assert_eq!(vote_accounts.get(&vote_pubkey).unwrap().0, 10);
    }
}

#[test]
fn test_stakes_change_delegate() {
    let mut stakes = Stakes::default();

    let ((vote_pubkey, vote_account), (stake_pubkey, stake_account)) =
        create_staked_node_accounts(10);

    let ((vote_pubkey2, vote_account2), (_stake_pubkey2, stake_account2)) =
        create_staked_node_accounts(10);

    stakes.store(&vote_pubkey, &vote_account);
    stakes.store(&vote_pubkey2, &vote_account2);

    // delegates to vote_pubkey
    stakes.store(&stake_pubkey, &stake_account);

    {
        let vote_accounts = stakes.vote_accounts();
        assert!(vote_accounts.get(&vote_pubkey).is_some());
        assert_eq!(vote_accounts.get(&vote_pubkey).unwrap().0, 10);
        assert!(vote_accounts.get(&vote_pubkey2).is_some());
        assert_eq!(vote_accounts.get(&vote_pubkey2).unwrap().0, 0);
    }

    // delegates to vote_pubkey2
    stakes.store(&stake_pubkey, &stake_account2);

    {
        let vote_accounts = stakes.vote_accounts();
        assert!(vote_accounts.get(&vote_pubkey).is_some());
        assert_eq!(vote_accounts.get(&vote_pubkey).unwrap().0, 0);
        assert!(vote_accounts.get(&vote_pubkey2).is_some());
        assert_eq!(vote_accounts.get(&vote_pubkey2).unwrap().0, 10);
    }
}

#[test]
fn test_stakes_multiple_stakers() {
    let mut stakes = Stakes::default();

    let ((vote_pubkey, vote_account), (stake_pubkey, stake_account)) =
        create_staked_node_accounts(10);

    let (stake_pubkey2, stake_account2) = create_stake_account(10, &vote_pubkey);

    stakes.store(&vote_pubkey, &vote_account);

    // delegates to vote_pubkey
    stakes.store(&stake_pubkey, &stake_account);
    stakes.store(&stake_pubkey2, &stake_account2);

    {
        let vote_accounts = stakes.vote_accounts();
        assert!(vote_accounts.get(&vote_pubkey).is_some());
        assert_eq!(vote_accounts.get(&vote_pubkey).unwrap().0, 20);
    }
}

#[test]
fn test_stakes_not_delegate() {
    let mut stakes = Stakes::default();

    let ((vote_pubkey, vote_account), (stake_pubkey, stake_account)) =
        create_staked_node_accounts(10);

    stakes.store(&vote_pubkey, &vote_account);
    stakes.store(&stake_pubkey, &stake_account);

    {
        let vote_accounts = stakes.vote_accounts();
        assert!(vote_accounts.get(&vote_pubkey).is_some());
        assert_eq!(vote_accounts.get(&vote_pubkey).unwrap().0, 10);
    }

    // not a stake account, and whacks above entry
    stakes.store(
        &stake_pubkey,
        &Account::new(1, 0, &key(&solana_sdk::stake::program::id())),
    );
    {
        let vote_accounts = stakes.vote_accounts();
        assert!(vote_accounts.get(&vote_pubkey).is_some());
        assert_eq!(vote_accounts.get(&vote_pubkey).unwrap().0, 0);
    }
}

fn stake_of(stakes: &Stakes, vote_pubkey: &Pubkey) -> Option<u64> {
    stakes.vote_accounts().get(vote_pubkey).map(|entry| entry.0)
}

fn stake_state_account(lamports: u64, state: &StakeState) -> Account {
    let mut stake_account = ChainAccount::new(
        lamports,
        std::mem::size_of::<StakeState>(),
        &solana_sdk::stake::program::id(),
    );
    stake_account.set_state(state).expect("set_state");
    account(&stake_account)
}

fn delegating(lamports: u64, vote_pubkey: &Pubkey, stake: u64) -> Account {
    let delegation = Delegation {
        voter_pubkey: chain_key(vote_pubkey),
        stake,
        ..Delegation::default()
    };
    stake_state_account(
        lamports,
        &StakeState::Stake(
            Meta::default(),
            Stake {
                delegation,
                credits_observed: 0,
            },
        ),
    )
}

#[test]
fn one_delegation_gives_its_amount() {
    let mut stakes = Stakes::new();
    let vote_pubkey = new_rand();
    stakes.store(&vote_pubkey, &create_vote_account(1));
    assert_eq!(stake_of(&stakes, &vote_pubkey), Some(0));
    stakes.store(&new_rand(), &delegating(5, &vote_pubkey, 7_000_000_000));
    assert_eq!(stake_of(&stakes, &vote_pubkey), Some(7_000_000_000));
}

#[test]
fn delegation_before_validator_is_counted_at_first_sight() {
    let mut stakes = Stakes::new();
    let vote_pubkey = new_rand();
    stakes.store(&new_rand(), &delegating(1, &vote_pubkey, 31));
    stakes.store(&new_rand(), &delegating(1, &vote_pubkey, 11));
    stakes.store(&new_rand(), &delegating(1, &new_rand(), 1000));
    // the validator has no entry before its own account is seen
    assert_eq!(stake_of(&stakes, &vote_pubkey), None);
    assert_eq!(stakes.vote_accounts().len(), 0);
    assert_eq!(stakes.stake_accounts().len(), 3);
    stakes.store(&vote_pubkey, &create_vote_account(1));
    assert_eq!(stake_of(&stakes, &vote_pubkey), Some(42));
    assert_eq!(stakes.vote_accounts().len(), 1);
}

#[test]
fn vote_account_update_keeps_the_stake_and_takes_the_account() {
    let mut stakes = Stakes::new();
    let vote_pubkey = new_rand();
    stakes.store(&vote_pubkey, &create_vote_account(1));
    stakes.store(&new_rand(), &delegating(10, &vote_pubkey, 10));
    let mut update = create_vote_account(77);
    update.data[3] = 9;
    stakes.store(&vote_pubkey, &update);
    let vote_accounts = stakes.vote_accounts();
    let entry = vote_accounts.get(&vote_pubkey).unwrap();
    assert_eq!(entry.0, 10);
    assert_eq!(entry.1, update);
    assert_eq!(entry.1.lamports, 77);
}

#[test]
fn second_delegation_adds_its_amount() {
    let mut stakes = Stakes::new();
    let vote_pubkey = new_rand();
    let other_vote_pubkey = new_rand();
    stakes.store(&vote_pubkey, &create_vote_account(1));
    stakes.store(&other_vote_pubkey, &create_vote_account(1));
    stakes.store(&new_rand(), &delegating(10, &vote_pubkey, 10));
    stakes.store(&new_rand(), &delegating(32, &vote_pubkey, 32));
    assert_eq!(stake_of(&stakes, &vote_pubkey), Some(42));
    assert_eq!(stake_of(&stakes, &other_vote_pubkey), Some(0));
}

#[test]
fn closing_a_delegation_takes_its_amount_out() {
    let mut stakes = Stakes::new();
    let vote_pubkey = new_rand();
    let first = new_rand();
    let second = new_rand();
    stakes.store(&vote_pubkey, &create_vote_account(1));
    stakes.store(&first, &delegating(10, &vote_pubkey, 10));
    stakes.store(&second, &delegating(32, &vote_pubkey, 32));
    assert_eq!(stake_of(&stakes, &vote_pubkey), Some(42));
    assert!(stakes.stake_accounts().contains_key(&first));

    stakes.store(&first, &delegating(0, &vote_pubkey, 10));
    assert_eq!(stake_of(&stakes, &vote_pubkey), Some(32));
    assert!(!stakes.stake_accounts().contains_key(&first));
    assert!(stakes.stake_accounts().contains_key(&second));
    assert_eq!(stakes.stake_accounts().len(), 1);
}

#[test]
fn closing_with_an_undecodable_payload_still_takes_the_old_amount_out() {
    let mut stakes = Stakes::new();
    let vote_pubkey = new_rand();
    let delegator = new_rand();
    stakes.store(&vote_pubkey, &create_vote_account(1));
    stakes.store(&delegator, &delegating(10, &vote_pubkey, 10));
    stakes.store(
        &delegator,
        &Account::new(0, 0, &key(&solana_sdk::stake::program::id())),
    );
    assert_eq!(stake_of(&stakes, &vote_pubkey), Some(0));
    assert!(!stakes.stake_accounts().contains_key(&delegator));
}

#[test]
fn validator_leaves_and_returns_with_what_is_still_delegated() {
    let mut stakes = Stakes::new();
    let vote_pubkey = new_rand();
    let delegator = new_rand();
    stakes.store(&vote_pubkey, &create_vote_account(1));
    stakes.store(&delegator, &delegating(10, &vote_pubkey, 10));

    stakes.store(&vote_pubkey, &create_vote_account(0));
    assert_eq!(stake_of(&stakes, &vote_pubkey), None);
    assert!(!stakes.vote_accounts().contains_key(&vote_pubkey));
    assert!(stakes.stake_accounts().contains_key(&delegator));

    // what changes while the validator is away is counted when it returns
    stakes.store(&new_rand(), &delegating(5, &vote_pubkey, 5));
    stakes.store(&vote_pubkey, &create_vote_account(3));
    assert_eq!(stake_of(&stakes, &vote_pubkey), Some(15));
}

#[test]
fn zero_balance_for_an_unknown_account_changes_nothing() {
    let mut stakes = Stakes::new();
    let vote_pubkey = new_rand();
    stakes.store(&vote_pubkey, &create_vote_account(1));
    stakes.store(&new_rand(), &create_vote_account(0));
    stakes.store(&new_rand(), &delegating(0, &vote_pubkey, 10));
    assert_eq!(stakes.vote_accounts().len(), 1);
    assert_eq!(stakes.stake_accounts().len(), 0);
    assert_eq!(stake_of(&stakes, &vote_pubkey), Some(0));
}

#[test]
fn redelegation_moves_the_stake() {
    let mut stakes = Stakes::new();
    let from = new_rand();
    let to = new_rand();
    let delegator = new_rand();
    stakes.store(&from, &create_vote_account(1));
    stakes.store(&to, &create_vote_account(1));
    stakes.store(&new_rand(), &delegating(1, &from, 100));
    stakes.store(&new_rand(), &delegating(1, &to, 1000));
    stakes.store(&delegator, &delegating(1, &from, 7));
    assert_eq!(stake_of(&stakes, &from), Some(107));
    assert_eq!(stake_of(&stakes, &to), Some(1000));
    stakes.store(&delegator, &delegating(1, &to, 7));
    assert_eq!(stake_of(&stakes, &from), Some(100));
    assert_eq!(stake_of(&stakes, &to), Some(1007));
}

#[test]
fn delegation_that_changes_its_amount_at_the_same_validator() {
    let mut stakes = Stakes::new();
    let vote_pubkey = new_rand();
    let delegator = new_rand();
    stakes.store(&vote_pubkey, &create_vote_account(1));
    stakes.store(&new_rand(), &delegating(1, &vote_pubkey, 100));
    stakes.store(&delegator, &delegating(1, &vote_pubkey, 7));
    stakes.store(&delegator, &delegating(1, &vote_pubkey, u64::MAX - 100));
    assert_eq!(stake_of(&stakes, &vote_pubkey), Some(u64::MAX));
    stakes.store(&delegator, &delegating(1, &vote_pubkey, 0));
    assert_eq!(stake_of(&stakes, &vote_pubkey), Some(100));
}

#[test]
fn delegation_to_an_unknown_validator_creates_no_entry() {
    let mut stakes = Stakes::new();
    let known = new_rand();
    let unknown = new_rand();
    let delegator = new_rand();
    stakes.store(&known, &create_vote_account(1));
    stakes.store(&delegator, &delegating(1, &unknown, 10));
    assert_eq!(stake_of(&stakes, &unknown), None);
    assert_eq!(stake_of(&stakes, &known), Some(0));
    // moving to the known validator adds there and finds nothing to take out
    stakes.store(&delegator, &delegating(1, &known, 10));
    assert_eq!(stake_of(&stakes, &unknown), None);
    assert_eq!(stake_of(&stakes, &known), Some(10));
    // moving back takes out and finds nothing to add to
    stakes.store(&delegator, &delegating(1, &unknown, 10));
    assert_eq!(stake_of(&stakes, &unknown), None);
    assert_eq!(stake_of(&stakes, &known), Some(0));
}

#[test]
fn two_delegators_add_up() {
    let mut stakes = Stakes::new();
    let vote_pubkey = new_rand();
    stakes.store(&vote_pubkey, &create_vote_account(1));
    stakes.store(&new_rand(), &delegating(1, &vote_pubkey, 21));
    stakes.store(&new_rand(), &delegating(1, &vote_pubkey, 21));
    assert_eq!(stake_of(&stakes, &vote_pubkey), Some(42));
}

#[test]
fn account_of_another_program_changes_nothing() {
    let mut stakes = Stakes::new();
    let vote_pubkey = new_rand();
    let delegator = new_rand();
    stakes.store(&vote_pubkey, &create_vote_account(1));
    stakes.store(&delegator, &delegating(1, &vote_pubkey, 10));

    let system = key(&solana_sdk::system_program::id());
    let mut foreign = delegating(1, &vote_pubkey, 99);
    foreign.owner = system;
    stakes.store(&vote_pubkey, &foreign);
    stakes.store(&delegator, &foreign);
    stakes.store(&new_rand(), &foreign);
    foreign.lamports = 0;
    stakes.store(&vote_pubkey, &foreign);
    stakes.store(&delegator, &foreign);

    assert_eq!(stakes.vote_accounts().len(), 1);
    assert_eq!(stakes.stake_accounts().len(), 1);
    assert_eq!(stake_of(&stakes, &vote_pubkey), Some(10));
    assert_eq!(
        stakes.vote_accounts().get(&vote_pubkey).unwrap().1,
        create_vote_account(1)
    );
    assert_eq!(
        stakes.stake_accounts().get(&delegator),
        Some(&delegating(1, &vote_pubkey, 10))
    );
}

#[test]
fn scenario_of_two_delegators_and_an_overwritten_identity() {
    let mut stakes = Stakes::new();
    let v = new_rand();
    let d1 = new_rand();
    let d2 = new_rand();

    stakes.store(&v, &create_vote_account(1));
    // no delegation yet: nothing is delegated to the validator
    assert_eq!(stake_of(&stakes, &v), Some(0));

    stakes.store(&d1, &delegating(10, &v, 10));
    assert_eq!(stake_of(&stakes, &v), Some(10));

    stakes.store(&d2, &delegating(10, &v, 10));
    assert_eq!(stake_of(&stakes, &v), Some(20));

    stakes.store(&d1, &delegating(0, &v, 10));
    assert_eq!(stake_of(&stakes, &v), Some(10));

    // an account that holds no delegation, at the identity of the closed delegator
    stakes.store(&d1, &Account::new(1, 0, &key(&solana_sdk::system_program::id())));
    assert_eq!(stake_of(&stakes, &v), Some(10));
    stakes.store(&d1, &Account::new(1, 0, &key(&solana_sdk::stake::program::id())));
    assert_eq!(stake_of(&stakes, &v), Some(10));
}

#[test]
fn stake_states_without_a_delegation_delegate_nothing() {
    let mut stakes = Stakes::new();
    let vote_pubkey = new_rand();
    let delegator = new_rand();
    stakes.store(&vote_pubkey, &create_vote_account(1));
    stakes.store(&delegator, &delegating(10, &vote_pubkey, 10));
    assert_eq!(stake_of(&stakes, &vote_pubkey), Some(10));

    stakes.store(&delegator, &stake_state_account(10, &StakeState::Uninitialized));
    assert_eq!(stake_of(&stakes, &vote_pubkey), Some(0));
    stakes.store(&delegator, &delegating(10, &vote_pubkey, 10));
    stakes.store(
        &delegator,
        &stake_state_account(10, &StakeState::Initialized(Meta::default())),
    );
    assert_eq!(stake_of(&stakes, &vote_pubkey), Some(0));
    stakes.store(&delegator, &delegating(10, &vote_pubkey, 10));
    stakes.store(&delegator, &stake_state_account(10, &StakeState::RewardsPool));
    assert_eq!(stake_of(&stakes, &vote_pubkey), Some(0));

    // a payload cut short does not decode
    let mut short = delegating(10, &vote_pubkey, 10);
    short.data.truncate(50);
    stakes.store(&delegator, &short);
    assert_eq!(stake_of(&stakes, &vote_pubkey), Some(0));
    assert_eq!(stakes.stake_accounts().get(&delegator), Some(&short));
}

#[test]
fn delegation_is_read_from_the_payload_alone() {
    let mut stakes = Stakes::new();
    let vote_pubkey = new_rand();
    stakes.store(&vote_pubkey, &create_vote_account(1));
    let mut stake_account = delegating(123, &vote_pubkey, 10);
    stake_account.executable = true;
    stake_account.rent_epoch = 17;
    stakes.store(&new_rand(), &stake_account);
    assert_eq!(stake_of(&stakes, &vote_pubkey), Some(10));
}

#[test]
fn try_store_refuses_a_delegation_that_overflows() {
    let mut stakes = Stakes::new();
    let vote_pubkey = new_rand();
    let delegator = new_rand();
    assert!(stakes.try_store(&vote_pubkey, &create_vote_account(1)));
    assert!(stakes.try_store(&new_rand(), &delegating(1, &vote_pubkey, u64::MAX - 5)));
    assert!(stakes.try_store(&delegator, &delegating(1, &vote_pubkey, 5)));
    assert_eq!(stake_of(&stakes, &vote_pubkey), Some(u64::MAX));

    assert!(!stakes.try_store(&new_rand(), &delegating(1, &vote_pubkey, 1)));
    assert!(!stakes.try_store(&delegator, &delegating(1, &vote_pubkey, 6)));
    assert_eq!(stake_of(&stakes, &vote_pubkey), Some(u64::MAX));
    assert_eq!(stakes.stake_accounts().len(), 2);
    assert_eq!(
        stakes.stake_accounts().get(&delegator),
        Some(&delegating(1, &vote_pubkey, 5))
    );

    // what leaves in the same update makes room
    assert!(stakes.try_store(&delegator, &delegating(1, &vote_pubkey, 4)));
    assert_eq!(stake_of(&stakes, &vote_pubkey), Some(u64::MAX - 1));
}

#[test]
fn try_store_refuses_a_validator_whose_delegations_overflow() {
    let mut stakes = Stakes::new();
    let vote_pubkey = new_rand();
    let delegator = new_rand();
    assert!(stakes.try_store(&new_rand(), &delegating(1, &vote_pubkey, u64::MAX)));
    assert!(stakes.try_store(&delegator, &delegating(1, &vote_pubkey, 1)));
    assert!(!stakes.try_store(&vote_pubkey, &create_vote_account(1)));
    assert_eq!(stake_of(&stakes, &vote_pubkey), None);
    assert_eq!(stakes.vote_accounts().len(), 0);

    assert!(stakes.try_store(&delegator, &delegating(0, &vote_pubkey, 1)));
    assert!(stakes.try_store(&vote_pubkey, &create_vote_account(1)));
    assert_eq!(stake_of(&stakes, &vote_pubkey), Some(u64::MAX));
}

#[test]
fn try_store_stores_as_store_does() {
    let mut tried = Stakes::new();
    let mut stored = Stakes::new();
    let vote_pubkey = new_rand();
    let delegator = new_rand();
    let updates = vec![
        (delegator, delegating(1, &vote_pubkey, 3)),
        (vote_pubkey, create_vote_account(1)),
        (new_rand(), delegating(1, &vote_pubkey, 4)),
        (delegator, delegating(0, &vote_pubkey, 3)),
        (new_rand(), Account::new(1, 8, &new_rand())),
    ];
    for (pubkey, update) in updates.iter() {
        assert!(tried.try_store(pubkey, update));
        stored.store(pubkey, update);
        assert_eq!(stake_of(&tried, &vote_pubkey), stake_of(&stored, &vote_pubkey));
        assert_eq!(tried.stake_accounts().len(), stored.stake_accounts().len());
    }
    assert_eq!(stake_of(&tried, &vote_pubkey), Some(4));
}

#[test]
fn accounts_are_classified_by_their_owner() {
    let vote = create_vote_account(1);
    let stake = delegating(1, &new_rand(), 1);
    let other = Account::new(1, 0, &key(&solana_sdk::system_program::id()));
    assert_eq!(Stakes::classify(&vote), AccountKind::Vote);
    assert_eq!(Stakes::classify(&stake), AccountKind::Stake);
    assert_eq!(Stakes::classify(&other), AccountKind::Other);
    assert!(Stakes::is_stake(&vote));
    assert!(Stakes::is_stake(&stake));
    assert!(!Stakes::is_stake(&other));

    // one byte off the identity of a program is another owner
    let mut bytes = solana_sdk::vote::program::id().to_bytes();
    bytes[31] ^= 1;
    assert!(!Stakes::is_stake(&Account::new(1, 0, &Pubkey::new(bytes))));
    let mut bytes = solana_sdk::stake::program::id().to_bytes();
    bytes[0] ^= 0x80;
    assert_eq!(
        Stakes::classify(&Account::new(1, 0, &Pubkey::new(bytes))),
        AccountKind::Other
    );
    // the balance and the payload play no part
    assert!(Stakes::is_stake(&create_vote_account(0)));
    assert!(Stakes::is_stake(&Account::new(0, 0, &key(&solana_sdk::stake::program::id()))));
}

#[test]
fn program_identities_are_the_documented_bytes() {
    let vote: [u8; 32] = [
        7, 97, 72, 29, 53, 116, 116, 187, 124, 77, 118, 36, 235, 211, 189, 179, 216, 53, 94, 115,
        209, 16, 67, 252, 13, 163, 83, 128, 0, 0, 0, 0,
    ];
    let stake: [u8; 32] = [
        6, 161, 216, 23, 145, 55, 84, 42, 152, 52, 55, 189, 254, 42, 122, 178, 85, 127, 83, 92,
        138, 120, 114, 43, 104, 164, 157, 192, 0, 0, 0, 0,
    ];
    assert_eq!(solana_sdk::vote::program::id().to_bytes(), vote);
    assert_eq!(solana_sdk::stake::program::id().to_bytes(), stake);
    assert_eq!(
        Stakes::classify(&Account::new(1, 0, &Pubkey::new(vote))),
        AccountKind::Vote
    );
    assert_eq!(
        Stakes::classify(&Account::new(1, 0, &Pubkey::new(stake))),
        AccountKind::Stake
    );
}

#[test]
fn default_is_the_empty_cache() {
    let stakes = Stakes::default();
    assert_eq!(stakes.vote_accounts().len(), 0);
    assert_eq!(stakes.stake_accounts().len(), 0);
    assert!(stakes.vote_accounts().get(&new_rand()).is_none());
}

#[test]
fn clone_is_equal_and_independent() {
    let mut stakes = Stakes::new();
    let vote_pubkey = new_rand();
    let delegator = new_rand();
    stakes.store(&vote_pubkey, &create_vote_account(1));
    stakes.store(&delegator, &delegating(1, &vote_pubkey, 10));
    let mut copy = stakes.clone();
    assert!(copy == stakes);
    assert_eq!(stake_of(&copy, &vote_pubkey), Some(10));
    assert_eq!(
        copy.stake_accounts().get(&delegator),
        Some(&delegating(1, &vote_pubkey, 10))
    );
    copy.store(&delegator, &delegating(1, &vote_pubkey, 11));
    assert!(copy != stakes);
    assert_eq!(stake_of(&copy, &vote_pubkey), Some(11));
    assert_eq!(stake_of(&stakes, &vote_pubkey), Some(10));
}

#[test]
fn caches_are_equal_whatever_the_order_of_the_updates() {
    let vote_pubkey = new_rand();
    let other_vote_pubkey = new_rand();
    let updates = vec![
        (vote_pubkey, create_vote_account(1)),
        (new_rand(), delegating(1, &vote_pubkey, 3)),
        (other_vote_pubkey, create_vote_account(2)),
        (new_rand(), delegating(1, &other_vote_pubkey, 4)),
        (new_rand(), delegating(1, &vote_pubkey, 5)),
    ];
    let mut forward = Stakes::new();
    for (pubkey, update) in updates.iter() {
        forward.store(pubkey, update);
    }
    let mut backward = Stakes::new();
    for (pubkey, update) in updates.iter().rev() {
        backward.store(pubkey, update);
    }
    assert!(forward == backward);
    assert_eq!(stake_of(&backward, &vote_pubkey), Some(8));
    assert_eq!(stake_of(&backward, &other_vote_pubkey), Some(4));
    assert!(forward != Stakes::new());
    assert!(Stakes::new() == Stakes::default());
}

#[test]
fn stake_is_the_sum_of_the_delegations_after_many_updates() {
    let mut stakes = Stakes::new();
    let voters: Vec<Pubkey> = (0..5).map(|_| new_rand()).collect();
    let delegators: Vec<Pubkey> = (0..40).map(|_| new_rand()).collect();
    let mut delegations: Vec<Option<(usize, u64)>> = vec![None; delegators.len()];
    let mut known = vec![false; voters.len()];
    let mut seed: u64 = 12345;
    for _ in 0..2000 {
        seed = seed.wrapping_mul(6364136223846793005).wrapping_add(1442695040888963407);
        let pick = (seed >> 33) as usize;
        let amount = (seed >> 20) % 1000;
        match pick % 7 {
            0 => {
                let v = pick / 7 % voters.len();
                stakes.store(&voters[v], &create_vote_account(1));
                known[v] = true;
            }
            1 => {
                let v = pick / 7 % voters.len();
                if pick / 70 % 4 == 0 {
                    stakes.store(&voters[v], &create_vote_account(0));
                    known[v] = false;
                }
            }
            2 => {
                let d = pick / 7 % delegators.len();
                let v = delegations[d].map(|(v, _)| v).unwrap_or(0);
                stakes.store(&delegators[d], &delegating(0, &voters[v], amount));
                delegations[d] = None;
            }
            _ => {
                let d = pick / 7 % delegators.len();
                let v = pick / 700 % voters.len();
                stakes.store(&delegators[d], &delegating(1, &voters[v], amount));
                delegations[d] = Some((v, amount));
            }
        }
        for (v, voter) in voters.iter().enumerate() {
            let sum: u64 = delegations
                .iter()
                .map(|d| match d {
                    Some((target, amount)) if *target == v => *amount,
                    _ => 0,
                })
                .sum();
            assert_eq!(stake_of(&stakes, voter), if known[v] { Some(sum) } else { None });
        }
        let held = delegations.iter().filter(|d| d.is_some()).count();
        assert_eq!(stakes.stake_accounts().len(), held);
    }
}
