//! What the update of a delegator's account does to the two tables, given what the
//! payloads decode to.

use crate::account::Account;
use crate::delegation::{amount_for, stakes_after, update_delegation};
use crate::model::{credit, debit, move_fits, moved};
use crate::pubkey::Pubkey;
use crate::table::Table;
use vstd::prelude::*;

verus! {

/// What `delegation` adds to the stake of `voter`.
pub fn stake_toward(delegation: &Option<(Pubkey, u64)>, voter: &Pubkey) -> (amount: u64)
    ensures
        amount == amount_for(*delegation, *voter),
{
    match delegation {
        Some((target, amount)) => if *target == *voter {
            *amount
        } else {
            0
        },
        None => 0,
    }
}

/// The delegation that an update with the balance `lamports` stands for when its payload
/// holds `decoded`.
pub fn delegation_of_update(lamports: u64, decoded: Option<(Pubkey, u64)>) -> (r: Option<
    (Pubkey, u64),
>)
    ensures
        r == update_delegation(lamports, decoded),
{
    if lamports != 0 {
        decoded
    } else {
        match decoded {
            Some((voter, _)) => Some((voter, 0)),
            None => None,
        }
    }
}

/// Whether two delegations are the same, an absent one being the same as an absent one only.
fn same_delegation(a: &Option<(Pubkey, u64)>, b: &Option<(Pubkey, u64)>) -> (r: bool)
    ensures
        r == (*a == *b),
{
    match (a, b) {
        (Some((voter_a, amount_a)), Some((voter_b, amount_b))) => *voter_a == *voter_b
            && *amount_a == *amount_b,
        (None, None) => true,
        _ => false,
    }
}

/// Takes `amount` out of the stake of `target`, where the table holds `target`.
fn debit_stake(votes: &mut Table<(u64, Account)>, target: &Pubkey, amount: u64)
    requires
        old(votes)@.contains_key(*target) ==> amount <= old(votes)@[*target].0,
    ensures
        final(votes)@ == debit(old(votes)@, Some((*target, amount))),
{
    match votes.remove(target) {
        Some((stake, account)) => {
            votes.insert_new(*target, (stake - amount, account));
            assert(final(votes)@ =~= debit(old(votes)@, Some((*target, amount))));
        },
        None => {},
    }
}

/// Adds `amount` to the stake of `target`, where the table holds `target`.
fn credit_stake(votes: &mut Table<(u64, Account)>, target: &Pubkey, amount: u64)
    requires
        old(votes)@.contains_key(*target) ==> old(votes)@[*target].0 + amount <= u64::MAX,
    ensures
        final(votes)@ == credit(old(votes)@, Some((*target, amount))),
{
    match votes.remove(target) {
        Some((stake, account)) => {
            votes.insert_new(*target, (stake + amount, account));
            assert(final(votes)@ =~= credit(old(votes)@, Some((*target, amount))));
        },
        None => {},
    }
}

/// Whether the stakes of `votes` stay within 64 bits while a delegation changes from `from`
/// to `to`.
pub fn can_move_stake(
    votes: &Table<(u64, Account)>,
    from: &Option<(Pubkey, u64)>,
    to: &Option<(Pubkey, u64)>,
) -> (r: bool)
    ensures
        r == move_fits(votes@, *from, *to),
{
    if same_delegation(from, to) {
        return true;
    }
    let covered = match from {
        Some((target, amount)) => match votes.get(target) {
            Some(entry) => *amount <= entry.0,
            None => true,
        },
        None => true,
    };
    if !covered {
        return false;
    }
    match to {
        Some((target, amount)) => match votes.get(target) {
            Some(entry) => {
                let leaving = stake_toward(from, target);
                (entry.0 - leaving).checked_add(*amount).is_some()
            },
            None => true,
        },
        None => true,
    }
}

/// Moves stake in `votes` as the change of a delegation from `from` to `to` asks: out of
/// the stake of the target of `from` and into the stake of the target of `to`, each where
/// the table holds the target, and nothing where the two delegations are the same.
pub fn move_stake(
    votes: &mut Table<(u64, Account)>,
    from: &Option<(Pubkey, u64)>,
    to: &Option<(Pubkey, u64)>,
)
    requires
        move_fits(old(votes)@, *from, *to),
    ensures
        final(votes)@ == moved(old(votes)@, *from, *to),
{
    // if adjustments need to be made...
    if !same_delegation(to, from) {
        if let Some((old_voter, old_amount)) = from {
            debit_stake(votes, old_voter, *old_amount);
        }
        if let Some((voter, amount)) = to {
            credit_stake(votes, voter, *amount);
        }
    }
}

/// Stores the update `account` of the delegator `pubkey` in the two tables, given the
/// delegation `recorded` that the former payload of the delegator holds and the delegation
/// `decoded` that the payload of `account` holds.
pub fn store_stake_account(
    votes: &mut Table<(u64, Account)>,
    stakes: &mut Table<Account>,
    pubkey: &Pubkey,
    account: &Account,
    recorded: &Option<(Pubkey, u64)>,
    decoded: Option<(Pubkey, u64)>,
)
    requires
        move_fits(old(votes)@, *recorded, update_delegation(account.lamports, decoded)),
    ensures
        final(votes)@ == moved(
            old(votes)@,
            *recorded,
            update_delegation(account.lamports, decoded),
        ),
        final(stakes)@ == stakes_after(old(stakes)@, *pubkey, account@),
{
    let stake = delegation_of_update(account.lamports, decoded);
    move_stake(votes, recorded, &stake);
    if account.lamports == 0 {
        stakes.remove(pubkey);
    } else {
        stakes.insert(*pubkey, account.clone());
    }
}

} // verus!
