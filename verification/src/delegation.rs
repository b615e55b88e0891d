//! The stake that the delegators of a table delegate to one validator.

use crate::account::AccountView;
use crate::listing::{lemma_lists_drop_last, lists};
use crate::programs::stake_delegation;
use crate::pubkey::Pubkey;
use crate::sum::{lemma_total_insert, lemma_total_remove, total};
use vstd::prelude::*;

verus! {

/// The delegation that an update with the balance `lamports` stands for when its payload
/// holds `decoded`. An account with a balance stands for what its payload holds; a closed
/// one keeps its target and delegates nothing.
pub open spec fn update_delegation(lamports: u64, decoded: Option<(Pubkey, u64)>) -> Option<
    (Pubkey, u64),
> {
    if lamports != 0 {
        decoded
    } else {
        match decoded {
            Some((target, _)) => Some((target, 0u64)),
            None => None,
        }
    }
}

/// The delegation that the update `a` of a delegator's account stands for.
pub open spec fn incoming_delegation(a: AccountView) -> Option<(Pubkey, u64)> {
    update_delegation(a.lamports, stake_delegation(a.data))
}

/// The delegation that the table holds for the delegator `key`.
pub open spec fn recorded_delegation(stakes: Map<Pubkey, AccountView>, key: Pubkey) -> Option<
    (Pubkey, u64),
> {
    if stakes.contains_key(key) {
        stake_delegation(stakes[key].data)
    } else {
        None
    }
}

/// What `delegation` adds to the stake of `voter`.
pub open spec fn amount_for(delegation: Option<(Pubkey, u64)>, voter: Pubkey) -> nat {
    match delegation {
        Some((target, amount)) => if target == voter {
            amount as nat
        } else {
            0
        },
        None => 0,
    }
}

/// What the delegator's account `a` adds to the stake of `voter`.
pub open spec fn contribution(a: AccountView, voter: Pubkey) -> nat {
    amount_for(stake_delegation(a.data), voter)
}

/// What each delegator of `stakes` adds to the stake of `voter`.
pub open spec fn contributions(stakes: Map<Pubkey, AccountView>, voter: Pubkey) -> Map<
    Pubkey,
    nat,
> {
    Map::new(|k: Pubkey| stakes.contains_key(k), |k: Pubkey| contribution(stakes[k], voter))
}

/// The sum of the amounts that the delegators of `stakes` delegate to `voter`.
pub open spec fn delegated_stake(stakes: Map<Pubkey, AccountView>, voter: Pubkey) -> nat {
    total(contributions(stakes, voter))
}

/// The table of delegators after an update of the account `key`.
pub open spec fn stakes_after(stakes: Map<Pubkey, AccountView>, key: Pubkey, a: AccountView) -> Map<
    Pubkey,
    AccountView,
> {
    if a.lamports == 0 {
        stakes.remove(key)
    } else {
        stakes.insert(key, a)
    }
}

/// The sum of what the accounts of `entries` add to the stake of `voter`.
pub open spec fn listed_stake(entries: Seq<(Pubkey, AccountView)>, voter: Pubkey) -> nat
    decreases entries.len(),
{
    if entries.len() == 0 {
        0
    } else {
        listed_stake(entries.drop_last(), voter) + contribution(entries.last().1, voter)
    }
}

/// The contributions of a table with one more or one changed account.
pub proof fn lemma_contributions_insert(
    stakes: Map<Pubkey, AccountView>,
    voter: Pubkey,
    key: Pubkey,
    a: AccountView,
)
    ensures
        contributions(stakes.insert(key, a), voter) == contributions(stakes, voter).insert(
            key,
            contribution(a, voter),
        ),
{
    assert(contributions(stakes.insert(key, a), voter) =~= contributions(stakes, voter).insert(
        key,
        contribution(a, voter),
    ));
}

/// The contributions of a table without one account.
pub proof fn lemma_contributions_remove(
    stakes: Map<Pubkey, AccountView>,
    voter: Pubkey,
    key: Pubkey,
)
    ensures
        contributions(stakes.remove(key), voter) == contributions(stakes, voter).remove(key),
{
    assert(contributions(stakes.remove(key), voter) =~= contributions(stakes, voter).remove(
        key,
    ));
}

/// What one delegator adds to a stake is part of that stake.
pub proof fn lemma_contribution_bounded(
    stakes: Map<Pubkey, AccountView>,
    voter: Pubkey,
    key: Pubkey,
)
    requires
        stakes.dom().finite(),
        stakes.contains_key(key),
    ensures
        delegated_stake(stakes, voter) == contribution(stakes[key], voter) + delegated_stake(
            stakes.remove(key),
            voter,
        ),
{
    assert(contributions(stakes, voter).dom() =~= stakes.dom());
    lemma_total_remove(contributions(stakes, voter), key);
    lemma_contributions_remove(stakes, voter, key);
}

/// A listing of a table adds up to the delegated stake.
pub proof fn lemma_listed_stake(
    entries: Seq<(Pubkey, AccountView)>,
    stakes: Map<Pubkey, AccountView>,
    voter: Pubkey,
)
    requires
        lists(entries, stakes),
    ensures
        stakes.dom().finite(),
        listed_stake(entries, voter) == delegated_stake(stakes, voter),
    decreases entries.len(),
{
    if entries.len() == 0 {
        assert(stakes.dom() =~= Set::empty());
        assert(contributions(stakes, voter) =~= Map::empty());
    } else {
        let key = entries.last().0;
        let rest = entries.drop_last();
        let fewer = stakes.remove(key);
        lemma_lists_drop_last(entries, stakes);
        lemma_listed_stake(rest, fewer, voter);
        assert(stakes.dom() =~= fewer.dom().insert(key));
        lemma_contribution_bounded(stakes, voter, key);
    }
}

/// A part of a listing adds up to no more than the whole.
pub proof fn lemma_listed_stake_grows(entries: Seq<(Pubkey, AccountView)>, voter: Pubkey, n: int)
    requires
        0 <= n <= entries.len(),
    ensures
        listed_stake(entries.take(n), voter) <= listed_stake(entries, voter),
    decreases entries.len() - n,
{
    if n == entries.len() {
        assert(entries.take(n) =~= entries);
    } else {
        lemma_listed_stake_grows(entries, voter, n + 1);
        assert(entries.take(n + 1).drop_last() =~= entries.take(n));
    }
}

/// An update of one delegator's account moves each stake by what the account added to it
/// before and what it adds now.
pub proof fn lemma_delegated_stake_after(
    stakes: Map<Pubkey, AccountView>,
    key: Pubkey,
    a: AccountView,
    voter: Pubkey,
)
    requires
        stakes.dom().finite(),
    ensures
        delegated_stake(stakes_after(stakes, key, a), voter) + amount_for(
            recorded_delegation(stakes, key),
            voter,
        ) == delegated_stake(stakes, voter) + amount_for(incoming_delegation(a), voter),
{
    assert(contributions(stakes, voter).dom() =~= stakes.dom());
    if stakes.contains_key(key) {
        lemma_contribution_bounded(stakes, voter, key);
    } else {
        assert(stakes.remove(key) =~= stakes);
    }
    if a.lamports != 0 {
        lemma_contributions_insert(stakes, voter, key, a);
        lemma_total_insert(contributions(stakes, voter), key, contribution(a, voter));
        lemma_contributions_remove(stakes, voter, key);
    }
}

} // verus!
