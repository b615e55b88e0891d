//! What holds of the cache whatever the updates are.

use crate::account::AccountView;
use crate::consistency::{
    lemma_fits_within_limits, lemma_stake_after_delegation, lemma_stored_consistent,
};
use crate::delegation::{contributions, delegated_stake, lemma_delegated_stake_after};
use crate::model::{
    consistent, kind_of, store_fits, stored, within_limits, AccountKind, StakesView,
};
use crate::programs::stake_delegation;
use crate::pubkey::Pubkey;
use vstd::prelude::*;

verus! {

/// The empty cache is consistent.
pub proof fn law_empty_is_consistent()
    ensures
        consistent(StakesView::empty()),
{
}

/// Storing an update keeps the cache consistent, where the sums that the update leaves
/// fit in 64 bits: the stake of every validator in the table stays the sum of the amounts
/// that the delegators in the table delegate to it, and no closed account enters either
/// table.
pub proof fn law_store_keeps_consistency(s: StakesView, key: Pubkey, a: AccountView)
    requires
        consistent(s),
        within_limits(stored(s, key, a)),
    ensures
        consistent(stored(s, key, a)),
{
    lemma_fits_within_limits(s, key, a);
    lemma_stored_consistent(s, key, a);
}

/// The sums that an update leaves fit in 64 bits just where the one stake that the update
/// computes does: the sum for a validator at its first sight, or the stake of the new
/// target of a delegation that has changed.
pub proof fn law_limits_by_update(s: StakesView, key: Pubkey, a: AccountView)
    requires
        consistent(s),
    ensures
        within_limits(stored(s, key, a)) <==> store_fits(s, key, a),
{
    lemma_fits_within_limits(s, key, a);
}

/// A validator stored into the empty cache and one delegation to it of `amount` give the
/// validator the stake `amount`, in whichever order the two accounts arrive.
pub proof fn law_one_delegation(
    voter: Pubkey,
    vote_account: AccountView,
    delegator: Pubkey,
    stake_account: AccountView,
    amount: u64,
)
    requires
        kind_of(vote_account) == AccountKind::Vote,
        vote_account.lamports != 0,
        kind_of(stake_account) == AccountKind::Stake,
        stake_account.lamports != 0,
        stake_delegation(stake_account.data) == Some((voter, amount)),
    ensures
        stored(
            stored(StakesView::empty(), voter, vote_account),
            delegator,
            stake_account,
        ).vote_accounts[voter].0 == amount,
        stored(
            stored(StakesView::empty(), delegator, stake_account),
            voter,
            vote_account,
        ).vote_accounts[voter].0 == amount,
{
    let empty = StakesView::empty();
    assert(contributions(empty.stake_accounts, voter) =~= Map::empty());
    lemma_delegated_stake_after(empty.stake_accounts, delegator, stake_account, voter);
}

/// Storing the account of a validator that the table holds, with any balance but zero,
/// leaves its stake as it is. Only the account of that validator changes.
pub proof fn law_vote_update_keeps_stake(s: StakesView, voter: Pubkey, vote_account: AccountView)
    requires
        s.vote_accounts.contains_key(voter),
        kind_of(vote_account) == AccountKind::Vote,
        vote_account.lamports != 0,
    ensures
        stored(s, voter, vote_account).vote_accounts == s.vote_accounts.insert(
            voter,
            (s.vote_accounts[voter].0, vote_account),
        ),
        stored(s, voter, vote_account).stake_accounts == s.stake_accounts,
{
}

/// Storing the account of a delegator again with another balance and the delegation that
/// it had leaves every stake as it is.
pub proof fn law_same_delegation_keeps_stakes(
    s: StakesView,
    delegator: Pubkey,
    stake_account: AccountView,
)
    requires
        s.stake_accounts.contains_key(delegator),
        kind_of(stake_account) == AccountKind::Stake,
        stake_account.lamports != 0,
        stake_delegation(stake_account.data) == stake_delegation(
            s.stake_accounts[delegator].data,
        ),
    ensures
        stored(s, delegator, stake_account).vote_accounts == s.vote_accounts,
        stored(s, delegator, stake_account).stake_accounts == s.stake_accounts.insert(
            delegator,
            stake_account,
        ),
{
}

/// A new delegation of `amount` to a validator that the table holds raises the stake of
/// that validator by `amount` and leaves every other validator's stake as it is.
pub proof fn law_new_delegation_adds(
    s: StakesView,
    delegator: Pubkey,
    stake_account: AccountView,
    voter: Pubkey,
    amount: u64,
)
    requires
        consistent(s),
        s.vote_accounts.contains_key(voter),
        !s.stake_accounts.contains_key(delegator),
        kind_of(stake_account) == AccountKind::Stake,
        stake_account.lamports != 0,
        stake_delegation(stake_account.data) == Some((voter, amount)),
        s.vote_accounts[voter].0 + amount <= u64::MAX,
    ensures
        stored(s, delegator, stake_account).vote_accounts[voter].0 == s.vote_accounts[voter].0
            + amount,
        forall|other: Pubkey|
            other != voter && s.vote_accounts.contains_key(other) ==> #[trigger] stored(
                s,
                delegator,
                stake_account,
            ).vote_accounts[other] == s.vote_accounts[other],
        stored(s, delegator, stake_account).stake_accounts == s.stake_accounts.insert(
            delegator,
            stake_account,
        ),
{
}

/// Closing a delegation of `amount` while leaving its target in place lowers the stake of
/// its validator by `amount`, and the delegator leaves the table.
pub proof fn law_closing_removes_stake(
    s: StakesView,
    delegator: Pubkey,
    closed: AccountView,
    voter: Pubkey,
    amount: u64,
)
    requires
        consistent(s),
        s.vote_accounts.contains_key(voter),
        s.stake_accounts.contains_key(delegator),
        stake_delegation(s.stake_accounts[delegator].data) == Some((voter, amount)),
        kind_of(closed) == AccountKind::Stake,
        closed.lamports == 0,
        stake_delegation(closed.data) matches Some(left) && left.0 == voter,
    ensures
        stored(s, delegator, closed).vote_accounts[voter].0 == s.vote_accounts[voter].0 - amount,
        forall|other: Pubkey|
            other != voter && s.vote_accounts.contains_key(other) ==> #[trigger] stored(
                s,
                delegator,
                closed,
            ).vote_accounts[other] == s.vote_accounts[other],
        !stored(s, delegator, closed).stake_accounts.contains_key(delegator),
{
    lemma_stake_after_delegation(s, delegator, closed, voter);
    lemma_delegated_stake_after(s.stake_accounts, delegator, closed, voter);
}

/// A zero balance takes a validator out of the table and leaves the delegators as they
/// are; storing its account again with a balance brings it back with the sum of what is
/// still delegated to it, which is the stake that it had.
pub proof fn law_validator_leaves_and_returns(
    s: StakesView,
    voter: Pubkey,
    closed: AccountView,
    reopened: AccountView,
)
    requires
        consistent(s),
        s.vote_accounts.contains_key(voter),
        kind_of(closed) == AccountKind::Vote,
        closed.lamports == 0,
        kind_of(reopened) == AccountKind::Vote,
        reopened.lamports != 0,
    ensures
        !stored(s, voter, closed).vote_accounts.contains_key(voter),
        stored(s, voter, closed).vote_accounts == s.vote_accounts.remove(voter),
        stored(s, voter, closed).stake_accounts == s.stake_accounts,
        stored(stored(s, voter, closed), voter, reopened).vote_accounts == s.vote_accounts.insert(
            voter,
            (s.vote_accounts[voter].0, reopened),
        ),
        stored(stored(s, voter, closed), voter, reopened).vote_accounts[voter].0
            == delegated_stake(s.stake_accounts, voter),
{
    assert(s.vote_accounts.remove(voter).insert(voter, (s.vote_accounts[voter].0, reopened))
        =~= s.vote_accounts.insert(voter, (s.vote_accounts[voter].0, reopened)));
}

/// A delegation of `amount` that moves from the validator `from` to the validator `to`
/// lowers the stake of the one and raises the stake of the other by `amount` in one update.
pub proof fn law_redelegation_moves_stake(
    s: StakesView,
    delegator: Pubkey,
    stake_account: AccountView,
    from: Pubkey,
    to: Pubkey,
    amount: u64,
)
    requires
        consistent(s),
        from != to,
        s.vote_accounts.contains_key(from),
        s.vote_accounts.contains_key(to),
        s.stake_accounts.contains_key(delegator),
        stake_delegation(s.stake_accounts[delegator].data) == Some((from, amount)),
        kind_of(stake_account) == AccountKind::Stake,
        stake_account.lamports != 0,
        stake_delegation(stake_account.data) == Some((to, amount)),
        s.vote_accounts[to].0 + amount <= u64::MAX,
    ensures
        stored(s, delegator, stake_account).vote_accounts[from].0 == s.vote_accounts[from].0
            - amount,
        stored(s, delegator, stake_account).vote_accounts[to].0 == s.vote_accounts[to].0 + amount,
        forall|other: Pubkey|
            other != from && other != to && s.vote_accounts.contains_key(other)
                ==> #[trigger] stored(s, delegator, stake_account).vote_accounts[other]
                == s.vote_accounts[other],
{
    lemma_stake_after_delegation(s, delegator, stake_account, from);
    lemma_delegated_stake_after(s.stake_accounts, delegator, stake_account, from);
    lemma_stake_after_delegation(s, delegator, stake_account, to);
    lemma_delegated_stake_after(s.stake_accounts, delegator, stake_account, to);
}

/// Two delegators that each delegate `amount` to a validator stored into the empty cache
/// give it the stake of twice `amount`.
pub proof fn law_two_delegators(
    voter: Pubkey,
    vote_account: AccountView,
    first: Pubkey,
    first_account: AccountView,
    second: Pubkey,
    second_account: AccountView,
    amount: u64,
)
    requires
        first != second,
        kind_of(vote_account) == AccountKind::Vote,
        vote_account.lamports != 0,
        kind_of(first_account) == AccountKind::Stake,
        first_account.lamports != 0,
        stake_delegation(first_account.data) == Some((voter, amount)),
        kind_of(second_account) == AccountKind::Stake,
        second_account.lamports != 0,
        stake_delegation(second_account.data) == Some((voter, amount)),
        2 * amount <= u64::MAX,
    ensures
        stored(
            stored(stored(StakesView::empty(), voter, vote_account), first, first_account),
            second,
            second_account,
        ).vote_accounts[voter].0 == 2 * amount,
{
    let empty = StakesView::empty();
    assert(contributions(empty.stake_accounts, voter) =~= Map::empty());
    let s1 = stored(empty, voter, vote_account);
    lemma_stored_consistent(empty, voter, vote_account);
    law_new_delegation_adds(s1, first, first_account, voter, amount);
    let s2 = stored(s1, first, first_account);
    lemma_stored_consistent(s1, first, first_account);
    law_new_delegation_adds(s2, second, second_account, voter, amount);
}

/// An account of a program other than the vote and the stake program changes neither table.
pub proof fn law_other_accounts_are_ignored(s: StakesView, key: Pubkey, a: AccountView)
    requires
        kind_of(a) == AccountKind::Other,
    ensures
        stored(s, key, a) == s,
{
}

} // verus!
