//! Storing an update keeps the cache consistent.

use crate::account::AccountView;
use crate::delegation::{
    amount_for, delegated_stake, incoming_delegation, lemma_contribution_bounded,
    lemma_delegated_stake_after, recorded_delegation, stakes_after,
};
use crate::model::{
    consistent, credit, debit, move_fits, store_fits, stored, within_limits, StakesView,
};
use crate::programs::{is_stake_program, is_vote_program};
use crate::pubkey::Pubkey;
use vstd::prelude::*;

verus! {

/// In a consistent cache the stake of a validator covers what any one delegator adds to it.
pub proof fn lemma_recorded_amount_bounded(s: StakesView, key: Pubkey, voter: Pubkey)
    requires
        consistent(s),
        s.vote_accounts.contains_key(voter),
    ensures
        amount_for(recorded_delegation(s.stake_accounts, key), voter) <= s.vote_accounts[voter].0,
{
    if s.stake_accounts.contains_key(key) {
        lemma_contribution_bounded(s.stake_accounts, voter, key);
    }
}

/// In a consistent cache the update of a delegator's account moves stake within 64 bits
/// just where the update fits.
pub proof fn lemma_move_fits(s: StakesView, key: Pubkey, a: AccountView)
    requires
        consistent(s),
    ensures
        !is_vote_program(a.owner) && is_stake_program(a.owner) ==> (move_fits(
            s.vote_accounts,
            recorded_delegation(s.stake_accounts, key),
            incoming_delegation(a),
        ) <==> store_fits(s, key, a)),
{
    let old = recorded_delegation(s.stake_accounts, key);
    let new = incoming_delegation(a);
    if let Some(leaving) = old {
        if s.vote_accounts.contains_key(leaving.0) {
            lemma_recorded_amount_bounded(s, key, leaving.0);
        }
    }
    if let Some(joining) = new {
        if s.vote_accounts.contains_key(joining.0) {
            lemma_recorded_amount_bounded(s, key, joining.0);
        }
    }
}

/// The stake that an update of a delegator's account leaves with each validator, where the
/// update fits.
pub proof fn lemma_stake_after_delegation(s: StakesView, key: Pubkey, a: AccountView, voter: Pubkey)
    requires
        consistent(s),
        store_fits(s, key, a),
        !is_vote_program(a.owner),
        is_stake_program(a.owner),
        s.vote_accounts.contains_key(voter),
    ensures
        stored(s, key, a).vote_accounts.contains_key(voter),
        stored(s, key, a).vote_accounts[voter].1 == s.vote_accounts[voter].1,
        stored(s, key, a).vote_accounts[voter].0 == delegated_stake(
            stakes_after(s.stake_accounts, key, a),
            voter,
        ),
{
    let old = recorded_delegation(s.stake_accounts, key);
    let new = incoming_delegation(a);
    lemma_delegated_stake_after(s.stake_accounts, key, a, voter);
    lemma_recorded_amount_bounded(s, key, voter);
    if old != new {
        let debited = debit(s.vote_accounts, old);
        assert(debited.contains_key(voter));
        assert(debited[voter].0 == s.vote_accounts[voter].0 - amount_for(old, voter));
        assert(debited[voter].1 == s.vote_accounts[voter].1);
        match new {
            Some((target, amount)) => {
                if target == voter {
                    lemma_recorded_amount_bounded(s, key, target);
                    assert(debited[target].0 + amount <= u64::MAX);
                }
            },
            None => {},
        }
    }
}

/// Storing an update that fits keeps the cache consistent.
pub proof fn lemma_stored_consistent(s: StakesView, key: Pubkey, a: AccountView)
    requires
        consistent(s),
        store_fits(s, key, a),
    ensures
        consistent(stored(s, key, a)),
{
    let t = stored(s, key, a);
    if is_vote_program(a.owner) {
    } else if is_stake_program(a.owner) {
        assert(t.vote_accounts.dom() =~= s.vote_accounts.dom()) by {
            let old = recorded_delegation(s.stake_accounts, key);
            let new = incoming_delegation(a);
            assert(debit(s.vote_accounts, old).dom() =~= s.vote_accounts.dom());
            assert(credit(debit(s.vote_accounts, old), new).dom() =~= s.vote_accounts.dom());
        }
        assert forall|k: Pubkey| #[trigger] t.vote_accounts.contains_key(k) implies {
            &&& t.vote_accounts[k].1.lamports != 0
            &&& is_vote_program(t.vote_accounts[k].1.owner)
            &&& t.vote_accounts[k].0 == delegated_stake(t.stake_accounts, k)
        } by {
            assert(s.vote_accounts.contains_key(k));
            lemma_stake_after_delegation(s, key, a, k);
        }
    }
}

/// In a consistent cache an update fits just where the stakes that it leaves are within
/// 64 bits.
pub proof fn lemma_fits_within_limits(s: StakesView, key: Pubkey, a: AccountView)
    requires
        consistent(s),
    ensures
        store_fits(s, key, a) <==> within_limits(stored(s, key, a)),
{
    let t = stored(s, key, a);
    if store_fits(s, key, a) {
        lemma_stored_consistent(s, key, a);
    }
    if within_limits(t) && !store_fits(s, key, a) {
        if is_vote_program(a.owner) {
            assert(t.vote_accounts.contains_key(key));
        } else if is_stake_program(a.owner) {
            let old = recorded_delegation(s.stake_accounts, key);
            let new = incoming_delegation(a);
            let (target, amount) = new->0;
            assert(debit(s.vote_accounts, old).dom() =~= s.vote_accounts.dom());
            assert(credit(debit(s.vote_accounts, old), new).dom() =~= s.vote_accounts.dom());
            assert(t.vote_accounts.contains_key(target));
            lemma_delegated_stake_after(s.stake_accounts, key, a, target);
        }
    }
}

} // verus!
