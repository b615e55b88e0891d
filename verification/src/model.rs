//! The cache as contracts see it: two maps, and what one update does to them.

use crate::account::AccountView;
use crate::delegation::{
    amount_for, delegated_stake, incoming_delegation, recorded_delegation, stakes_after,
};
use crate::programs::{is_stake_program, is_vote_program};
use crate::pubkey::Pubkey;
use vstd::prelude::*;

verus! {

/// The two tables of the cache.
pub struct StakesView {
    /// For each validator: the stake delegated to it and its latest account.
    pub vote_accounts: Map<Pubkey, (u64, AccountView)>,
    /// For each delegator: its latest account.
    pub stake_accounts: Map<Pubkey, AccountView>,
}

impl StakesView {
    /// The cache that holds no account.
    pub open spec fn empty() -> StakesView {
        StakesView { vote_accounts: Map::empty(), stake_accounts: Map::empty() }
    }
}

/// The category of an account, by its owning program.
#[derive(Clone, Copy, Debug, PartialEq, Eq, Structural)]
pub enum AccountKind {
    /// Owned by the vote program: the account of a validator.
    Vote,
    /// Owned by the stake program: the account of a delegator.
    Stake,
    /// Owned by any other program.
    Other,
}

/// The category of the account `a`.
pub open spec fn kind_of(a: AccountView) -> AccountKind {
    if is_vote_program(a.owner) {
        AccountKind::Vote
    } else if is_stake_program(a.owner) {
        AccountKind::Stake
    } else {
        AccountKind::Other
    }
}

/// The vote table after the amount of `delegation` has left the stake of its target.
/// A target that the table does not hold is passed over.
pub open spec fn debit(
    votes: Map<Pubkey, (u64, AccountView)>,
    delegation: Option<(Pubkey, u64)>,
) -> Map<Pubkey, (u64, AccountView)> {
    match delegation {
        Some((target, amount)) => if votes.contains_key(target) {
            votes.insert(target, ((votes[target].0 - amount) as u64, votes[target].1))
        } else {
            votes
        },
        None => votes,
    }
}

/// The vote table after the amount of `delegation` has joined the stake of its target.
/// A target that the table does not hold is passed over.
pub open spec fn credit(
    votes: Map<Pubkey, (u64, AccountView)>,
    delegation: Option<(Pubkey, u64)>,
) -> Map<Pubkey, (u64, AccountView)> {
    match delegation {
        Some((target, amount)) => if votes.contains_key(target) {
            votes.insert(target, ((votes[target].0 + amount) as u64, votes[target].1))
        } else {
            votes
        },
        None => votes,
    }
}

/// The vote table after a delegation has changed from `from` to `to`: the amount of `from`
/// has left the stake of its target and the amount of `to` has joined the stake of its
/// target, unless the two are the same.
pub open spec fn moved(
    votes: Map<Pubkey, (u64, AccountView)>,
    from: Option<(Pubkey, u64)>,
    to: Option<(Pubkey, u64)>,
) -> Map<Pubkey, (u64, AccountView)> {
    if from != to {
        credit(debit(votes, from), to)
    } else {
        votes
    }
}

/// Whether the stakes of `votes` stay within 64 bits while a delegation changes from `from`
/// to `to`: the target of `from` has the amount that leaves, and the target of `to` has
/// room for the amount that joins.
pub open spec fn move_fits(
    votes: Map<Pubkey, (u64, AccountView)>,
    from: Option<(Pubkey, u64)>,
    to: Option<(Pubkey, u64)>,
) -> bool {
    from != to ==> {
        &&& from matches Some(leaving) ==> votes.contains_key(leaving.0) ==> leaving.1
            <= votes[leaving.0].0
        &&& to matches Some(joining) ==> votes.contains_key(joining.0) ==> debit(
            votes,
            from,
        )[joining.0].0 + joining.1 <= u64::MAX
    }
}

/// The cache `s` after the update `a` of the account `key` has been stored.
pub open spec fn stored(s: StakesView, key: Pubkey, a: AccountView) -> StakesView {
    if is_vote_program(a.owner) {
        if a.lamports == 0 {
            StakesView { vote_accounts: s.vote_accounts.remove(key), ..s }
        } else {
            let stake = if s.vote_accounts.contains_key(key) {
                s.vote_accounts[key].0
            } else {
                delegated_stake(s.stake_accounts, key) as u64
            };
            StakesView { vote_accounts: s.vote_accounts.insert(key, (stake, a)), ..s }
        }
    } else if is_stake_program(a.owner) {
        StakesView {
            vote_accounts: moved(
                s.vote_accounts,
                recorded_delegation(s.stake_accounts, key),
                incoming_delegation(a),
            ),
            stake_accounts: stakes_after(s.stake_accounts, key, a),
        }
    } else {
        s
    }
}

/// Whether the stake of every validator of `s` is the sum of the amounts delegated to it,
/// and neither table holds a closed account or an account of another program.
pub open spec fn consistent(s: StakesView) -> bool {
    &&& s.vote_accounts.dom().finite()
    &&& s.stake_accounts.dom().finite()
    &&& forall|k: Pubkey| #[trigger]
        s.vote_accounts.contains_key(k) ==> {
            &&& s.vote_accounts[k].1.lamports != 0
            &&& is_vote_program(s.vote_accounts[k].1.owner)
            &&& s.vote_accounts[k].0 == delegated_stake(s.stake_accounts, k)
        }
    &&& forall|k: Pubkey| #[trigger]
        s.stake_accounts.contains_key(k) ==> {
            &&& s.stake_accounts[k].lamports != 0
            &&& is_stake_program(s.stake_accounts[k].owner)
        }
}

/// Whether the sum of the amounts delegated to each validator of `s` fits in 64 bits.
pub open spec fn within_limits(s: StakesView) -> bool {
    forall|k: Pubkey| #[trigger]
        s.vote_accounts.contains_key(k) ==> delegated_stake(s.stake_accounts, k) <= u64::MAX
}

/// Whether storing the update `a` of the account `key` in `s` keeps every stake that it
/// computes within 64 bits.
pub open spec fn store_fits(s: StakesView, key: Pubkey, a: AccountView) -> bool {
    if is_vote_program(a.owner) {
        a.lamports != 0 && !s.vote_accounts.contains_key(key) ==> delegated_stake(
            s.stake_accounts,
            key,
        ) <= u64::MAX
    } else if is_stake_program(a.owner) {
        let old = recorded_delegation(s.stake_accounts, key);
        let new = incoming_delegation(a);
        old != new ==> match new {
            Some((target, amount)) => s.vote_accounts.contains_key(target)
                ==> s.vote_accounts[target].0 - amount_for(old, target) + amount <= u64::MAX,
            None => true,
        }
    } else {
        true
    }
}

} // verus!
