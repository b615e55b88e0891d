//! The cache of vote and stake accounts from which the stake of each validator derives.

use crate::account::Account;
use crate::consistency::{lemma_fits_within_limits, lemma_move_fits, lemma_stored_consistent};
use crate::delegation::{
    delegated_stake, lemma_listed_stake, lemma_listed_stake_grows, listed_stake,
    recorded_delegation,
};
use crate::model::{
    consistent, kind_of, store_fits, stored, within_limits, AccountKind, StakesView,
};
use crate::programs::{
    decode_delegation, is_stake_program, is_vote_program, stake_check_id, stake_delegation,
    vote_check_id,
};
use crate::pubkey::Pubkey;
use crate::table::Table;
use crate::update::{can_move_stake, delegation_of_update, stake_toward, store_stake_account};
use vstd::prelude::*;
use vstd::std_specs::cmp::PartialEqSpecImpl;

verus! {

/// The stake delegated to each validator, kept up to date one account update at a time.
#[derive(Debug)]
pub struct Stakes {
    /// For each validator: the stake delegated to it and its latest account.
    vote_accounts: Table<(u64, Account)>,
    /// For each delegator: its latest account.
    stake_accounts: Table<Account>,
}

impl View for Stakes {
    type V = StakesView;

    closed spec fn view(&self) -> StakesView {
        StakesView { vote_accounts: self.vote_accounts@, stake_accounts: self.stake_accounts@ }
    }
}

impl Stakes {
    #[verifier::type_invariant]
    spec fn is_consistent(&self) -> bool {
        consistent(self@)
    }

    /// The empty cache.
    pub fn new() -> (stakes: Stakes)
        ensures
            stakes@ == StakesView::empty(),
    {
        Stakes { vote_accounts: Table::new(), stake_accounts: Table::new() }
    }

    /// The recorded delegation of the delegator `pubkey`.
    fn delegation_on_record(&self, pubkey: &Pubkey) -> (r: Option<(Pubkey, u64)>)
        ensures
            r == recorded_delegation(self@.stake_accounts, *pubkey),
    {
        match self.stake_accounts.get(pubkey) {
            Some(account) => decode_delegation(&account.data),
            None => None,
        }
    }

    /// Sums the stakes that point to `voter`.
    fn calculate_stake(&self, voter: &Pubkey) -> (stake: u64)
        requires
            delegated_stake(self@.stake_accounts, *voter) <= u64::MAX,
        ensures
            stake == delegated_stake(self@.stake_accounts, *voter),
    {
        let n = self.stake_accounts.len();
        let ghost entries = self.stake_accounts.listing();
        proof {
            lemma_listed_stake(entries, self@.stake_accounts, *voter);
        }
        let mut stake: u64 = 0;
        let mut i: usize = 0;
        while i < n
            invariant
                i <= n,
                n == entries.len(),
                entries == self.stake_accounts.listing(),
                stake == listed_stake(entries.take(i as int), *voter),
                listed_stake(entries, *voter) <= u64::MAX,
            decreases n - i,
        {
            let account = self.stake_accounts.value_at(i);
            let amount = stake_toward(&decode_delegation(&account.data), voter);
            proof {
                assert(entries.take(i + 1).drop_last() =~= entries.take(i as int));
                lemma_listed_stake_grows(entries, *voter, i + 1);
            }
            stake = stake + amount;
            i += 1;
        }
        assert(entries.take(n as int) =~= entries);
        stake
    }

    /// Sums the stakes that point to `voter`, where the sum fits in 64 bits.
    fn checked_calculate_stake(&self, voter: &Pubkey) -> (stake: Option<u64>)
        ensures
            match stake {
                Some(sum) => sum == delegated_stake(self@.stake_accounts, *voter),
                None => delegated_stake(self@.stake_accounts, *voter) > u64::MAX,
            },
    {
        let n = self.stake_accounts.len();
        let ghost entries = self.stake_accounts.listing();
        proof {
            lemma_listed_stake(entries, self@.stake_accounts, *voter);
        }
        let mut stake: u64 = 0;
        let mut i: usize = 0;
        while i < n
            invariant
                i <= n,
                n == entries.len(),
                entries == self.stake_accounts.listing(),
                stake == listed_stake(entries.take(i as int), *voter),
                listed_stake(entries, *voter) == delegated_stake(self@.stake_accounts, *voter),
            decreases n - i,
        {
            let account = self.stake_accounts.value_at(i);
            let amount = stake_toward(&decode_delegation(&account.data), voter);
            proof {
                assert(entries.take(i + 1).drop_last() =~= entries.take(i as int));
                lemma_listed_stake_grows(entries, *voter, i + 1);
            }
            match stake.checked_add(amount) {
                Some(sum) => {
                    stake = sum;
                },
                None => {
                    return None;
                },
            }
            i += 1;
        }
        assert(entries.take(n as int) =~= entries);
        Some(stake)
    }

    /// The category of `account`, by its owning program.
    pub fn classify(account: &Account) -> (kind: AccountKind)
        ensures
            kind == kind_of(account@),
    {
        if vote_check_id(&account.owner) {
            AccountKind::Vote
        } else if stake_check_id(&account.owner) {
            AccountKind::Stake
        } else {
            AccountKind::Other
        }
    }

    /// Whether the cache takes note of `account`: whether the vote program or the stake
    /// program owns it.
    pub fn is_stake(account: &Account) -> (r: bool)
        ensures
            r == (is_vote_program(account.owner) || is_stake_program(account.owner)),
            r == (kind_of(account@) != AccountKind::Other),
    {
        vote_check_id(&account.owner) || stake_check_id(&account.owner)
    }

    /// The table of validators: for each the stake delegated to it and its latest account.
    pub fn vote_accounts(&self) -> (table: &Table<(u64, Account)>)
        ensures
            table@ == self@.vote_accounts,
            consistent(self@),
    {
        proof {
            use_type_invariant(self);
        }
        &self.vote_accounts
    }

    /// The table of delegators: for each its latest account.
    pub fn stake_accounts(&self) -> (table: &Table<Account>)
        ensures
            table@ == self@.stake_accounts,
            consistent(self@),
    {
        proof {
            use_type_invariant(self);
        }
        &self.stake_accounts
    }

    /// Takes the validator `pubkey` out of the table.
    fn remove_vote_account(&mut self, pubkey: &Pubkey)
        ensures
            final(self)@ == (StakesView {
                vote_accounts: old(self)@.vote_accounts.remove(*pubkey),
                ..old(self)@
            }),
    {
        proof {
            use_type_invariant(&*self);
        }
        let mut votes: Table<(u64, Account)> = Table::new();
        std::mem::swap(&mut votes, &mut self.vote_accounts);
        votes.remove(pubkey);
        self.vote_accounts = votes;
    }

    /// Sets the stake and the account of the validator `pubkey`.
    fn insert_vote_account(&mut self, pubkey: &Pubkey, stake: u64, account: &Account)
        requires
            kind_of(account@) == AccountKind::Vote,
            account.lamports != 0,
            stake == delegated_stake(old(self)@.stake_accounts, *pubkey),
        ensures
            final(self)@ == (StakesView {
                vote_accounts: old(self)@.vote_accounts.insert(*pubkey, (stake, account@)),
                ..old(self)@
            }),
    {
        proof {
            use_type_invariant(&*self);
        }
        let mut votes: Table<(u64, Account)> = Table::new();
        std::mem::swap(&mut votes, &mut self.vote_accounts);
        votes.insert(*pubkey, (stake, account.clone()));
        self.vote_accounts = votes;
    }

    /// Stores the update `account` of the delegator `pubkey`, given what the former and
    /// the new payload of the delegator decode to.
    fn update_stake_account(
        &mut self,
        pubkey: &Pubkey,
        account: &Account,
        recorded: &Option<(Pubkey, u64)>,
        decoded: Option<(Pubkey, u64)>,
    )
        requires
            kind_of(account@) == AccountKind::Stake,
            *recorded == recorded_delegation(old(self)@.stake_accounts, *pubkey),
            decoded == stake_delegation(account.data@),
            store_fits(old(self)@, *pubkey, account@),
        ensures
            final(self)@ == stored(old(self)@, *pubkey, account@),
    {
        proof {
            use_type_invariant(&*self);
            lemma_move_fits(self@, *pubkey, account@);
            lemma_stored_consistent(self@, *pubkey, account@);
        }
        let mut votes: Table<(u64, Account)> = Table::new();
        std::mem::swap(&mut votes, &mut self.vote_accounts);
        let mut stakes: Table<Account> = Table::new();
        std::mem::swap(&mut stakes, &mut self.stake_accounts);
        store_stake_account(&mut votes, &mut stakes, pubkey, account, recorded, decoded);
        self.stake_accounts = stakes;
        self.vote_accounts = votes;
    }

    /// Stores the update `account` of the account `pubkey`.
    ///
    /// The account of a validator takes the stake that the table holds for the validator
    /// or, at its first sight, the sum of what the delegators in the table delegate to it;
    /// a zero balance takes the validator out. The account of a delegator moves stake from
    /// the target that it had to the target that it has, each where the table holds the
    /// target; a zero balance takes the delegator out. Any other account changes nothing.
    ///
    /// The stakes that the update leaves must fit in 64 bits; `try_store` tells whether
    /// they do.
    pub fn store(&mut self, pubkey: &Pubkey, account: &Account)
        requires
            within_limits(stored(old(self)@, *pubkey, account@)),
        ensures
            final(self)@ == stored(old(self)@, *pubkey, account@),
            consistent(final(self)@),
            kind_of(account@) == AccountKind::Other ==> final(self)@ == old(self)@,
    {
        proof {
            use_type_invariant(&*self);
            lemma_fits_within_limits(self@, *pubkey, account@);
            lemma_stored_consistent(self@, *pubkey, account@);
        }
        if vote_check_id(&account.owner) {
            if account.lamports == 0 {
                self.remove_vote_account(pubkey);
            } else {
                // update the stake of this entry
                let stake = match self.vote_accounts.get(pubkey) {
                    Some(entry) => entry.0,
                    None => self.calculate_stake(pubkey),
                };
                self.insert_vote_account(pubkey, stake, account);
            }
        } else if stake_check_id(&account.owner) {
            // the delegation that the account held before this update, and the one in it
            let recorded = self.delegation_on_record(pubkey);
            let decoded = decode_delegation(&account.data);
            self.update_stake_account(pubkey, account, &recorded, decoded);
        }
    }

    /// Stores the update `account` of the account `pubkey` where the stakes that this
    /// leaves fit in 64 bits, and says whether it did. Otherwise the cache stays as it is.
    pub fn try_store(&mut self, pubkey: &Pubkey, account: &Account) -> (done: bool)
        ensures
            done == within_limits(stored(old(self)@, *pubkey, account@)),
            done ==> final(self)@ == stored(old(self)@, *pubkey, account@),
            !done ==> final(self)@ == old(self)@,
            consistent(final(self)@),
    {
        proof {
            use_type_invariant(&*self);
            lemma_fits_within_limits(self@, *pubkey, account@);
            if store_fits(self@, *pubkey, account@) {
                lemma_stored_consistent(self@, *pubkey, account@);
            }
        }
        if vote_check_id(&account.owner) {
            if account.lamports == 0 {
                self.remove_vote_account(pubkey);
            } else {
                let known = match self.vote_accounts.get(pubkey) {
                    Some(entry) => Some(entry.0),
                    None => self.checked_calculate_stake(pubkey),
                };
                match known {
                    Some(stake) => {
                        self.insert_vote_account(pubkey, stake, account);
                    },
                    None => {
                        return false;
                    },
                }
            }
        } else if stake_check_id(&account.owner) {
            let recorded = self.delegation_on_record(pubkey);
            let decoded = decode_delegation(&account.data);
            proof {
                lemma_move_fits(self@, *pubkey, account@);
            }
            let stake = delegation_of_update(account.lamports, decoded);
            if !can_move_stake(&self.vote_accounts, &recorded, &stake) {
                return false;
            }
            self.update_stake_account(pubkey, account, &recorded, decoded);
        }
        true
    }
}

impl Clone for Stakes {
    fn clone(&self) -> (copy: Stakes)
        ensures
            copy@ == self@,
    {
        proof {
            use_type_invariant(self);
        }
        Stakes {
            vote_accounts: self.vote_accounts.clone(),
            stake_accounts: self.stake_accounts.clone(),
        }
    }
}

impl PartialEq for Stakes {
    /// Whether the two caches hold the same tables.
    fn eq(&self, other: &Stakes) -> (r: bool) {
        self.vote_accounts == other.vote_accounts && self.stake_accounts == other.stake_accounts
    }
}

impl PartialEqSpecImpl for Stakes {
    open spec fn obeys_eq_spec() -> bool {
        true
    }

    open spec fn eq_spec(&self, other: &Stakes) -> bool {
        self@ == other@
    }
}

impl Default for Stakes {
    /// The empty cache.
    fn default() -> (stakes: Stakes)
        ensures
            stakes@ == StakesView::empty(),
    {
        Stakes::new()
    }
}

} // verus!
