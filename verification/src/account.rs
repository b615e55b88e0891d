//! Account records.

use crate::pubkey::Pubkey;
use crate::table::Value;
use vstd::prelude::*;
use vstd::std_specs::cmp::PartialEqSpecImpl;

verus! {

/// The state of one account as an update hands it over.
#[derive(Debug, Eq)]
pub struct Account {
    /// The balance; zero stands for a closed account.
    pub lamports: u64,
    /// The payload, in the format of the owning program.
    pub data: Vec<u8>,
    /// The identity of the owning program.
    pub owner: Pubkey,
    /// Whether the payload is a loaded program.
    pub executable: bool,
    /// The epoch at which the account next owes rent.
    pub rent_epoch: u64,
}

/// An account as contracts see it.
pub struct AccountView {
    pub lamports: u64,
    pub data: Seq<u8>,
    pub owner: Pubkey,
    pub executable: bool,
    pub rent_epoch: u64,
}

impl View for Account {
    type V = AccountView;

    open spec fn view(&self) -> AccountView {
        AccountView {
            lamports: self.lamports,
            data: self.data@,
            owner: self.owner,
            executable: self.executable,
            rent_epoch: self.rent_epoch,
        }
    }
}

impl Account {
    /// An account with the given balance and owner and a payload of `space` zero bytes.
    pub fn new(lamports: u64, space: usize, owner: &Pubkey) -> (account: Account)
        ensures
            account@ == (AccountView {
                lamports,
                data: Seq::new(space as nat, |i: int| 0u8),
                owner: *owner,
                executable: false,
                rent_epoch: 0,
            }),
    {
        let mut data: Vec<u8> = Vec::new();
        let mut i: usize = 0;
        while i < space
            invariant
                i <= space,
                data@ == Seq::new(i as nat, |j: int| 0u8),
            decreases space - i,
        {
            data.push(0);
            i += 1;
            assert(data@ =~= Seq::new(i as nat, |j: int| 0u8));
        }
        Account { lamports, data, owner: *owner, executable: false, rent_epoch: 0 }
    }
}

impl Clone for Account {
    fn clone(&self) -> (copy: Account)
        ensures
            copy@ == self@,
    {
        let data = self.data.clone();
        assert(data@ =~= self.data@);
        Account {
            lamports: self.lamports,
            data,
            owner: self.owner,
            executable: self.executable,
            rent_epoch: self.rent_epoch,
        }
    }
}

impl PartialEq for Account {
    /// Whether the two accounts agree in every field.
    fn eq(&self, other: &Account) -> (r: bool) {
        if self.lamports != other.lamports || self.owner != other.owner || self.executable
            != other.executable || self.rent_epoch != other.rent_epoch || self.data.len()
            != other.data.len() {
            return false;
        }
        let mut i: usize = 0;
        while i < self.data.len()
            invariant
                i <= self.data@.len(),
                self.data@.len() == other.data@.len(),
                forall|j: int| 0 <= j < i ==> self.data@[j] == other.data@[j],
            decreases self.data@.len() - i,
        {
            if self.data[i] != other.data[i] {
                return false;
            }
            i += 1;
        }
        assert(self.data@ =~= other.data@);
        true
    }
}

impl PartialEqSpecImpl for Account {
    open spec fn obeys_eq_spec() -> bool {
        true
    }

    open spec fn eq_spec(&self, other: &Account) -> bool {
        self@ == other@
    }
}

impl Value for Account {
    fn duplicate(&self) -> (copy: Account) {
        self.clone()
    }

    fn same(&self, other: &Account) -> (r: bool) {
        *self == *other
    }
}

impl Value for (u64, Account) {
    fn duplicate(&self) -> (copy: (u64, Account)) {
        (self.0, self.1.clone())
    }

    fn same(&self, other: &(u64, Account)) -> (r: bool) {
        self.0 == other.0 && self.1 == other.1
    }
}

} // verus!
