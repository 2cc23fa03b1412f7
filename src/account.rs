use vstd::prelude::*;

use crate::address::{copy_bytes, system_id, Address};

verus! {

/// The state held under one address.
#[derive(Clone, Debug, PartialEq, Eq)]
pub struct Account {
    /// Native value units held.
    pub balance: u64,
    /// The program allowed to change `data` and to debit `balance`.
    pub owner: Address,
    /// Bytes that the owner interprets.
    pub data: Vec<u8>,
    /// Whether the account holds program code.
    pub executable: bool,
}

/// What an account holds, as mathematical values.
pub struct AccountModel {
    pub balance: u64,
    pub owner: Seq<u8>,
    pub data: Seq<u8>,
    pub executable: bool,
}

impl View for Account {
    type V = AccountModel;

    open spec fn view(&self) -> AccountModel {
        AccountModel {
            balance: self.balance,
            owner: self.owner@,
            data: self.data@,
            executable: self.executable,
        }
    }
}

/// The state that an address without an account is seen to have: no balance,
/// owned by the system namespace, no data.
pub open spec fn empty_model() -> AccountModel {
    AccountModel { balance: 0, owner: system_id(), data: Seq::empty(), executable: false }
}

impl Account {
    pub fn new(balance: u64, owner: Address, data: Vec<u8>, executable: bool) -> (r: Account)
        ensures
            r@ == (AccountModel { balance, owner: owner@, data: data@, executable }),
    {
        Account { balance, owner, data, executable }
    }

    /// A system-owned account with no data and no balance.
    pub fn empty() -> (r: Account)
        ensures
            r@ == empty_model(),
    {
        let r = Account { balance: 0, owner: Address::system(), data: Vec::new(), executable: false };
        assert(r@.data =~= Seq::<u8>::empty());
        r
    }

    /// A copy of the account.
    pub fn duplicate(&self) -> (r: Account)
        ensures
            r@ == self@,
    {
        Account {
            balance: self.balance,
            owner: self.owner,
            data: copy_bytes(&self.data),
            executable: self.executable,
        }
    }

    /// Whether the two accounts hold the same state.
    pub fn same_state(&self, other: &Account) -> (r: bool)
        ensures
            r == (self@ == other@),
    {
        if self.balance != other.balance || self.executable != other.executable || self.owner
            != other.owner || self.data.len() != other.data.len() {
            return false;
        }
        let mut i: usize = 0;
        while i < self.data.len()
            invariant
                0 <= i <= self.data@.len(),
                self.data@.len() == other.data@.len(),
                forall|j: int| 0 <= j < i ==> self.data@[j] == other.data@[j],
            decreases self.data@.len() - i,
        {
            if self.data[i] != other.data[i] {
                return false;
            }
            i = i + 1;
        }
        assert(self.data@ =~= other.data@);
        true
    }
}

} // verus!
