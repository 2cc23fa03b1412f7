use vstd::prelude::*;

use crate::account::{empty_model, Account, AccountModel};
use crate::address::Address;

verus! {

/// Why a read or a top-up of the store failed.
#[derive(Clone, Copy, Debug, PartialEq, Eq, Structural)]
pub enum LedgerError {
    /// No account is stored under the address.
    NotFound,
    /// The account's data does not hold the expected layout exactly.
    DecodeError,
    /// The balance would pass `u64::MAX`.
    BalanceOverflow,
}

struct Entry {
    address: Address,
    account: Account,
}

/// The ledger's accounts, keyed by address. Entries are kept in the order in
/// which their addresses were first stored.
pub struct AccountStore {
    entries: Vec<Entry>,
    model: Ghost<Map<Seq<u8>, AccountModel>>,
}

/// The account that `credit` leaves under a fresh address.
pub open spec fn funded_model(amount: u64) -> AccountModel {
    AccountModel { balance: amount, ..empty_model() }
}

/// The store with every account of zero balance taken out.
pub open spec fn funded_only(m: Map<Seq<u8>, AccountModel>) -> Map<Seq<u8>, AccountModel> {
    Map::new(|k: Seq<u8>| m.contains_key(k) && m[k].balance > 0, |k: Seq<u8>| m[k])
}

/// What `credit` leaves: the account topped up, or created when absent.
pub open spec fn credit_spec(m: Map<Seq<u8>, AccountModel>, addr: Seq<u8>, amount: u64) -> Option<
    Map<Seq<u8>, AccountModel>,
> {
    if !m.contains_key(addr) {
        Some(m.insert(addr, funded_model(amount)))
    } else if m[addr].balance + amount <= u64::MAX {
        Some(m.insert(addr, AccountModel { balance: (m[addr].balance + amount) as u64, ..m[addr] }))
    } else {
        None
    }
}

impl View for AccountStore {
    type V = Map<Seq<u8>, AccountModel>;

    closed spec fn view(&self) -> Map<Seq<u8>, AccountModel> {
        self.model@
    }
}

impl AccountStore {
    /// The store's internal consistency: one entry per address, and the entries
    /// are exactly the map that the store stands for.
    pub closed spec fn wf(&self) -> bool {
        &&& forall|i: int, j: int|
            0 <= i < j < self.entries@.len() ==> #[trigger] self.entries@[i].address@
                != #[trigger] self.entries@[j].address@
        &&& forall|i: int|
            0 <= i < self.entries@.len() ==> {
                &&& self.model@.contains_key(#[trigger] self.entries@[i].address@)
                &&& self.model@[self.entries@[i].address@] == self.entries@[i].account@
            }
        &&& forall|k: Seq<u8>|
            #[trigger] self.model@.contains_key(k) ==> exists|i: int|
                0 <= i < self.entries@.len() && #[trigger] self.entries@[i].address@ == k
    }

    /// An empty store.
    pub fn new() -> (r: AccountStore)
        ensures
            r.wf(),
            r@ == Map::<Seq<u8>, AccountModel>::empty(),
    {
        AccountStore { entries: Vec::new(), model: Ghost(Map::empty()) }
    }

    /// The number of stored accounts.
    pub fn len(&self) -> (r: usize)
        requires
            self.wf(),
        ensures
            r == self@.len(),
    {
        proof {
            self.lemma_len();
        }
        self.entries.len()
    }

    proof fn lemma_len(&self)
        requires
            self.wf(),
        ensures
            self@.len() == self.entries@.len(),
        decreases self.entries@.len(),
    {
        let keys = self.entries@.map_values(|e: Entry| e.address@);
        assert(keys.no_duplicates()) by {
            assert forall|i: int, j: int|
                0 <= i < keys.len() && 0 <= j < keys.len() && i != j implies keys[i] != keys[j] by {
                if i < j {
                    assert(self.entries@[i].address@ != self.entries@[j].address@);
                } else {
                    assert(self.entries@[j].address@ != self.entries@[i].address@);
                }
            }
        }
        assert(keys.to_set() =~= self@.dom()) by {
            assert forall|k: Seq<u8>| keys.to_set().contains(k) implies self@.dom().contains(k) by {
                let i = choose|i: int| 0 <= i < keys.len() && keys[i] == k;
                assert(self.entries@[i].address@ == k);
            }
            assert forall|k: Seq<u8>| self@.dom().contains(k) implies keys.to_set().contains(k) by {
                assert(self.model@.contains_key(k));
                let i = choose|i: int|
                    0 <= i < self.entries@.len() && #[trigger] self.entries@[i].address@ == k;
                assert(keys[i] == k);
            }
        }
        keys.unique_seq_to_set();
    }

    fn find(&self, addr: &Address) -> (r: Option<usize>)
        requires
            self.wf(),
        ensures
            match r {
                Some(i) => i < self.entries@.len() && self.entries@[i as int].address@ == addr@,
                None => !self@.contains_key(addr@),
            },
    {
        let mut i: usize = 0;
        while i < self.entries.len()
            invariant
                self.wf(),
                0 <= i <= self.entries@.len(),
                forall|j: int| 0 <= j < i ==> self.entries@[j].address@ != addr@,
            decreases self.entries@.len() - i,
        {
            if self.entries[i].address == *addr {
                return Some(i);
            }
            i = i + 1;
        }
        None
    }

    /// The account stored under `addr`.
    pub fn get(&self, addr: &Address) -> (r: Result<Account, LedgerError>)
        requires
            self.wf(),
        ensures
            match r {
                Ok(a) => self@.contains_key(addr@) && a@ == self@[addr@],
                Err(e) => !self@.contains_key(addr@) && e == LedgerError::NotFound,
            },
    {
        match self.find(addr) {
            Some(i) => Ok(self.entries[i].account.duplicate()),
            None => Err(LedgerError::NotFound),
        }
    }

    /// The account stored under `addr`, or the empty system-owned account when there is none.
    pub fn get_or_empty(&self, addr: &Address) -> (r: Account)
        requires
            self.wf(),
        ensures
            r@ == (if self@.contains_key(addr@) { self@[addr@] } else { empty_model() }),
    {
        match self.find(addr) {
            Some(i) => self.entries[i].account.duplicate(),
            None => Account::empty(),
        }
    }

    /// Stores `account` under `addr`, replacing what was there.
    pub fn put(&mut self, addr: &Address, account: Account)
        requires
            old(self).wf(),
        ensures
            final(self).wf(),
            final(self)@ == old(self)@.insert(addr@, account@),
    {
        let ghost m = self.model@.insert(addr@, account@);
        match self.find(addr) {
            Some(i) => {
                let ghost old_entries = self.entries@;
                self.entries.set(i, Entry { address: *addr, account });
                self.model = Ghost(m);
                assert forall|k: Seq<u8>| #[trigger] self.model@.contains_key(k) implies exists|j: int|
                    0 <= j < self.entries@.len() && #[trigger] self.entries@[j].address@ == k by {
                    if k != addr@ {
                        assert(old(self).model@.contains_key(k));
                        let j = choose|j: int|
                            0 <= j < old_entries.len() && #[trigger] old_entries[j].address@ == k;
                        assert(self.entries@[j].address@ == k);
                    } else {
                        assert(self.entries@[i as int].address@ == k);
                    }
                }
            },
            None => {
                let ghost old_entries = self.entries@;
                self.entries.push(Entry { address: *addr, account });
                self.model = Ghost(m);
                assert forall|k: Seq<u8>| #[trigger] self.model@.contains_key(k) implies exists|j: int|
                    0 <= j < self.entries@.len() && #[trigger] self.entries@[j].address@ == k by {
                    if k != addr@ {
                        assert(old(self).model@.contains_key(k));
                        let j = choose|j: int|
                            0 <= j < old_entries.len() && #[trigger] old_entries[j].address@ == k;
                        assert(self.entries@[j].address@ == k);
                    } else {
                        assert(self.entries@[old_entries.len() as int].address@ == k);
                    }
                }
            },
        }
    }

    /// Takes out the account stored under `addr`, if any.
    pub fn remove(&mut self, addr: &Address)
        requires
            old(self).wf(),
        ensures
            final(self).wf(),
            final(self)@ == old(self)@.remove(addr@),
    {
        match self.find(addr) {
            Some(i) => {
                let ghost old_entries = self.entries@;
                self.entries.remove(i);
                self.model = Ghost(self.model@.remove(addr@));
                assert forall|j: int| 0 <= j < self.entries@.len() implies
                    #[trigger] self.entries@[j] == (if j < i { old_entries[j] } else { old_entries[j + 1] }) by {
                }
                assert forall|a: int, b: int|
                    0 <= a < b < self.entries@.len() implies #[trigger] self.entries@[a].address@
                    != #[trigger] self.entries@[b].address@ by {
                    let oa = if a < i { a } else { a + 1 };
                    let ob = if b < i { b } else { b + 1 };
                    assert(self.entries@[a] == old_entries[oa]);
                    assert(self.entries@[b] == old_entries[ob]);
                }
                assert forall|j: int| 0 <= j < self.entries@.len() implies {
                    &&& self.model@.contains_key(#[trigger] self.entries@[j].address@)
                    &&& self.model@[self.entries@[j].address@] == self.entries@[j].account@
                } by {
                    let oj = if j < i { j } else { j + 1 };
                    assert(self.entries@[j] == old_entries[oj]);
                    if oj < i {
                        assert(old_entries[oj].address@ != old_entries[i as int].address@);
                    } else {
                        assert(old_entries[i as int].address@ != old_entries[oj].address@);
                    }
                }
                assert forall|k: Seq<u8>| #[trigger] self.model@.contains_key(k) implies exists|j: int|
                    0 <= j < self.entries@.len() && #[trigger] self.entries@[j].address@ == k by {
                    assert(old(self).model@.contains_key(k));
                    let oj = choose|j: int|
                        0 <= j < old_entries.len() && #[trigger] old_entries[j].address@ == k;
                    let j = if oj < i { oj } else { oj - 1 };
                    assert(self.entries@[j] == old_entries[oj]);
                }
            },
            None => {
                assert(self.model@.remove(addr@) =~= self.model@);
            },
        }
    }

    /// Adds `amount` to the balance under `addr`, first creating a system-owned account
    /// with no data there when there is none. Bypasses every transaction check.
    pub fn credit(&mut self, addr: &Address, amount: u64) -> (r: Result<(), LedgerError>)
        requires
            old(self).wf(),
        ensures
            final(self).wf(),
            match credit_spec(old(self)@, addr@, amount) {
                Some(m) => r is Ok && final(self)@ == m,
                None => r == Err::<(), LedgerError>(LedgerError::BalanceOverflow) && final(self)@ == old(self)@,
            },
    {
        match self.find(addr) {
            Some(i) => {
                let balance = self.entries[i].account.balance;
                if balance > u64::MAX - amount {
                    return Err(LedgerError::BalanceOverflow);
                }
                let a = self.entries[i].account.duplicate();
                let topped = Account { balance: balance + amount, ..a };
                self.put(addr, topped);
                Ok(())
            },
            None => {
                let fresh = Account { balance: amount, ..Account::empty() };
                self.put(addr, fresh);
                Ok(())
            },
        }
    }

    /// A copy of the store.
    pub fn duplicate(&self) -> (r: AccountStore)
        requires
            self.wf(),
        ensures
            r.wf(),
            r@ == self@,
    {
        let mut entries: Vec<Entry> = Vec::new();
        let mut i: usize = 0;
        while i < self.entries.len()
            invariant
                self.wf(),
                0 <= i <= self.entries@.len(),
                entries@.len() == i,
                forall|j: int|
                    0 <= j < i ==> #[trigger] entries@[j].address@ == self.entries@[j].address@
                        && entries@[j].account@ == self.entries@[j].account@,
            decreases self.entries@.len() - i,
        {
            let e = &self.entries[i];
            entries.push(Entry { address: e.address, account: e.account.duplicate() });
            i = i + 1;
        }
        let r = AccountStore { entries, model: Ghost(self.model@) };
        assert forall|a: int, b: int| 0 <= a < b < r.entries@.len() implies #[trigger] r.entries@[a].address@
            != #[trigger] r.entries@[b].address@ by {
            assert(self.entries@[a].address@ != self.entries@[b].address@);
        }
        assert forall|k: Seq<u8>| #[trigger] r.model@.contains_key(k) implies exists|j: int|
            0 <= j < r.entries@.len() && #[trigger] r.entries@[j].address@ == k by {
            let j = choose|j: int|
                0 <= j < self.entries@.len() && #[trigger] self.entries@[j].address@ == k;
            assert(r.entries@[j].address@ == k);
        }
        r
    }

    /// Takes out every account whose balance is zero.
    pub fn drop_unfunded(&mut self)
        requires
            old(self).wf(),
        ensures
            final(self).wf(),
            final(self)@ == funded_only(old(self)@),
    {
        let mut kept: Vec<Entry> = Vec::new();
        let ghost mut from: Seq<int> = Seq::empty();
        let mut i: usize = 0;
        while i < self.entries.len()
            invariant
                self.wf(),
                0 <= i <= self.entries@.len(),
                kept@.len() == from.len(),
                forall|j: int| 0 <= j < from.len() ==> 0 <= #[trigger] from[j] < i,
                forall|a: int, b: int| 0 <= a < b < from.len() ==> #[trigger] from[a] < #[trigger] from[b],
                forall|j: int|
                    0 <= j < from.len() ==> #[trigger] kept@[j].address@ == self.entries@[from[j]].address@
                        && kept@[j].account@ == self.entries@[from[j]].account@
                        && self.entries@[from[j]].account.balance > 0,
                forall|x: int|
                    0 <= x < i && #[trigger] self.entries@[x].account.balance > 0 ==> exists|j: int|
                        0 <= j < from.len() && #[trigger] from[j] == x,
            decreases self.entries@.len() - i,
        {
            let e = &self.entries[i];
            if e.account.balance > 0 {
                kept.push(Entry { address: e.address, account: e.account.duplicate() });
                proof {
                    let prev = from;
                    from = from.push(i as int);
                    assert forall|j: int| 0 <= j < from.len() implies #[trigger] kept@[j].address@
                        == self.entries@[from[j]].address@ && kept@[j].account@
                        == self.entries@[from[j]].account@ && self.entries@[from[j]].account.balance
                        > 0 by {
                        if j < prev.len() {
                            assert(from[j] == prev[j]);
                        }
                    }
                    assert forall|x: int|
                        0 <= x < i + 1 && #[trigger] self.entries@[x].account.balance > 0 implies exists|j: int|
                        0 <= j < from.len() && #[trigger] from[j] == x by {
                        if x < i {
                            let j = choose|j: int| 0 <= j < prev.len() && #[trigger] prev[j] == x;
                            assert(from[j] == x);
                        } else {
                            assert(from[prev.len() as int] == x);
                        }
                    }
                }
            }
            i = i + 1;
        }
        let ghost old_entries = self.entries@;
        let ghost m = funded_only(self.model@);
        self.entries = kept;
        self.model = Ghost(m);
        assert forall|a: int, b: int| 0 <= a < b < self.entries@.len() implies #[trigger] self.entries@[a].address@
            != #[trigger] self.entries@[b].address@ by {
            assert(from[a] < from[b]);
            assert(old_entries[from[a]].address@ != old_entries[from[b]].address@);
        }
        assert forall|j: int| 0 <= j < self.entries@.len() implies {
            &&& self.model@.contains_key(#[trigger] self.entries@[j].address@)
            &&& self.model@[self.entries@[j].address@] == self.entries@[j].account@
        } by {
            assert(old(self).model@.contains_key(old_entries[from[j]].address@));
        }
        assert forall|k: Seq<u8>| #[trigger] self.model@.contains_key(k) implies exists|j: int|
            0 <= j < self.entries@.len() && #[trigger] self.entries@[j].address@ == k by {
            let x = choose|x: int| 0 <= x < old_entries.len() && #[trigger] old_entries[x].address@ == k;
            assert(old_entries[x].account.balance > 0);
            let j = choose|j: int| 0 <= j < from.len() && #[trigger] from[j] == x;
            assert(self.entries@[j].address@ == k);
        }
    }
}

} // verus!
