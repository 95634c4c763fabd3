use vstd::prelude::*;

use crate::account::{apply_fits, initial_account, spec_apply, Account, AccountView};
use crate::amount::fits;
use crate::records::{Client, TransactionRecord};

verus! {

/// Client ids in the ledger are pairwise distinct.
pub open spec fn bank_wf(b: Seq<(u16, AccountView)>) -> bool {
    forall|i: int, j: int| 0 <= i < j < b.len() ==> b[i].0 != b[j].0
}

/// Whether an account exists for this client.
pub open spec fn has_client(b: Seq<(u16, AccountView)>, id: u16) -> bool {
    exists|i: int| 0 <= i < b.len() && (#[trigger] b[i]).0 == id
}

/// The position of this client's account.
pub open spec fn client_index(b: Seq<(u16, AccountView)>, id: u16) -> int {
    choose|i: int| 0 <= i < b.len() && (#[trigger] b[i]).0 == id
}

/// The account a record for this client acts on: the recorded one, or a
/// fresh one on first reference.
pub open spec fn account_of(b: Seq<(u16, AccountView)>, id: u16) -> AccountView {
    if has_client(b, id) {
        b[client_index(b, id)].1
    } else {
        initial_account()
    }
}

/// The ledger after routing one record to its client's account, creating the
/// account lazily on first reference. First-seen order of clients is kept.
pub open spec fn spec_route(b: Seq<(u16, AccountView)>, r: TransactionRecord) -> Seq<
    (u16, AccountView),
> {
    if has_client(b, r.client_id) {
        b.update(
            client_index(b, r.client_id),
            (r.client_id, spec_apply(b[client_index(b, r.client_id)].1, r)),
        )
    } else {
        b.push((r.client_id, spec_apply(initial_account(), r)))
    }
}

/// The snapshot a client and account export to: the total is the exact sum
/// of available and held funds.
pub open spec fn exported(c: Client, id: u16, a: AccountView) -> bool {
    &&& c.id == id
    &&& c.available@ == a.available
    &&& c.held@ == a.held
    &&& c.total@ == a.total()
    &&& c.locked == a.locked
}

/// A position holding the given client id is the position every lookup
/// speaks of.
pub proof fn lemma_client_index(b: Seq<(u16, AccountView)>, id: u16, i: int)
    requires
        bank_wf(b),
        0 <= i < b.len(),
        b[i].0 == id,
    ensures
        has_client(b, id),
        client_index(b, id) == i,
        account_of(b, id) == b[i].1,
{
    assert(has_client(b, id));
    let j = client_index(b, id);
    assert(0 <= j < b.len() && b[j].0 == id);
    if i != j {
        assert(false);
    }
}

/// The whole ledger for one run: every client's account, owned exclusively,
/// in the order the clients were first seen.
#[derive(Debug)]
pub struct Bank {
    accounts: Vec<(u16, Account)>,
}

impl View for Bank {
    type V = Seq<(u16, AccountView)>;

    closed spec fn view(&self) -> Seq<(u16, AccountView)> {
        self.accounts@.map_values(|p: (u16, Account)| (p.0, p.1@))
    }
}

impl Default for Bank {
    /// An empty ledger.
    fn default() -> (r: Bank)
        ensures
            r@ == Seq::<(u16, AccountView)>::empty(),
            r.wf(),
    {
        let r = Bank { accounts: Vec::new() };
        proof {
            assert(r@ =~= Seq::<(u16, AccountView)>::empty());
        }
        r
    }
}

impl Bank {
    /// Client ids are distinct and every account is well formed.
    pub open spec fn wf(&self) -> bool {
        &&& bank_wf(self@)
        &&& forall|i: int| 0 <= i < self@.len() ==> (#[trigger] self@[i]).1.wf()
    }

    /// The position of this client's account, if any.
    fn find_client(&self, id: u16) -> (r: Option<usize>)
        ensures
            match r {
                Some(i) => i < self@.len() && self@[i as int].0 == id,
                None => !has_client(self@, id),
            },
    {
        let mut i: usize = 0;
        while i < self.accounts.len()
            invariant
                i <= self.accounts.len(),
                forall|j: int| 0 <= j < i ==> (#[trigger] self.accounts@[j]).0 != id,
            decreases self.accounts.len() - i,
        {
            if self.accounts[i].0 == id {
                return Some(i);
            }
            i = i + 1;
        }
        None
    }

    /// Route one record to the account of its client, creating that account
    /// on first reference.
    pub fn process_transaction(&mut self, record: TransactionRecord)
        requires
            old(self).wf(),
            apply_fits(account_of(old(self)@, record.client_id), record),
        ensures
            final(self)@ == spec_route(old(self)@, record),
            final(self).wf(),
    {
        match self.find_client(record.client_id) {
            Some(i) => {
                proof {
                    lemma_client_index(self@, record.client_id, i as int);
                }
                self.accounts[i].1.process(record);
                proof {
                    assert(self@ =~= spec_route(old(self)@, record));
                }
            },
            None => {
                let mut account = Account::default();
                account.process(record);
                self.accounts.push((record.client_id, account));
                proof {
                    assert(self@ =~= spec_route(old(self)@, record));
                }
            },
        }
    }

    /// This client's account, if one was ever referenced.
    pub fn get_account(&self, client_id: u16) -> (r: Option<&Account>)
        requires
            self.wf(),
        ensures
            match r {
                Some(a) => has_client(self@, client_id) && a@ == account_of(self@, client_id),
                None => !has_client(self@, client_id),
            },
    {
        match self.find_client(client_id) {
            Some(i) => {
                proof {
                    lemma_client_index(self@, client_id, i as int);
                }
                Some(&self.accounts[i].1)
            },
            None => None,
        }
    }

    /// True when this record can be applied without overflowing the balance
    /// arithmetic of the account it routes to.
    pub fn can_apply(&self, record: &TransactionRecord) -> (r: bool)
        requires
            self.wf(),
        ensures
            r == apply_fits(account_of(self@, record.client_id), *record),
    {
        match self.find_client(record.client_id) {
            Some(i) => {
                proof {
                    lemma_client_index(self@, record.client_id, i as int);
                }
                self.accounts[i].1.can_apply(record)
            },
            None => {
                let fresh = Account::default();
                fresh.can_apply(record)
            },
        }
    }

    /// True when every account's exported total fits the machine
    /// representation.
    pub fn can_export(&self) -> (r: bool)
        ensures
            r == (forall|i: int|
                0 <= i < self@.len() ==> fits((#[trigger] self@[i]).1.total())),
    {
        let mut i: usize = 0;
        while i < self.accounts.len()
            invariant
                i <= self.accounts.len(),
                forall|j: int| 0 <= j < i ==> fits((#[trigger] self@[j]).1.total()),
            decreases self.accounts.len() - i,
        {
            if !self.accounts[i].1.export_fits() {
                assert(!fits(self@[i as int].1.total()));
                return false;
            }
            i = i + 1;
        }
        true
    }

    /// Snapshot every account, one Client row each, in the deterministic
    /// order the clients were first seen.
    pub fn export_all(&self) -> (r: Vec<Client>)
        requires
            forall|i: int| 0 <= i < self@.len() ==> fits((#[trigger] self@[i]).1.total()),
        ensures
            r@.len() == self@.len(),
            forall|i: int|
                0 <= i < self@.len() ==> exported(#[trigger] r@[i], self@[i].0, self@[i].1),
    {
        let mut out: Vec<Client> = Vec::new();
        let mut i: usize = 0;
        while i < self.accounts.len()
            invariant
                i <= self.accounts.len(),
                out@.len() == i,
                forall|k: int| 0 <= k < self@.len() ==> fits((#[trigger] self@[k]).1.total()),
                forall|j: int|
                    0 <= j < i ==> exported(#[trigger] out@[j], self@[j].0, self@[j].1),
            decreases self.accounts.len() - i,
        {
            assert(fits(self@[i as int].1.total()));
            let c = self.accounts[i].1.for_export(self.accounts[i].0);
            out.push(c);
            i = i + 1;
        }
        out
    }
}

} // verus!
