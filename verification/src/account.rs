use vstd::prelude::*;

use crate::amount::{fits, Amount};
use crate::entry::{
    after_chargeback, after_dispute, after_resolve, chargeback_outcome, dispute_outcome, entry_id,
    resolve_outcome, Dispute, RecordedTransaction, Resolution, Transaction,
};
use crate::records::{Client, TransactionRecord, TransactionType};

verus! {

/// Mathematical model of one account: balances in fractional units, the lock
/// flag, and the recorded transactions in the order they were first recorded.
#[verifier::ext_equal]
pub struct AccountView {
    pub available: int,
    pub held: int,
    pub locked: bool,
    pub txs: Seq<RecordedTransaction>,
}

/// Recorded transaction ids are pairwise distinct.
pub open spec fn txs_wf(s: Seq<RecordedTransaction>) -> bool {
    forall|i: int, j: int| 0 <= i < j < s.len() ==> entry_id(s[i]) != entry_id(s[j])
}

impl AccountView {
    /// Recorded transaction ids are pairwise distinct.
    pub open spec fn wf(self) -> bool {
        txs_wf(self.txs)
    }

    /// Whether a transaction with this id has been recorded.
    pub open spec fn has_tx(self, id: u32) -> bool {
        exists|i: int| 0 <= i < self.txs.len() && entry_id(#[trigger] self.txs[i]) == id
    }

    /// The position of the recorded transaction with this id.
    pub open spec fn tx_index(self, id: u32) -> int {
        choose|i: int| 0 <= i < self.txs.len() && entry_id(#[trigger] self.txs[i]) == id
    }

    /// The recorded transaction with this id.
    pub open spec fn tx(self, id: u32) -> RecordedTransaction {
        self.txs[self.tx_index(id)]
    }

    /// Total funds: the available plus the held balance, always derived.
    pub open spec fn total(self) -> int {
        self.available + self.held
    }

    /// The recorded transactions after storing `e` under its id:
    /// last write wins when the id was already recorded.
    pub open spec fn store_tx(self, e: RecordedTransaction) -> Seq<RecordedTransaction> {
        if self.has_tx(entry_id(e)) {
            self.txs.update(self.tx_index(entry_id(e)), e)
        } else {
            self.txs.push(e)
        }
    }
}

/// The state of a freshly created account: empty and unlocked.
pub open spec fn initial_account() -> AccountView {
    AccountView { available: 0, held: 0, locked: false, txs: Seq::empty() }
}

/// A deposit is always accepted, even on a locked account: it credits the
/// available balance and records a Validated entry.
pub open spec fn spec_deposit(a: AccountView, tx_id: u32, amount: Amount) -> AccountView {
    AccountView {
        available: a.available + amount@,
        txs: a.store_tx(RecordedTransaction::Validated(Transaction::Deposit(tx_id, amount))),
        ..a
    }
}

/// A withdrawal is accepted only when the account is unlocked and covered;
/// otherwise balances are untouched and a Rejected entry is recorded.
pub open spec fn spec_withdraw(a: AccountView, tx_id: u32, amount: Amount) -> AccountView {
    if a.locked || a.available < amount@ {
        AccountView {
            txs: a.store_tx(RecordedTransaction::Rejected(Transaction::Withdrawal(tx_id, amount))),
            ..a
        }
    } else {
        AccountView {
            available: a.available - amount@,
            txs: a.store_tx(RecordedTransaction::Validated(Transaction::Withdrawal(tx_id, amount))),
            ..a
        }
    }
}

/// A dispute freezes the referenced funds: for a deposit the amount moves
/// from available to held, for a withdrawal the amount is added to held
/// alone, so the total conceptually grows. Unknown ids and entries not in
/// Validated state are silent no-ops.
pub open spec fn spec_dispute(a: AccountView, tx_id: u32) -> AccountView {
    if a.has_tx(tx_id) {
        let e = a.tx(tx_id);
        match dispute_outcome(e) {
            Some(Dispute::Deposit { amount }) => AccountView {
                available: a.available - amount@,
                held: a.held + amount@,
                txs: a.txs.update(a.tx_index(tx_id), after_dispute(e)),
                ..a
            },
            Some(Dispute::Withdrawal { amount }) => AccountView {
                held: a.held + amount@,
                txs: a.txs.update(a.tx_index(tx_id), after_dispute(e)),
                ..a
            },
            None => a,
        }
    } else {
        a
    }
}

/// A resolve releases the frozen funds back to their pre-dispute state.
/// Unknown ids and entries not in Disputed state are silent no-ops.
pub open spec fn spec_resolve(a: AccountView, tx_id: u32) -> AccountView {
    if a.has_tx(tx_id) {
        let e = a.tx(tx_id);
        match resolve_outcome(e) {
            Some(Resolution::Deposit { amount }) => AccountView {
                available: a.available + amount@,
                held: a.held - amount@,
                txs: a.txs.update(a.tx_index(tx_id), after_resolve(e)),
                ..a
            },
            Some(Resolution::Withdrawal { amount }) => AccountView {
                held: a.held - amount@,
                txs: a.txs.update(a.tx_index(tx_id), after_resolve(e)),
                ..a
            },
            None => a,
        }
    } else {
        a
    }
}

/// A chargeback upholds the dispute: the entry becomes ChargedBack and the
/// account is locked; the held amount stays in place. Unknown ids and
/// entries not in Disputed state are silent no-ops.
pub open spec fn spec_chargeback(a: AccountView, tx_id: u32) -> AccountView {
    if a.has_tx(tx_id) {
        let e = a.tx(tx_id);
        match chargeback_outcome(e) {
            Some(_) => AccountView {
                locked: true,
                txs: a.txs.update(a.tx_index(tx_id), after_chargeback(e)),
                ..a
            },
            None => a,
        }
    } else {
        a
    }
}

/// The account after applying one record, dispatched on its operation.
pub open spec fn spec_apply(a: AccountView, r: TransactionRecord) -> AccountView {
    match r.transaction_type {
        TransactionType::Deposit => spec_deposit(a, r.transaction_id, r.amount.unwrap()),
        TransactionType::Withdrawal => spec_withdraw(a, r.transaction_id, r.amount.unwrap()),
        TransactionType::Dispute => spec_dispute(a, r.transaction_id),
        TransactionType::Resolve => spec_resolve(a, r.transaction_id),
        TransactionType::Chargeback => spec_chargeback(a, r.transaction_id),
    }
}

/// The machine can credit this deposit without overflowing.
pub open spec fn deposit_fits(a: AccountView, amount: Amount) -> bool {
    fits(a.available + amount@)
}

/// The machine can debit this withdrawal without overflowing, whenever the
/// withdrawal would be accepted at all.
pub open spec fn withdraw_fits(a: AccountView, amount: Amount) -> bool {
    !a.locked && amount@ <= a.available ==> fits(a.available - amount@)
}

/// The machine can move the disputed funds without overflowing.
pub open spec fn dispute_fits(a: AccountView, tx_id: u32) -> bool {
    a.has_tx(tx_id) ==> match dispute_outcome(a.tx(tx_id)) {
        Some(Dispute::Deposit { amount }) => fits(a.available - amount@) && fits(
            a.held + amount@,
        ),
        Some(Dispute::Withdrawal { amount }) => fits(a.held + amount@),
        None => true,
    }
}

/// The machine can release the resolved funds without overflowing.
pub open spec fn resolve_fits(a: AccountView, tx_id: u32) -> bool {
    a.has_tx(tx_id) ==> match resolve_outcome(a.tx(tx_id)) {
        Some(Resolution::Deposit { amount }) => fits(a.available + amount@) && fits(
            a.held - amount@,
        ),
        Some(Resolution::Withdrawal { amount }) => fits(a.held - amount@),
        None => true,
    }
}

/// The record carries the amount its operation needs, and the balance
/// arithmetic it causes stays within the machine representation.
pub open spec fn apply_fits(a: AccountView, r: TransactionRecord) -> bool {
    match r.transaction_type {
        TransactionType::Deposit => r.amount is Some && deposit_fits(a, r.amount.unwrap()),
        TransactionType::Withdrawal => r.amount is Some && withdraw_fits(a, r.amount.unwrap()),
        TransactionType::Dispute => dispute_fits(a, r.transaction_id),
        TransactionType::Resolve => resolve_fits(a, r.transaction_id),
        TransactionType::Chargeback => true,
    }
}

/// A position holding the given id is the position every lookup speaks of.
pub proof fn lemma_tx_index(a: AccountView, id: u32, i: int)
    requires
        a.wf(),
        0 <= i < a.txs.len(),
        entry_id(a.txs[i]) == id,
    ensures
        a.has_tx(id),
        a.tx_index(id) == i,
        a.tx(id) == a.txs[i],
{
    assert(a.has_tx(id));
    let j = a.tx_index(id);
    assert(0 <= j < a.txs.len() && entry_id(a.txs[j]) == id);
    if i != j {
        assert(false);
    }
}

/// One client's account: balances, lock flag, and every transaction it has
/// recorded, keyed by transaction id with last-write-wins on duplicates.
#[derive(Debug)]
pub struct Account {
    available: Amount,
    held: Amount,
    locked: bool,
    transactions: Vec<RecordedTransaction>,
}

impl View for Account {
    type V = AccountView;

    closed spec fn view(&self) -> AccountView {
        AccountView {
            available: self.available@,
            held: self.held@,
            locked: self.locked,
            txs: self.transactions@,
        }
    }
}

impl Default for Account {
    /// A freshly created account: zero balances, unlocked, no transactions.
    fn default() -> (r: Account)
        ensures
            r@ == initial_account(),
            r@.wf(),
    {
        Account {
            available: Amount::zero(),
            held: Amount::zero(),
            locked: false,
            transactions: Vec::new(),
        }
    }
}

impl Account {
    /// The position of the recorded transaction with this id, if any.
    fn find_tx(&self, id: u32) -> (r: Option<usize>)
        ensures
            match r {
                Some(i) => i < self@.txs.len() && entry_id(self@.txs[i as int]) == id,
                None => !self@.has_tx(id),
            },
    {
        let mut i: usize = 0;
        while i < self.transactions.len()
            invariant
                i <= self.transactions.len(),
                forall|j: int| 0 <= j < i ==> entry_id(#[trigger] self.transactions@[j]) != id,
            decreases self.transactions.len() - i,
        {
            if self.transactions[i].id() == id {
                return Some(i);
            }
            i = i + 1;
        }
        None
    }

    /// Store an entry under its id, replacing any entry already recorded
    /// under the same id.
    fn store(&mut self, e: RecordedTransaction)
        requires
            old(self)@.wf(),
        ensures
            final(self)@ == (AccountView { txs: old(self)@.store_tx(e), ..old(self)@ }),
            final(self)@.wf(),
    {
        match self.find_tx(e.id()) {
            Some(i) => {
                proof {
                    lemma_tx_index(self@, entry_id(e), i as int);
                }
                self.transactions[i] = e;
            },
            None => {
                self.transactions.push(e);
            },
        }
    }

    /// Credit a deposit: always accepted, even on a locked account.
    pub fn deposit(&mut self, t: (u32, Amount))
        requires
            old(self)@.wf(),
            deposit_fits(old(self)@, t.1),
        ensures
            final(self)@ == spec_deposit(old(self)@, t.0, t.1),
            final(self)@.wf(),
    {
        self.available = self.available.plus(t.1);
        assert(self@.txs == old(self)@.txs);
        self.store(RecordedTransaction::Validated(Transaction::Deposit(t.0, t.1)));
    }

    /// Debit a withdrawal when the account is unlocked and covered;
    /// otherwise record it as Rejected and leave balances untouched.
    pub fn withdraw(&mut self, t: (u32, Amount))
        requires
            old(self)@.wf(),
            withdraw_fits(old(self)@, t.1),
        ensures
            final(self)@ == spec_withdraw(old(self)@, t.0, t.1),
            final(self)@.wf(),
    {
        if self.locked || self.available.lt(t.1) {
            self.store(RecordedTransaction::Rejected(Transaction::Withdrawal(t.0, t.1)));
        } else {
            self.available = self.available.minus(t.1);
            self.store(RecordedTransaction::Validated(Transaction::Withdrawal(t.0, t.1)));
        }
    }

    /// Open a dispute against a recorded transaction.
    pub fn dispute(&mut self, transaction_id: u32)
        requires
            old(self)@.wf(),
            dispute_fits(old(self)@, transaction_id),
        ensures
            final(self)@ == spec_dispute(old(self)@, transaction_id),
            final(self)@.wf(),
    {
        match self.find_tx(transaction_id) {
            Some(i) => {
                proof {
                    lemma_tx_index(self@, transaction_id, i as int);
                }
                let mut t = self.transactions[i];
                match t.dispute() {
                    Some(Dispute::Deposit { amount }) => {
                        self.available = self.available.minus(amount);
                        self.held = self.held.plus(amount);
                        self.transactions[i] = t;
                    },
                    Some(Dispute::Withdrawal { amount }) => {
                        self.held = self.held.plus(amount);
                        self.transactions[i] = t;
                    },
                    None => {},
                }
            },
            None => {},
        }
    }

    /// Resolve a dispute against a recorded transaction.
    pub fn resolve(&mut self, transaction_id: u32)
        requires
            old(self)@.wf(),
            resolve_fits(old(self)@, transaction_id),
        ensures
            final(self)@ == spec_resolve(old(self)@, transaction_id),
            final(self)@.wf(),
    {
        match self.find_tx(transaction_id) {
            Some(i) => {
                proof {
                    lemma_tx_index(self@, transaction_id, i as int);
                }
                let mut t = self.transactions[i];
                match t.resolve() {
                    Some(Resolution::Deposit { amount }) => {
                        self.available = self.available.plus(amount);
                        self.held = self.held.minus(amount);
                        self.transactions[i] = t;
                    },
                    Some(Resolution::Withdrawal { amount }) => {
                        self.held = self.held.minus(amount);
                        self.transactions[i] = t;
                    },
                    None => {},
                }
            },
            None => {},
        }
    }

    /// Uphold a dispute against a recorded transaction, locking the account.
    pub fn chargeback(&mut self, transaction_id: u32)
        requires
            old(self)@.wf(),
        ensures
            final(self)@ == spec_chargeback(old(self)@, transaction_id),
            final(self)@.wf(),
    {
        match self.find_tx(transaction_id) {
            Some(i) => {
                proof {
                    lemma_tx_index(self@, transaction_id, i as int);
                }
                let mut t = self.transactions[i];
                match t.chargeback() {
                    Some(_) => {
                        self.locked = true;
                        self.transactions[i] = t;
                    },
                    None => {},
                }
            },
            None => {},
        }
    }

    /// Apply one record to this account, dispatched on its operation.
    pub fn process(&mut self, record: TransactionRecord)
        requires
            old(self)@.wf(),
            apply_fits(old(self)@, record),
        ensures
            final(self)@ == spec_apply(old(self)@, record),
            final(self)@.wf(),
    {
        match record.transaction_type {
            TransactionType::Deposit => {
                self.deposit((record.transaction_id, record.amount.unwrap()));
            },
            TransactionType::Withdrawal => {
                self.withdraw((record.transaction_id, record.amount.unwrap()));
            },
            TransactionType::Dispute => self.dispute(record.transaction_id),
            TransactionType::Resolve => self.resolve(record.transaction_id),
            TransactionType::Chargeback => self.chargeback(record.transaction_id),
        }
    }

    /// Pure projection of this account into its exported snapshot; the total
    /// is derived as the exact sum of available and held funds.
    pub fn for_export(&self, id: u16) -> (r: Client)
        requires
            fits(self@.total()),
        ensures
            r.id == id,
            r.available@ == self@.available,
            r.held@ == self@.held,
            r.total@ == self@.total(),
            r.locked == self@.locked,
    {
        Client {
            id,
            available: self.available,
            held: self.held,
            total: self.available.plus(self.held),
            locked: self.locked,
        }
    }

    /// True when the exported total of this account fits the machine
    /// representation.
    pub fn export_fits(&self) -> (r: bool)
        ensures
            r == fits(self@.total()),
    {
        self.available.plus_fits(self.held)
    }

    /// True when this record can be applied to this account without
    /// overflowing; a record refused here would make the original arithmetic
    /// fail rather than reach any defined business outcome.
    pub fn can_apply(&self, record: &TransactionRecord) -> (r: bool)
        requires
            self@.wf(),
        ensures
            r == apply_fits(self@, *record),
    {
        match record.transaction_type {
            TransactionType::Deposit => match record.amount {
                Some(a) => self.available.plus_fits(a),
                None => false,
            },
            TransactionType::Withdrawal => match record.amount {
                Some(a) => {
                    if !self.locked && !self.available.lt(a) {
                        self.available.minus_fits(a)
                    } else {
                        true
                    }
                },
                None => false,
            },
            TransactionType::Dispute => match self.find_tx(record.transaction_id) {
                Some(i) => {
                    proof {
                        lemma_tx_index(self@, record.transaction_id, i as int);
                    }
                    match self.transactions[i] {
                        RecordedTransaction::Validated(Transaction::Deposit(_, a)) => {
                            self.available.minus_fits(a) && self.held.plus_fits(a)
                        },
                        RecordedTransaction::Validated(Transaction::Withdrawal(_, a)) => {
                            self.held.plus_fits(a)
                        },
                        _ => true,
                    }
                },
                None => true,
            },
            TransactionType::Resolve => match self.find_tx(record.transaction_id) {
                Some(i) => {
                    proof {
                        lemma_tx_index(self@, record.transaction_id, i as int);
                    }
                    match self.transactions[i] {
                        RecordedTransaction::Disputed(Transaction::Deposit(_, a)) => {
                            self.available.plus_fits(a) && self.held.minus_fits(a)
                        },
                        RecordedTransaction::Disputed(Transaction::Withdrawal(_, a)) => {
                            self.held.minus_fits(a)
                        },
                        _ => true,
                    }
                },
                None => true,
            },
            TransactionType::Chargeback => true,
        }
    }
}

} // verus!
