use vstd::prelude::*;

use crate::account::{
    initial_account, spec_apply, spec_chargeback, spec_deposit, spec_dispute, spec_resolve,
    spec_withdraw, txs_wf, AccountView,
};
use crate::amount::Amount;
use crate::bank::{account_of, bank_wf, client_index, has_client, spec_route};
use crate::entry::{
    after_dispute, amount_of, dispute_outcome, entry_id, payload, RecordedTransaction, Transaction,
};
use crate::records::{TransactionRecord, TransactionType};

verus! {

/// The share of one entry in the held balance: an open dispute freezes its
/// amount, and a chargeback leaves the frozen amount in place.
pub open spec fn held_weight(e: RecordedTransaction) -> int {
    match e {
        RecordedTransaction::Disputed(t) => amount_of(t),
        RecordedTransaction::ChargedBack(t) => amount_of(t),
        _ => 0,
    }
}

/// The sum of the held shares of all recorded entries.
pub open spec fn held_sum(s: Seq<RecordedTransaction>) -> int
    decreases s.len(),
{
    if s.len() == 0 {
        0
    } else {
        held_sum(s.drop_last()) + held_weight(s.last())
    }
}

/// The share of one entry in the frozen-deposit debt: the amount that a
/// dispute of a deposit has taken out of the available balance.
pub open spec fn frozen_deposit_weight(e: RecordedTransaction) -> int {
    match e {
        RecordedTransaction::Disputed(Transaction::Deposit(_, a)) => a@,
        RecordedTransaction::ChargedBack(Transaction::Deposit(_, a)) => a@,
        _ => 0,
    }
}

/// The sum of the frozen-deposit shares of all recorded entries.
pub open spec fn frozen_deposit_sum(s: Seq<RecordedTransaction>) -> int
    decreases s.len(),
{
    if s.len() == 0 {
        0
    } else {
        frozen_deposit_sum(s.drop_last()) + frozen_deposit_weight(s.last())
    }
}

/// Every recorded entry carries a nonnegative amount.
pub open spec fn amounts_nonneg(s: Seq<RecordedTransaction>) -> bool {
    forall|i: int| 0 <= i < s.len() ==> amount_of(payload(#[trigger] s[i])) >= 0
}

/// The balance bookkeeping of one account: the held balance covers every
/// frozen amount, and the available balance owes at most what disputed
/// deposits have taken out of it.
pub open spec fn balanced(a: AccountView) -> bool {
    &&& amounts_nonneg(a.txs)
    &&& a.held >= held_sum(a.txs)
    &&& a.available + frozen_deposit_sum(a.txs) >= 0
}

/// A record that keeps the bookkeeping meaningful: a deposit or withdrawal
/// carries a nonnegative amount and a transaction id not recorded before.
pub open spec fn record_ok(a: AccountView, r: TransactionRecord) -> bool {
    match r.transaction_type {
        TransactionType::Deposit => r.amount is Some && r.amount.unwrap()@ >= 0 && !a.has_tx(
            r.transaction_id,
        ),
        TransactionType::Withdrawal => r.amount is Some && r.amount.unwrap()@ >= 0 && !a.has_tx(
            r.transaction_id,
        ),
        _ => true,
    }
}

/// Appending an entry adds its shares to both sums.
proof fn lemma_sums_push(s: Seq<RecordedTransaction>, e: RecordedTransaction)
    ensures
        held_sum(s.push(e)) == held_sum(s) + held_weight(e),
        frozen_deposit_sum(s.push(e)) == frozen_deposit_sum(s) + frozen_deposit_weight(e),
{
    assert(s.push(e).drop_last() =~= s);
}

/// Replacing one entry moves both sums by the difference of the shares.
proof fn lemma_sums_update(s: Seq<RecordedTransaction>, i: int, e: RecordedTransaction)
    requires
        0 <= i < s.len(),
    ensures
        held_sum(s.update(i, e)) == held_sum(s) - held_weight(s[i]) + held_weight(e),
        frozen_deposit_sum(s.update(i, e)) == frozen_deposit_sum(s) - frozen_deposit_weight(s[i])
            + frozen_deposit_weight(e),
    decreases s.len(),
{
    let t = s.update(i, e);
    if i == s.len() - 1 {
        assert(t.drop_last() =~= s.drop_last());
    } else {
        assert(t.drop_last() =~= s.drop_last().update(i, e));
        lemma_sums_update(s.drop_last(), i, e);
    }
}

/// With nonnegative amounts the held sum dominates the frozen-deposit sum,
/// and both are nonnegative.
proof fn lemma_sums_nonneg(s: Seq<RecordedTransaction>)
    requires
        amounts_nonneg(s),
    ensures
        held_sum(s) >= frozen_deposit_sum(s) >= 0,
    decreases s.len(),
{
    if s.len() > 0 {
        assert(amounts_nonneg(s.drop_last())) by {
            assert(forall|i: int|
                0 <= i < s.len() - 1 ==> s.drop_last()[i] == #[trigger] s[i]);
        }
        lemma_sums_nonneg(s.drop_last());
        assert(amount_of(payload(s.last())) >= 0);
    }
}

/// A fresh account is balanced.
pub proof fn lemma_initial_balanced()
    ensures
        balanced(initial_account()),
{
}

/// Applying any admissible record preserves the balance bookkeeping. Records
/// of every kind are covered: deposits and withdrawals need a fresh id and a
/// nonnegative amount, dispute-lifecycle records need nothing at all.
pub proof fn lemma_apply_preserves_balance(a: AccountView, r: TransactionRecord)
    requires
        a.wf(),
        balanced(a),
        record_ok(a, r),
    ensures
        balanced(spec_apply(a, r)),
{
    let id = r.transaction_id;
    match r.transaction_type {
        TransactionType::Deposit => {
            let am = r.amount.unwrap();
            let e = RecordedTransaction::Validated(Transaction::Deposit(id, am));
            lemma_sums_push(a.txs, e);
            assert(amounts_nonneg(a.txs.push(e))) by {
                assert(forall|i: int|
                    0 <= i < a.txs.len() ==> a.txs.push(e)[i] == #[trigger] a.txs[i]);
            }
        },
        TransactionType::Withdrawal => {
            let am = r.amount.unwrap();
            lemma_sums_nonneg(a.txs);
            if a.locked || a.available < am@ {
                let e = RecordedTransaction::Rejected(Transaction::Withdrawal(id, am));
                lemma_sums_push(a.txs, e);
                assert(amounts_nonneg(a.txs.push(e))) by {
                    assert(forall|i: int|
                        0 <= i < a.txs.len() ==> a.txs.push(e)[i] == #[trigger] a.txs[i]);
                }
            } else {
                let e = RecordedTransaction::Validated(Transaction::Withdrawal(id, am));
                lemma_sums_push(a.txs, e);
                assert(amounts_nonneg(a.txs.push(e))) by {
                    assert(forall|i: int|
                        0 <= i < a.txs.len() ==> a.txs.push(e)[i] == #[trigger] a.txs[i]);
                }
            }
        },
        TransactionType::Dispute => {
            lemma_lifecycle_update(a, id, spec_dispute(a, id));
        },
        TransactionType::Resolve => {
            lemma_lifecycle_update(a, id, spec_resolve(a, id));
        },
        TransactionType::Chargeback => {
            lemma_lifecycle_update(a, id, spec_chargeback(a, id));
        },
    }
}

/// Shared argument for the three dispute-lifecycle operations: each moves the
/// balances exactly as it moves the sums of shares.
proof fn lemma_lifecycle_update(a: AccountView, id: u32, a1: AccountView)
    requires
        a.wf(),
        balanced(a),
        a1 == spec_dispute(a, id) || a1 == spec_resolve(a, id) || a1 == spec_chargeback(a, id),
    ensures
        balanced(a1),
{
    if a.has_tx(id) {
        let i = a.tx_index(id);
        assert(0 <= i < a.txs.len() && entry_id(a.txs[i]) == id);
        let e = a.txs[i];
        assert(amount_of(payload(e)) >= 0);
        if a1 != a {
            let e1 = a1.txs[i];
            lemma_sums_update(a.txs, i, e1);
            assert(amounts_nonneg(a1.txs)) by {
                assert(forall|j: int|
                    0 <= j < a.txs.len() && j != i ==> a.txs.update(i, e1)[j] == #[trigger] a.txs[j]);
            }
        }
    }
}

/// The held balance of a balanced account is nonnegative, and so is its
/// total: even where a disputed deposit has driven the available balance
/// negative, the held funds cover the difference.
pub proof fn lemma_balanced_nonneg(a: AccountView)
    requires
        balanced(a),
    ensures
        a.held >= 0,
        a.total() >= 0,
{
    lemma_sums_nonneg(a.txs);
}

/// A deposit is indifferent to the lock: it credits the available balance,
/// and so the total, and leaves the held balance and the lock flag alone.
pub proof fn lemma_deposit_ignores_lock(a: AccountView, tx_id: u32, amount: Amount)
    ensures
        spec_deposit(a, tx_id, amount).available == a.available + amount@,
        spec_deposit(a, tx_id, amount).total() == a.total() + amount@,
        spec_deposit(a, tx_id, amount).held == a.held,
        spec_deposit(a, tx_id, amount).locked == a.locked,
{
}

/// A withdrawal from a locked account, or one the available balance cannot
/// cover, changes no balance and records the attempt as Rejected.
pub proof fn lemma_refused_withdrawal(a: AccountView, tx_id: u32, amount: Amount)
    requires
        a.wf(),
        a.locked || a.available < amount@,
    ensures
        spec_withdraw(a, tx_id, amount).available == a.available,
        spec_withdraw(a, tx_id, amount).held == a.held,
        spec_withdraw(a, tx_id, amount).locked == a.locked,
        spec_withdraw(a, tx_id, amount).has_tx(tx_id),
        spec_withdraw(a, tx_id, amount).tx(tx_id) == RecordedTransaction::Rejected(
            Transaction::Withdrawal(tx_id, amount),
        ),
{
    let e = RecordedTransaction::Rejected(Transaction::Withdrawal(tx_id, amount));
    let a1 = spec_withdraw(a, tx_id, amount);
    if a.has_tx(tx_id) {
        let i = a.tx_index(tx_id);
        assert(0 <= i < a.txs.len() && entry_id(a.txs[i]) == tx_id);
        assert(a1.txs[i] == e);
        crate::account::lemma_tx_index(a1, tx_id, i);
    } else {
        assert(a1.txs[a.txs.len() as int] == e);
        crate::account::lemma_tx_index(a1, tx_id, a.txs.len() as int);
    }
}

/// Disputing a transaction id that was never recorded changes nothing.
pub proof fn lemma_dispute_unknown_id(a: AccountView, tx_id: u32)
    requires
        !a.has_tx(tx_id),
    ensures
        spec_dispute(a, tx_id) == a,
{
}

/// Resolving or charging back a transaction that is not currently Disputed
/// changes nothing, whether the id is unknown or the entry is in any other
/// state.
pub proof fn lemma_undisputed_is_noop(a: AccountView, tx_id: u32)
    requires
        a.has_tx(tx_id) ==> !(a.tx(tx_id) is Disputed),
    ensures
        spec_resolve(a, tx_id) == a,
        spec_chargeback(a, tx_id) == a,
{
}

/// Every account in the ledger keeps its balance bookkeeping when a record
/// is routed, whichever client it names and whether or not that client has
/// an account yet.
pub proof fn lemma_route_preserves_balance(b: Seq<(u16, AccountView)>, r: TransactionRecord)
    requires
        bank_wf(b),
        forall|i: int| 0 <= i < b.len() ==> (#[trigger] b[i]).1.wf(),
        forall|i: int| 0 <= i < b.len() ==> balanced((#[trigger] b[i]).1),
        record_ok(account_of(b, r.client_id), r),
    ensures
        forall|i: int|
            0 <= i < spec_route(b, r).len() ==> balanced((#[trigger] spec_route(b, r)[i]).1),
{
    let b1 = spec_route(b, r);
    if has_client(b, r.client_id) {
        let i = client_index(b, r.client_id);
        assert(0 <= i < b.len() && b[i].0 == r.client_id);
        lemma_apply_preserves_balance(b[i].1, r);
        assert forall|j: int| 0 <= j < b1.len() implies balanced((#[trigger] b1[j]).1) by {
            if j != i {
                assert(b1[j] == b[j]);
            }
        }
    } else {
        lemma_initial_balanced();
        lemma_apply_preserves_balance(initial_account(), r);
        assert forall|j: int| 0 <= j < b1.len() implies balanced((#[trigger] b1[j]).1) by {
            if j < b.len() {
                assert(b1[j] == b[j]);
            }
        }
    }
}

/// Disputing the same transaction twice has exactly the effect of disputing
/// it once: the second attempt finds the entry already Disputed and leaves
/// the account untouched.
pub proof fn lemma_dispute_idempotent(a: AccountView, tx_id: u32)
    requires
        a.wf(),
    ensures
        spec_dispute(spec_dispute(a, tx_id), tx_id) == spec_dispute(a, tx_id),
{
    if a.has_tx(tx_id) {
        let i = a.tx_index(tx_id);
        assert(0 <= i < a.txs.len() && entry_id(a.txs[i]) == tx_id);
        let e = a.txs[i];
        if dispute_outcome(e) is Some {
            let a1 = spec_dispute(a, tx_id);
            assert(a1.txs[i] == after_dispute(e));
            assert(txs_wf(a1.txs)) by {
                assert(forall|j: int|
                    0 <= j < a.txs.len() && j != i ==> a1.txs[j] == #[trigger] a.txs[j]);
            }
            crate::account::lemma_tx_index(a1, tx_id, i);
            assert(dispute_outcome(a1.tx(tx_id)) is None);
        }
    }
}

} // verus!

