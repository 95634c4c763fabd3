use vstd::prelude::*;

use crate::amount::Amount;

verus! {

/// The recorded payload of one transaction: its id and its amount.
#[derive(Clone, Copy, Debug, PartialEq, Eq, Structural)]
pub enum Transaction {
    Deposit(u32, Amount),
    Withdrawal(u32, Amount),
}

/// The lifecycle state of one recorded transaction. Transitions are monotonic
/// along Validated -> Disputed -> (Resolved | ChargedBack); Rejected is
/// reachable only when a withdrawal fails validation. Every state other than
/// Validated refuses a further dispute, and every state other than Disputed
/// refuses a resolve or chargeback: those attempts are silent no-ops.
#[derive(Clone, Copy, Debug, PartialEq, Eq, Structural)]
pub enum RecordedTransaction {
    Validated(Transaction),
    Disputed(Transaction),
    Resolved(Transaction),
    ChargedBack(Transaction),
    Rejected(Transaction),
}

/// The balance movement caused by opening a dispute.
#[derive(Clone, Copy, Debug)]
pub enum Dispute {
    Deposit { amount: Amount },
    Withdrawal { amount: Amount },
}

/// The balance movement caused by resolving a dispute.
#[derive(Clone, Copy, Debug)]
pub enum Resolution {
    Deposit { amount: Amount },
    Withdrawal { amount: Amount },
}

/// The balance movement caused by upholding a dispute.
#[derive(Clone, Copy, Debug)]
pub enum ChargeBack {
    Deposit { amount: Amount },
    Withdrawal { amount: Amount },
}

/// The payload carried through every lifecycle state.
pub open spec fn payload(e: RecordedTransaction) -> Transaction {
    match e {
        RecordedTransaction::Validated(t) => t,
        RecordedTransaction::Disputed(t) => t,
        RecordedTransaction::Resolved(t) => t,
        RecordedTransaction::ChargedBack(t) => t,
        RecordedTransaction::Rejected(t) => t,
    }
}

/// The transaction id of a payload.
pub open spec fn spec_tx_id(t: Transaction) -> u32 {
    match t {
        Transaction::Deposit(id, _) => id,
        Transaction::Withdrawal(id, _) => id,
    }
}

/// The amount of a payload, in fractional units.
pub open spec fn amount_of(t: Transaction) -> int {
    match t {
        Transaction::Deposit(_, a) => a@,
        Transaction::Withdrawal(_, a) => a@,
    }
}

/// The transaction id of a recorded transaction.
pub open spec fn entry_id(e: RecordedTransaction) -> u32 {
    spec_tx_id(payload(e))
}

/// The entry after a dispute attempt: only a Validated entry moves.
pub open spec fn after_dispute(e: RecordedTransaction) -> RecordedTransaction {
    match e {
        RecordedTransaction::Validated(t) => RecordedTransaction::Disputed(t),
        _ => e,
    }
}

/// The balance movement of a dispute attempt: Some only from Validated.
pub open spec fn dispute_outcome(e: RecordedTransaction) -> Option<Dispute> {
    match e {
        RecordedTransaction::Validated(Transaction::Deposit(_, a)) => Some(
            Dispute::Deposit { amount: a },
        ),
        RecordedTransaction::Validated(Transaction::Withdrawal(_, a)) => Some(
            Dispute::Withdrawal { amount: a },
        ),
        _ => None,
    }
}

/// The entry after a resolve attempt: only a Disputed entry moves.
pub open spec fn after_resolve(e: RecordedTransaction) -> RecordedTransaction {
    match e {
        RecordedTransaction::Disputed(t) => RecordedTransaction::Resolved(t),
        _ => e,
    }
}

/// The balance movement of a resolve attempt: Some only from Disputed.
pub open spec fn resolve_outcome(e: RecordedTransaction) -> Option<Resolution> {
    match e {
        RecordedTransaction::Disputed(Transaction::Deposit(_, a)) => Some(
            Resolution::Deposit { amount: a },
        ),
        RecordedTransaction::Disputed(Transaction::Withdrawal(_, a)) => Some(
            Resolution::Withdrawal { amount: a },
        ),
        _ => None,
    }
}

/// The entry after a chargeback attempt: only a Disputed entry moves.
pub open spec fn after_chargeback(e: RecordedTransaction) -> RecordedTransaction {
    match e {
        RecordedTransaction::Disputed(t) => RecordedTransaction::ChargedBack(t),
        _ => e,
    }
}

/// The balance movement of a chargeback attempt: Some only from Disputed.
pub open spec fn chargeback_outcome(e: RecordedTransaction) -> Option<ChargeBack> {
    match e {
        RecordedTransaction::Disputed(Transaction::Deposit(_, a)) => Some(
            ChargeBack::Deposit { amount: a },
        ),
        RecordedTransaction::Disputed(Transaction::Withdrawal(_, a)) => Some(
            ChargeBack::Withdrawal { amount: a },
        ),
        _ => None,
    }
}

impl RecordedTransaction {
    /// The transaction id this entry records.
    pub fn id(&self) -> (r: u32)
        ensures
            r == entry_id(*self),
    {
        match *self {
            RecordedTransaction::Validated(Transaction::Deposit(id, _)) => id,
            RecordedTransaction::Validated(Transaction::Withdrawal(id, _)) => id,
            RecordedTransaction::Disputed(Transaction::Deposit(id, _)) => id,
            RecordedTransaction::Disputed(Transaction::Withdrawal(id, _)) => id,
            RecordedTransaction::Resolved(Transaction::Deposit(id, _)) => id,
            RecordedTransaction::Resolved(Transaction::Withdrawal(id, _)) => id,
            RecordedTransaction::ChargedBack(Transaction::Deposit(id, _)) => id,
            RecordedTransaction::ChargedBack(Transaction::Withdrawal(id, _)) => id,
            RecordedTransaction::Rejected(Transaction::Deposit(id, _)) => id,
            RecordedTransaction::Rejected(Transaction::Withdrawal(id, _)) => id,
        }
    }

    /// Open a dispute: legal only from Validated, a no-op from every other
    /// state. Returns the balance movement the owning account must apply.
    pub fn dispute(&mut self) -> (r: Option<Dispute>)
        ensures
            *final(self) == after_dispute(*old(self)),
            r == dispute_outcome(*old(self)),
    {
        match *self {
            RecordedTransaction::Validated(Transaction::Deposit(transaction_id, amount)) => {
                *self = RecordedTransaction::Disputed(Transaction::Deposit(transaction_id, amount));
                Some(Dispute::Deposit { amount })
            },
            RecordedTransaction::Validated(Transaction::Withdrawal(transaction_id, amount)) => {
                *self = RecordedTransaction::Disputed(
                    Transaction::Withdrawal(transaction_id, amount),
                );
                Some(Dispute::Withdrawal { amount })
            },
            _ => None,
        }
    }

    /// Close a dispute in the client's favour: legal only from Disputed, a
    /// no-op from every other state.
    pub fn resolve(&mut self) -> (r: Option<Resolution>)
        ensures
            *final(self) == after_resolve(*old(self)),
            r == resolve_outcome(*old(self)),
    {
        match *self {
            RecordedTransaction::Disputed(Transaction::Deposit(transaction_id, amount)) => {
                *self = RecordedTransaction::Resolved(Transaction::Deposit(transaction_id, amount));
                Some(Resolution::Deposit { amount })
            },
            RecordedTransaction::Disputed(Transaction::Withdrawal(transaction_id, amount)) => {
                *self = RecordedTransaction::Resolved(
                    Transaction::Withdrawal(transaction_id, amount),
                );
                Some(Resolution::Withdrawal { amount })
            },
            _ => None,
        }
    }

    /// Uphold a dispute: legal only from Disputed, a no-op from every other
    /// state. The owning account becomes locked.
    pub fn chargeback(&mut self) -> (r: Option<ChargeBack>)
        ensures
            *final(self) == after_chargeback(*old(self)),
            r == chargeback_outcome(*old(self)),
    {
        match *self {
            RecordedTransaction::Disputed(Transaction::Deposit(transaction_id, amount)) => {
                *self = RecordedTransaction::ChargedBack(
                    Transaction::Deposit(transaction_id, amount),
                );
                Some(ChargeBack::Deposit { amount })
            },
            RecordedTransaction::Disputed(Transaction::Withdrawal(transaction_id, amount)) => {
                *self = RecordedTransaction::ChargedBack(
                    Transaction::Withdrawal(transaction_id, amount),
                );
                Some(ChargeBack::Withdrawal { amount })
            },
            _ => None,
        }
    }
}

} // verus!
