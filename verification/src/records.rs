use vstd::prelude::*;

use crate::amount::Amount;

verus! {

/// The operation a raw input row asks for. Deposit and Withdrawal carry an
/// amount; the other three act on a previously recorded transaction.
#[derive(Clone, Copy, Debug, PartialEq, Eq, Structural)]
pub enum TransactionType {
    Deposit,
    Withdrawal,
    Dispute,
    Resolve,
    Chargeback,
}

/// One decoded input record. The amount is required for Deposit and
/// Withdrawal and absent or ignored for the dispute-lifecycle operations.
#[derive(Clone, Copy, Debug)]
pub struct TransactionRecord {
    pub transaction_type: TransactionType,
    pub client_id: u16,
    pub transaction_id: u32,
    pub amount: Option<Amount>,
}

/// The exported snapshot of one account: total is always the exact sum of
/// available and held funds, derived at export and never stored.
#[derive(Clone, Copy, Debug, PartialEq, Eq, Structural)]
pub struct Client {
    pub id: u16,
    pub available: Amount,
    pub held: Amount,
    pub total: Amount,
    pub locked: bool,
}

} // verus!
