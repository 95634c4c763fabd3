use ledger::amount::Amount;
use ledger::bank::Bank;
use ledger::records::{Client, TransactionRecord, TransactionType};

fn deposit(client_id: u16, transaction_id: u32, units: i128) -> TransactionRecord {
    TransactionRecord {
        transaction_type: TransactionType::Deposit,
        client_id,
        transaction_id,
        amount: Some(Amount::new(units)),
    }
}

fn withdrawal(client_id: u16, transaction_id: u32, units: i128) -> TransactionRecord {
    TransactionRecord {
        transaction_type: TransactionType::Withdrawal,
        client_id,
        transaction_id,
        amount: Some(Amount::new(units)),
    }
}

fn dispute(client_id: u16, transaction_id: u32) -> TransactionRecord {
    TransactionRecord {
        transaction_type: TransactionType::Dispute,
        client_id,
        transaction_id,
        amount: None,
    }
}

fn resolve(client_id: u16, transaction_id: u32) -> TransactionRecord {
    TransactionRecord {
        transaction_type: TransactionType::Resolve,
        client_id,
        transaction_id,
        amount: None,
    }
}

fn chargeback(client_id: u16, transaction_id: u32) -> TransactionRecord {
    TransactionRecord {
        transaction_type: TransactionType::Chargeback,
        client_id,
        transaction_id,
        amount: None,
    }
}

fn run(records: &[TransactionRecord]) -> Bank {
    let mut bank = Bank::default();
    for r in records {
        assert!(bank.can_apply(r), "record overflows the balance arithmetic");
        bank.process_transaction(*r);
    }
    bank
}

fn export(bank: &Bank, client_id: u16) -> Client {
    bank.get_account(client_id)
        .expect("client was never referenced")
        .for_export(client_id)
}

fn client(id: u16, available: i128, held: i128, total: i128, locked: bool) -> Client {
    Client {
        id,
        available: Amount::new(available),
        held: Amount::new(held),
        total: Amount::new(total),
        locked,
    }
}

#[test]
fn example_input() {
    let bank = run(&[
        deposit(1, 1, 10000),
        deposit(2, 2, 20000),
        deposit(1, 3, 20000),
        withdrawal(1, 4, 15000),
        withdrawal(2, 5, 30000),
    ]);
    assert_eq!(export(&bank, 1), client(1, 15000, 0, 15000, false));
    assert_eq!(export(&bank, 2), client(2, 20000, 0, 20000, false));
}

#[test]
fn dispute_deposit_with_resolution() {
    let bank = run(&[deposit(1, 1, 10000), dispute(1, 1), resolve(1, 1)]);
    assert_eq!(export(&bank, 1), client(1, 10000, 0, 10000, false));
}

#[test]
fn dispute_deposit_with_chargeback() {
    let bank = run(&[deposit(1, 1, 10000), dispute(1, 1), chargeback(1, 1)]);
    assert_eq!(export(&bank, 1), client(1, 0, 10000, 10000, true));
}

#[test]
fn dispute_withdrawal_with_resolution() {
    let bank = run(&[
        deposit(1, 1, 10000),
        withdrawal(1, 2, 10000),
        dispute(1, 2),
        resolve(1, 2),
    ]);
    assert_eq!(export(&bank, 1), client(1, 0, 0, 0, false));
}

#[test]
fn thief() {
    let bank = run(&[
        deposit(1, 1, 10000),
        withdrawal(1, 2, 10000),
        dispute(1, 1),
        chargeback(1, 1),
    ]);
    assert_eq!(export(&bank, 1), client(1, -10000, 10000, 0, true));
}

#[test]
fn locked_account_should_be_able_to_deposit() {
    let bank = run(&[
        deposit(1, 1, 10000),
        withdrawal(1, 2, 10000),
        dispute(1, 1),
        chargeback(1, 1),
        deposit(1, 3, 10000),
    ]);
    assert_eq!(export(&bank, 1), client(1, 0, 10000, 10000, true));
}

#[test]
fn locked_account_cant_withdraw() {
    let bank = run(&[
        deposit(1, 1, 10000),
        deposit(1, 2, 10000),
        dispute(1, 1),
        chargeback(1, 1),
        withdrawal(1, 3, 10000),
    ]);
    assert_eq!(export(&bank, 1), client(1, 10000, 10000, 20000, true));
}

#[test]
fn deposit_into_locked_account_still_credits() {
    let bank = run(&[
        deposit(1, 1, 10000),
        dispute(1, 1),
        chargeback(1, 1),
        deposit(1, 2, 5000),
    ]);
    assert_eq!(export(&bank, 1), client(1, 5000, 10000, 15000, true));
}

#[test]
fn dispute_and_resolve_restore_pre_dispute_balances() {
    let before = run(&[deposit(1, 1, 10000), deposit(1, 2, 5000)]);
    let after = run(&[
        deposit(1, 1, 10000),
        deposit(1, 2, 5000),
        dispute(1, 1),
        resolve(1, 1),
    ]);
    assert_eq!(export(&before, 1), client(1, 15000, 0, 15000, false));
    assert_eq!(export(&after, 1), export(&before, 1));
}

#[test]
fn dispute_of_unknown_id_is_noop() {
    let bank = run(&[deposit(1, 1, 10000), dispute(1, 99)]);
    assert_eq!(export(&bank, 1), client(1, 10000, 0, 10000, false));
}

#[test]
fn resolve_without_dispute_is_noop() {
    let bank = run(&[deposit(1, 1, 10000), resolve(1, 1)]);
    assert_eq!(export(&bank, 1), client(1, 10000, 0, 10000, false));
}

#[test]
fn chargeback_without_dispute_is_noop() {
    let bank = run(&[deposit(1, 1, 10000), chargeback(1, 1)]);
    assert_eq!(export(&bank, 1), client(1, 10000, 0, 10000, false));
}

#[test]
fn dispute_twice_equals_dispute_once() {
    let once = run(&[deposit(1, 1, 10000), dispute(1, 1)]);
    let twice = run(&[deposit(1, 1, 10000), dispute(1, 1), dispute(1, 1)]);
    assert_eq!(export(&once, 1), client(1, 0, 10000, 10000, false));
    assert_eq!(export(&twice, 1), export(&once, 1));
}

#[test]
fn rejected_withdrawal_cannot_be_disputed() {
    let bank = run(&[deposit(1, 1, 10000), withdrawal(1, 2, 20000), dispute(1, 2)]);
    assert_eq!(export(&bank, 1), client(1, 10000, 0, 10000, false));
}

#[test]
fn resolved_entry_cannot_be_disputed_again() {
    let bank = run(&[
        deposit(1, 1, 10000),
        dispute(1, 1),
        resolve(1, 1),
        dispute(1, 1),
    ]);
    assert_eq!(export(&bank, 1), client(1, 10000, 0, 10000, false));
}

#[test]
fn duplicate_transaction_id_last_write_wins() {
    let bank = run(&[deposit(1, 7, 10000), deposit(1, 7, 10000), dispute(1, 7)]);
    assert_eq!(export(&bank, 1), client(1, 10000, 10000, 20000, false));
}

#[test]
fn export_all_keeps_first_seen_order() {
    let bank = run(&[
        deposit(3, 1, 10000),
        deposit(1, 2, 20000),
        deposit(2, 3, 30000),
        deposit(1, 4, 10000),
    ]);
    assert!(bank.can_export());
    let rows = bank.export_all();
    let ids: Vec<u16> = rows.iter().map(|c| c.id).collect();
    assert_eq!(ids, vec![3, 1, 2]);
    assert_eq!(rows[1], client(1, 30000, 0, 30000, false));
}

#[test]
fn deposit_without_amount_is_refused() {
    let bank = Bank::default();
    let r = TransactionRecord {
        transaction_type: TransactionType::Deposit,
        client_id: 1,
        transaction_id: 1,
        amount: None,
    };
    assert!(!bank.can_apply(&r));
}

#[test]
fn overflowing_deposit_is_refused() {
    let mut bank = Bank::default();
    let big = deposit(1, 1, i128::MAX);
    assert!(bank.can_apply(&big));
    bank.process_transaction(big);
    assert!(!bank.can_apply(&deposit(1, 2, 1)));
    assert!(bank.can_apply(&withdrawal(1, 3, 10000)));
}

#[test]
fn fractional_units_are_exact() {
    let one = ledger::amount::UNITS_PER_WHOLE;
    let bank = run(&[deposit(1, 1, 1), deposit(1, 2, one - 1)]);
    assert_eq!(export(&bank, 1), client(1, one, 0, one, false));
}
