//! Whole-run scenarios through the processor, and concrete checks of the
//! proved laws: the balance invariant, the terminal locked account, the
//! resolve/chargeback idempotence boundary, and the deposit-withdrawal
//! round trip. Amounts count ten-thousandths of a unit: 5.0 units are
//! 50_000.

use accountant::client::Client;
use accountant::processor::Processor;
use accountant::transactions::{ErrorKind, Transaction, TxKind};

fn record(kind: TxKind, client: u16, tx: u32, amount: Option<u64>) -> Transaction {
    Transaction { transaction_type: kind, client, tx, amount }
}

fn balances(p: &Processor, id: u16) -> (u64, u64, u64, bool) {
    let clients = p.clients();
    for c in clients.iter() {
        if c.id() == id {
            return (c.available(), c.held(), c.total(), c.locked());
        }
    }
    panic!("no account for client {}", id);
}

#[test]
fn deposit_only() {
    // Deposit(client=1, tx=1, amount=5.0).
    let mut p = Processor::new();
    let r = p.process(&record(TxKind::Deposit, 1, 1, Some(50_000)));
    assert!(r == Ok(()));
    assert!(balances(&p, 1) == (50_000, 0, 50_000, false));
}

#[test]
fn withdrawal_and_insufficient_funds() {
    // After the 5.0 deposit: a 3.0 withdrawal succeeds, a 10.0 one fails.
    let mut p = Processor::new();
    assert!(p.process(&record(TxKind::Deposit, 1, 1, Some(50_000))) == Ok(()));
    assert!(p.process(&record(TxKind::Withdrawal, 1, 2, Some(30_000))) == Ok(()));
    assert!(balances(&p, 1) == (20_000, 0, 20_000, false));
    let r = p.process(&record(TxKind::Withdrawal, 1, 3, Some(100_000)));
    assert!(r == Err(ErrorKind::InsufficientFunds));
    assert!(balances(&p, 1) == (20_000, 0, 20_000, false));
}

#[test]
fn dispute_then_resolve() {
    let mut p = Processor::new();
    assert!(p.process(&record(TxKind::Deposit, 1, 1, Some(50_000))) == Ok(()));
    assert!(p.process(&record(TxKind::Dispute, 1, 1, None)) == Ok(()));
    assert!(balances(&p, 1) == (0, 50_000, 50_000, false));
    assert!(p.process(&record(TxKind::Resolve, 1, 1, None)) == Ok(()));
    assert!(balances(&p, 1) == (50_000, 0, 50_000, false));
}

#[test]
fn dispute_then_chargeback_locks() {
    let mut p = Processor::new();
    assert!(p.process(&record(TxKind::Deposit, 1, 1, Some(50_000))) == Ok(()));
    assert!(p.process(&record(TxKind::Dispute, 1, 1, None)) == Ok(()));
    assert!(p.process(&record(TxKind::Chargeback, 1, 1, None)) == Ok(()));
    assert!(balances(&p, 1) == (0, 0, 0, true));
    // A later deposit is rejected and the balances stay at all-zero.
    let r = p.process(&record(TxKind::Deposit, 1, 4, Some(1_000_000)));
    assert!(r == Err(ErrorKind::AccountLocked));
    assert!(balances(&p, 1) == (0, 0, 0, true));
}

#[test]
fn dispute_unknown_transaction() {
    // Tx 999 was never deposited or withdrawn.
    let mut p = Processor::new();
    assert!(p.process(&record(TxKind::Deposit, 1, 1, Some(50_000))) == Ok(()));
    let r = p.process(&record(TxKind::Dispute, 1, 999, None));
    assert!(r == Err(ErrorKind::UnknownTransaction));
    assert!(balances(&p, 1) == (50_000, 0, 50_000, false));
}

#[test]
fn dispute_other_clients_transaction() {
    // The referenced transaction exists but belongs to another client.
    let mut p = Processor::new();
    assert!(p.process(&record(TxKind::Deposit, 1, 1, Some(50_000))) == Ok(()));
    assert!(p.process(&record(TxKind::Deposit, 2, 2, Some(70_000))) == Ok(()));
    let r = p.process(&record(TxKind::Dispute, 2, 1, None));
    assert!(r == Err(ErrorKind::UnknownTransaction));
    assert!(balances(&p, 1) == (50_000, 0, 50_000, false));
    assert!(balances(&p, 2) == (70_000, 0, 70_000, false));
}

#[test]
fn failed_record_is_not_referenceable() {
    // A withdrawal that failed was never appended to the ledger, so a
    // dispute of its transaction id finds nothing.
    let mut p = Processor::new();
    assert!(p.process(&record(TxKind::Deposit, 1, 1, Some(50_000))) == Ok(()));
    assert!(
        p.process(&record(TxKind::Withdrawal, 1, 2, Some(90_000)))
            == Err(ErrorKind::InsufficientFunds)
    );
    assert!(p.process(&record(TxKind::Dispute, 1, 2, None)) == Err(ErrorKind::UnknownTransaction));
}

#[test]
fn disputed_withdrawal_is_allowed() {
    // A dispute may reference a withdrawal; its amount is held again.
    let mut p = Processor::new();
    assert!(p.process(&record(TxKind::Deposit, 1, 1, Some(50_000))) == Ok(()));
    assert!(p.process(&record(TxKind::Withdrawal, 1, 2, Some(20_000))) == Ok(()));
    assert!(p.process(&record(TxKind::Dispute, 1, 2, None)) == Ok(()));
    assert!(balances(&p, 1) == (10_000, 20_000, 30_000, false));
}

#[test]
fn resolve_twice_fails_second_time() {
    let mut p = Processor::new();
    assert!(p.process(&record(TxKind::Deposit, 1, 1, Some(50_000))) == Ok(()));
    assert!(p.process(&record(TxKind::Dispute, 1, 1, None)) == Ok(()));
    assert!(p.process(&record(TxKind::Resolve, 1, 1, None)) == Ok(()));
    let r = p.process(&record(TxKind::Resolve, 1, 1, None));
    assert!(r == Err(ErrorKind::NotDisputed));
    assert!(p.process(&record(TxKind::Chargeback, 1, 1, None)) == Err(ErrorKind::NotDisputed));
    assert!(balances(&p, 1) == (50_000, 0, 50_000, false));
}

#[test]
fn chargeback_twice_fails_second_time() {
    let mut client = Client::new(1);
    client.deposit(Some(50_000)).unwrap();
    client.dispute(1, Some(50_000)).unwrap();
    assert!(client.chargeback(1) == Ok(()));
    // At the account level the second attempt is NotDisputed; through the
    // processor the locked account would already reject it.
    assert!(client.chargeback(1) == Err(ErrorKind::NotDisputed));
    assert!(client.resolve(1) == Err(ErrorKind::NotDisputed));
}

#[test]
fn deposit_withdraw_round_trip() {
    let mut client = Client::new(1);
    client.deposit(Some(123_456)).unwrap();
    client.dispute(7, Some(23_456)).unwrap();
    let before = (client.available(), client.held(), client.total());
    assert!(client.deposit(Some(555_555)) == Ok(()));
    assert!(client.withdraw(Some(555_555)) == Ok(()));
    assert!((client.available(), client.held(), client.total()) == before);
}

#[test]
fn balance_equation_holds_throughout() {
    let mut p = Processor::new();
    let stream = vec![
        record(TxKind::Deposit, 1, 1, Some(50_000)),
        record(TxKind::Deposit, 2, 2, Some(70_000)),
        record(TxKind::Withdrawal, 1, 3, Some(10_000)),
        record(TxKind::Dispute, 1, 1, None),
        record(TxKind::Resolve, 1, 1, None),
        record(TxKind::Dispute, 2, 2, None),
        record(TxKind::Chargeback, 2, 2, None),
    ];
    for t in stream.iter() {
        let _ = p.process(t);
        for c in p.clients().iter() {
            assert!(c.total() == c.available() + c.held());
        }
    }
    assert!(balances(&p, 1) == (40_000, 0, 40_000, false));
    assert!(balances(&p, 2) == (0, 0, 0, true));
}

#[test]
fn whole_stream_at_once() {
    let mut p = Processor::new();
    let stream = vec![
        record(TxKind::Deposit, 1, 1, Some(50_000)),
        record(TxKind::Dispute, 1, 1, None),
        record(TxKind::Chargeback, 1, 1, None),
        record(TxKind::Deposit, 1, 4, Some(1_000_000)),
        record(TxKind::Deposit, 3, 5, Some(25_000)),
    ];
    p.process_transactions(&stream);
    assert!(balances(&p, 1) == (0, 0, 0, true));
    assert!(balances(&p, 3) == (25_000, 0, 25_000, false));
}

#[test]
fn account_created_on_failed_reference() {
    // A dispute for an unknown client still creates that client's account,
    // with everything at zero.
    let mut p = Processor::new();
    assert!(p.process(&record(TxKind::Dispute, 9, 1, None)) == Err(ErrorKind::UnknownTransaction));
    assert!(balances(&p, 9) == (0, 0, 0, false));
}

#[test]
fn many_clients_keep_their_own_slots() {
    let mut p = Processor::new();
    for id in 0u16..50 {
        let amount = 10_000 + (id as u64) * 10_000;
        assert!(p.process(&record(TxKind::Deposit, id, id as u32 + 1, Some(amount))) == Ok(()));
    }
    for id in 0u16..50 {
        let amount = 10_000 + (id as u64) * 10_000;
        assert!(balances(&p, id) == (amount, 0, amount, false));
    }
    assert!(p.clients().len() == 50);
}
