//! The account operations, exercised directly: each kind against a locked
//! and an unlocked account, mirroring the per-kind gates of the processor.
//! Amounts count ten-thousandths of a unit: 50.0 units are 500_000.

use accountant::client::Client;
use accountant::processor::{
    process_chargeback, process_deposit, process_dispute, process_resolve, process_withdrawal,
};
use accountant::transactions::{ErrorKind, Transaction, TxKind};

fn record(kind: TxKind, client: u16, tx: u32, amount: Option<u64>) -> Transaction {
    Transaction { transaction_type: kind, client, tx, amount }
}

#[test]
fn test_process_deposit_locked() {
    let mut client = Client::new(1);
    client.set_locked(true);
    let t = record(TxKind::Deposit, 1, 1, Some(1_000_000));
    let r = process_deposit(&mut client, &t);
    assert!(r == Err(ErrorKind::AccountLocked));
    assert!(client.available() == 0);
}

#[test]
fn test_process_deposit_valid() {
    let mut client = Client::new(1);
    let t = record(TxKind::Deposit, 1, 1, Some(1_000_000));
    let r = process_deposit(&mut client, &t);
    assert!(r == Ok(()));
    assert!(client.available() == 1_000_000);
    assert!(client.total() == 1_000_000);
}

#[test]
fn test_process_deposit_zero() {
    let mut client = Client::new(1);
    let t = record(TxKind::Deposit, 1, 1, Some(0));
    let r = process_deposit(&mut client, &t);
    assert!(r == Err(ErrorKind::NonPositiveAmount));
    assert!(client.available() == 0);
}

#[test]
fn test_process_deposit_four_decimals() {
    // 100.1234 units.
    let mut client = Client::new(1);
    let t = record(TxKind::Deposit, 1, 1, Some(1_001_234));
    let r = process_deposit(&mut client, &t);
    assert!(r == Ok(()));
    assert!(client.available() == 1_001_234);
}

#[test]
fn test_process_deposit_missing_amount() {
    let mut client = Client::new(1);
    let t = record(TxKind::Deposit, 1, 1, None);
    let r = process_deposit(&mut client, &t);
    assert!(r == Err(ErrorKind::MissingAmount));
    assert!(client.available() == 0);
}

#[test]
fn test_process_deposit_overflow() {
    let mut client = Client::new(1);
    assert!(client.deposit(Some(u64::MAX)) == Ok(()));
    let t = record(TxKind::Deposit, 1, 2, Some(1));
    let r = process_deposit(&mut client, &t);
    assert!(r == Err(ErrorKind::AmountOverflow));
    assert!(client.available() == u64::MAX);
    assert!(client.total() == u64::MAX);
}

#[test]
fn test_process_withdrawal_locked() {
    let mut client = Client::new(1);
    client.deposit(Some(1_000_000)).unwrap();
    client.set_locked(true);
    let t = record(TxKind::Withdrawal, 1, 1, Some(500_000));
    let r = process_withdrawal(&mut client, &t);
    assert!(r == Err(ErrorKind::AccountLocked));
    assert!(client.available() == 1_000_000);
}

#[test]
fn test_process_withdrawal_valid() {
    let mut client = Client::new(1);
    client.deposit(Some(1_000_000)).unwrap();
    let t = record(TxKind::Withdrawal, 1, 1, Some(500_000));
    let r = process_withdrawal(&mut client, &t);
    assert!(r == Ok(()));
    assert!(client.available() == 500_000);
    assert!(client.total() == 500_000);
}

#[test]
fn test_process_withdrawal_zero() {
    let mut client = Client::new(1);
    client.deposit(Some(500_000)).unwrap();
    let t = record(TxKind::Withdrawal, 1, 1, Some(0));
    let r = process_withdrawal(&mut client, &t);
    assert!(r == Err(ErrorKind::NonPositiveAmount));
    assert!(client.available() == 500_000);
}

#[test]
fn test_process_withdrawal_four_decimals() {
    // Withdraw 50.1234 from 100.0.
    let mut client = Client::new(1);
    client.deposit(Some(1_000_000)).unwrap();
    let t = record(TxKind::Withdrawal, 1, 1, Some(501_234));
    let r = process_withdrawal(&mut client, &t);
    assert!(r == Ok(()));
    assert!(client.available() == 498_766);
}

#[test]
fn test_process_withdrawal_insufficient() {
    let mut client = Client::new(1);
    client.deposit(Some(200_000)).unwrap();
    let t = record(TxKind::Withdrawal, 1, 1, Some(300_000));
    let r = process_withdrawal(&mut client, &t);
    assert!(r == Err(ErrorKind::InsufficientFunds));
    assert!(client.available() == 200_000);
    assert!(client.total() == 200_000);
}

#[test]
fn test_process_dispute_locked() {
    let mut client = Client::new(1);
    client.deposit(Some(500_000)).unwrap();
    client.set_locked(true);
    let t = record(TxKind::Dispute, 1, 1, None);
    let r = process_dispute(&mut client, &t, Ok(500_000));
    assert!(r == Err(ErrorKind::AccountLocked));
    assert!(client.held() == 0);
}

#[test]
fn test_process_dispute_valid() {
    let mut client = Client::new(1);
    client.deposit(Some(500_000)).unwrap();
    let t = record(TxKind::Dispute, 1, 1, None);
    let r = process_dispute(&mut client, &t, Ok(500_000));
    assert!(r == Ok(()));
    assert!(client.held() == 500_000);
    assert!(client.available() == 0);
    assert!(client.total() == 500_000);
    assert!(client.disputed_transactions().get(&1) == Some(&500_000));
}

#[test]
fn test_process_dispute_duplicate() {
    let mut client = Client::new(1);
    client.deposit(Some(500_000)).unwrap();
    let t = record(TxKind::Dispute, 1, 1, None);
    assert!(process_dispute(&mut client, &t, Ok(500_000)) == Ok(()));
    let r = process_dispute(&mut client, &t, Ok(500_000));
    assert!(r == Err(ErrorKind::DuplicateDispute));
    // Funds are not double-held.
    assert!(client.held() == 500_000);
    assert!(client.available() == 0);
}

#[test]
fn test_process_resolve_locked() {
    let mut client = Client::new(1);
    client.deposit(Some(500_000)).unwrap();
    client.dispute(1, Some(500_000)).unwrap();
    client.set_locked(true);
    let t = record(TxKind::Resolve, 1, 1, None);
    let r = process_resolve(&mut client, &t);
    assert!(r == Err(ErrorKind::AccountLocked));
    assert!(client.held() == 500_000);
}

#[test]
fn test_process_resolve_valid() {
    let mut client = Client::new(1);
    client.deposit(Some(500_000)).unwrap();
    client.dispute(1, Some(500_000)).unwrap();
    let t = record(TxKind::Resolve, 1, 1, None);
    let r = process_resolve(&mut client, &t);
    assert!(r == Ok(()));
    assert!(client.available() == 500_000);
    assert!(client.held() == 0);
    assert!(client.total() == 500_000);
}

#[test]
fn test_process_chargeback_locked() {
    let mut client = Client::new(1);
    client.deposit(Some(500_000)).unwrap();
    client.dispute(1, Some(500_000)).unwrap();
    client.set_locked(true);
    let t = record(TxKind::Chargeback, 1, 1, None);
    let r = process_chargeback(&mut client, &t);
    assert!(r == Err(ErrorKind::AccountLocked));
    assert!(client.held() == 500_000);
    assert!(client.locked());
}

#[test]
fn test_process_chargeback_valid() {
    let mut client = Client::new(1);
    client.deposit(Some(500_000)).unwrap();
    client.dispute(1, Some(500_000)).unwrap();
    let t = record(TxKind::Chargeback, 1, 1, None);
    let r = process_chargeback(&mut client, &t);
    assert!(r == Ok(()));
    assert!(client.locked());
    assert!(client.held() == 0);
    assert!(client.total() == 0);
}

#[test]
fn test_resolve_not_disputed() {
    let mut client = Client::new(1);
    client.deposit(Some(500_000)).unwrap();
    assert!(client.resolve(9) == Err(ErrorKind::NotDisputed));
    assert!(client.chargeback(9) == Err(ErrorKind::NotDisputed));
    assert!(client.available() == 500_000);
}

#[test]
fn test_setters_keep_balance_equation() {
    let mut client = Client::new(7);
    client.set_available(300_000);
    assert!(client.available() == 300_000);
    assert!(client.total() == 300_000);
    client.set_held(100_000);
    assert!(client.available() == 200_000);
    assert!(client.held() == 100_000);
    assert!(client.total() == 300_000);
    assert!(client.total() == client.available() + client.held());
    assert!(client.id() == 7);
    assert!(!client.is_account_locked(1));
}
