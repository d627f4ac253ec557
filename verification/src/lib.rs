//! A per-client account ledger driven by a stream of financial transaction
//! records (deposits, withdrawals, disputes, resolves, chargebacks).
//!
//! The core is the account state machine: how each transaction kind mutates a
//! client's balances (`available`, `held`, `total`, `locked`), the
//! cross-reference to prior transactions that disputes, resolves and
//! chargebacks require, and the invariant `total == available + held` that
//! holds after every mutation. Monetary amounts are fixed-point integers
//! counting ten-thousandths of a unit (four decimal digits), so balances are
//! exact and every arithmetic step is checked.

pub mod amount;
pub mod client;
pub mod laws;
pub mod ledger;
pub mod processor;
pub mod registry;
pub mod transactions;
