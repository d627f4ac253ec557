//! Per-client account state: available, held and total funds, the lock flag,
//! and the set of transaction ids currently under dispute.
//!
//! Every operation either succeeds and leaves `total == available + held`, or
//! fails and leaves the account unchanged; there is no partial mutation. Each
//! operation's whole effect is pinned by a specification-level transition
//! function, so the idempotence and round-trip laws can be stated and proved
//! over those transitions alone.

use vstd::prelude::*;
use std::collections::HashMap;
use crate::transactions::ErrorKind;

verus! {

broadcast use vstd::std_specs::hash::group_hash_axioms;

/// The mathematical state of one account: balances as unbounded integers and
/// the disputed transactions as a map from transaction id to held amount.
#[verifier::ext_equal]
pub ghost struct ClientView {
    pub id: u16,
    pub available: int,
    pub held: int,
    pub total: int,
    pub locked: bool,
    pub disputed: Map<u32, u64>,
}

/// Well-formedness of an account: balances are non-negative, fit the
/// fixed-point representation, and `total` is exactly `available + held`.
pub open spec fn client_wf(c: ClientView) -> bool {
    &&& 0 <= c.available
    &&& 0 <= c.held
    &&& c.total == c.available + c.held
    &&& c.total <= u64::MAX
}

/// A freshly created account: all balances zero, unlocked, nothing disputed.
pub open spec fn empty_client(id: u16) -> ClientView {
    ClientView {
        id,
        available: 0,
        held: 0,
        total: 0,
        locked: false,
        disputed: Map::empty(),
    }
}

/// Crediting: adds the amount to the available and total funds. Fails when
/// the amount is absent, zero, or would push `total` past the fixed-point
/// range; failure leaves the account unchanged.
pub open spec fn deposit_spec(c: ClientView, amount: Option<u64>) -> (ClientView, Result<
    (),
    ErrorKind,
>) {
    match amount {
        Option::None => (c, Result::Err(ErrorKind::MissingAmount)),
        Option::Some(a) => if a == 0 {
            (c, Result::Err(ErrorKind::NonPositiveAmount))
        } else if c.total + a > u64::MAX {
            (c, Result::Err(ErrorKind::AmountOverflow))
        } else {
            (
                ClientView { available: c.available + a, total: c.total + a, ..c },
                Result::Ok(()),
            )
        },
    }
}

/// Debiting: removes the amount from the available and total funds, only if
/// the available funds cover it. Held funds are not touched; failure leaves
/// the account unchanged.
pub open spec fn withdraw_spec(c: ClientView, amount: Option<u64>) -> (ClientView, Result<
    (),
    ErrorKind,
>) {
    match amount {
        Option::None => (c, Result::Err(ErrorKind::MissingAmount)),
        Option::Some(a) => if a == 0 {
            (c, Result::Err(ErrorKind::NonPositiveAmount))
        } else if c.available < a {
            (c, Result::Err(ErrorKind::InsufficientFunds))
        } else {
            (
                ClientView { available: c.available - a, total: c.total - a, ..c },
                Result::Ok(()),
            )
        },
    }
}

/// Holding: moves the amount from available to held funds and records the
/// transaction id as disputed. `total` is unchanged. A transaction id already
/// under dispute is rejected, so repeated disputes never double-hold funds.
pub open spec fn dispute_spec(c: ClientView, tx_id: u32, amount: Option<u64>) -> (ClientView, Result<
    (),
    ErrorKind,
>) {
    match amount {
        Option::None => (c, Result::Err(ErrorKind::MissingAmount)),
        Option::Some(a) => if a == 0 {
            (c, Result::Err(ErrorKind::NonPositiveAmount))
        } else if c.disputed.contains_key(tx_id) {
            (c, Result::Err(ErrorKind::DuplicateDispute))
        } else if c.available < a {
            (c, Result::Err(ErrorKind::InsufficientFunds))
        } else {
            (
                ClientView {
                    available: c.available - a,
                    held: c.held + a,
                    disputed: c.disputed.insert(tx_id, a),
                    ..c
                },
                Result::Ok(()),
            )
        },
    }
}

/// Releasing: reverses an open dispute, returning its held amount to the
/// available funds and dropping the transaction id from the disputed set.
/// `total` is unchanged.
pub open spec fn resolve_spec(c: ClientView, tx_id: u32) -> (ClientView, Result<(), ErrorKind>) {
    if !c.disputed.contains_key(tx_id) {
        (c, Result::Err(ErrorKind::NotDisputed))
    } else if c.held < c.disputed[tx_id] {
        (c, Result::Err(ErrorKind::InsufficientHeld))
    } else {
        (
            ClientView {
                available: c.available + c.disputed[tx_id],
                held: c.held - c.disputed[tx_id],
                disputed: c.disputed.remove(tx_id),
                ..c
            },
            Result::Ok(()),
        )
    }
}

/// Forfeiting: finalizes an open dispute against the account. The held
/// amount leaves the account entirely (`held` and `total` both drop) and the
/// account is locked for good. `available` is unchanged.
pub open spec fn chargeback_spec(c: ClientView, tx_id: u32) -> (ClientView, Result<
    (),
    ErrorKind,
>) {
    if !c.disputed.contains_key(tx_id) {
        (c, Result::Err(ErrorKind::NotDisputed))
    } else if c.held < c.disputed[tx_id] {
        (c, Result::Err(ErrorKind::InsufficientHeld))
    } else {
        (
            ClientView {
                held: c.held - c.disputed[tx_id],
                total: c.total - c.disputed[tx_id],
                disputed: c.disputed.remove(tx_id),
                locked: true,
                ..c
            },
            Result::Ok(()),
        )
    }
}

/// One client's account. Balances count ten-thousandths of a unit.
pub struct Client {
    id: u16,
    available: u64,
    held: u64,
    total: u64,
    locked: bool,
    disputed_transactions: HashMap<u32, u64>,
}

impl View for Client {
    type V = ClientView;

    closed spec fn view(&self) -> ClientView {
        ClientView {
            id: self.id,
            available: self.available as int,
            held: self.held as int,
            total: self.total as int,
            locked: self.locked,
            disputed: self.disputed_transactions@,
        }
    }
}

impl Client {
    /// Creates the account for a client id: all balances at zero, unlocked,
    /// with no disputed transactions.
    pub fn new(client_id: u16) -> (r: Self)
        ensures
            r@ == empty_client(client_id),
            client_wf(r@),
    {
        let r = Self {
            id: client_id,
            available: 0,
            held: 0,
            total: 0,
            locked: false,
            disputed_transactions: HashMap::new(),
        };
        proof {
            assert(r@ =~~= empty_client(client_id));
        }
        r
    }

    pub fn id(&self) -> (r: u16)
        ensures
            r == self@.id,
    {
        self.id
    }

    pub fn available(&self) -> (r: u64)
        ensures
            r == self@.available,
    {
        self.available
    }

    pub fn held(&self) -> (r: u64)
        ensures
            r == self@.held,
    {
        self.held
    }

    pub fn total(&self) -> (r: u64)
        ensures
            r == self@.total,
    {
        self.total
    }

    pub fn locked(&self) -> (r: bool)
        ensures
            r == self@.locked,
    {
        self.locked
    }

    pub fn set_locked(&mut self, status: bool)
        ensures
            final(self)@ == (ClientView { locked: status, ..old(self)@ }),
    {
        self.locked = status;
    }

    /// Tells whether the account is locked; a locked account is terminal and
    /// accepts no further mutating transactions. The transaction id only
    /// identifies the attempt for the caller's reporting.
    pub fn is_account_locked(&self, _tx: u32) -> (r: bool)
        ensures
            r == self@.locked,
    {
        self.locked
    }

    /// The transactions currently under dispute for this client, each mapped
    /// to its held amount.
    pub fn disputed_transactions(&self) -> (r: &HashMap<u32, u64>)
        ensures
            r@ == self@.disputed,
    {
        &self.disputed_transactions
    }

    /// Credits the amount to the available and total funds, like a deposit,
    /// without the record-level validation.
    pub fn set_available(&mut self, amount: u64)
        requires
            old(self)@.total + amount <= u64::MAX,
            client_wf(old(self)@),
        ensures
            final(self)@ == (ClientView {
                available: old(self)@.available + amount,
                total: old(self)@.total + amount,
                ..old(self)@
            }),
            client_wf(final(self)@),
    {
        self.available = self.available + amount;
        self.total = self.total + amount;
    }

    /// Moves the amount from the available to the held funds, without
    /// recording a dispute; `total` is unchanged.
    pub fn set_held(&mut self, amount: u64)
        requires
            amount <= old(self)@.available,
            client_wf(old(self)@),
        ensures
            final(self)@ == (ClientView {
                available: old(self)@.available - amount,
                held: old(self)@.held + amount,
                ..old(self)@
            }),
            client_wf(final(self)@),
    {
        self.held = self.held + amount;
        self.available = self.available - amount;
    }

    /// Adds the amount to the available and total funds of the account.
    /// The whole effect, success and failure alike, is `deposit_spec`.
    pub fn deposit(&mut self, amount: Option<u64>) -> (r: Result<(), ErrorKind>)
        requires
            client_wf(old(self)@),
        ensures
            final(self)@ == deposit_spec(old(self)@, amount).0,
            r == deposit_spec(old(self)@, amount).1,
            client_wf(final(self)@),
    {
        match amount {
            Option::None => Result::Err(ErrorKind::MissingAmount),
            Option::Some(value) => {
                if value == 0 {
                    Result::Err(ErrorKind::NonPositiveAmount)
                } else if value > u64::MAX - self.total {
                    Result::Err(ErrorKind::AmountOverflow)
                } else {
                    self.available = self.available + value;
                    self.total = self.total + value;
                    Result::Ok(())
                }
            },
        }
    }

    /// Removes the amount from the available and total funds, failing when
    /// the available funds do not cover it. The whole effect is
    /// `withdraw_spec`.
    pub fn withdraw(&mut self, amount: Option<u64>) -> (r: Result<(), ErrorKind>)
        requires
            client_wf(old(self)@),
        ensures
            final(self)@ == withdraw_spec(old(self)@, amount).0,
            r == withdraw_spec(old(self)@, amount).1,
            client_wf(final(self)@),
    {
        match amount {
            Option::None => Result::Err(ErrorKind::MissingAmount),
            Option::Some(value) => {
                if value == 0 {
                    Result::Err(ErrorKind::NonPositiveAmount)
                } else if self.available < value {
                    Result::Err(ErrorKind::InsufficientFunds)
                } else {
                    self.available = self.available - value;
                    self.total = self.total - value;
                    Result::Ok(())
                }
            },
        }
    }

    /// Opens a dispute: freezes the amount of the referenced transaction by
    /// moving it from available to held funds, and records the transaction id
    /// so a later resolve or chargeback finds the exact amount to release.
    /// The whole effect is `dispute_spec`.
    pub fn dispute(&mut self, tx_id: u32, amount: Option<u64>) -> (r: Result<(), ErrorKind>)
        requires
            client_wf(old(self)@),
        ensures
            final(self)@ == dispute_spec(old(self)@, tx_id, amount).0,
            r == dispute_spec(old(self)@, tx_id, amount).1,
            client_wf(final(self)@),
    {
        match amount {
            Option::None => Result::Err(ErrorKind::MissingAmount),
            Option::Some(value) => {
                if value == 0 {
                    Result::Err(ErrorKind::NonPositiveAmount)
                } else if self.disputed_transactions.contains_key(&tx_id) {
                    Result::Err(ErrorKind::DuplicateDispute)
                } else if self.available < value {
                    Result::Err(ErrorKind::InsufficientFunds)
                } else {
                    self.available = self.available - value;
                    self.held = self.held + value;
                    self.disputed_transactions.insert(tx_id, value);
                    Result::Ok(())
                }
            },
        }
    }

    /// Undoes a dispute: returns the held amount to the available funds and
    /// drops the transaction id from the disputed set. The whole effect is
    /// `resolve_spec`.
    pub fn resolve(&mut self, tx_id: u32) -> (r: Result<(), ErrorKind>)
        requires
            client_wf(old(self)@),
        ensures
            final(self)@ == resolve_spec(old(self)@, tx_id).0,
            r == resolve_spec(old(self)@, tx_id).1,
            client_wf(final(self)@),
    {
        if !self.disputed_transactions.contains_key(&tx_id) {
            return Result::Err(ErrorKind::NotDisputed);
        }
        let amount = *self.disputed_transactions.get(&tx_id).unwrap();
        if self.held < amount {
            Result::Err(ErrorKind::InsufficientHeld)
        } else {
            self.held = self.held - amount;
            self.available = self.available + amount;
            self.disputed_transactions.remove(&tx_id);
            Result::Ok(())
        }
    }

    /// Finalizes a dispute against the account: the held amount leaves the
    /// account entirely and the account is locked irrevocably. The whole
    /// effect is `chargeback_spec`.
    pub fn chargeback(&mut self, tx_id: u32) -> (r: Result<(), ErrorKind>)
        requires
            client_wf(old(self)@),
        ensures
            final(self)@ == chargeback_spec(old(self)@, tx_id).0,
            r == chargeback_spec(old(self)@, tx_id).1,
            client_wf(final(self)@),
    {
        if !self.disputed_transactions.contains_key(&tx_id) {
            return Result::Err(ErrorKind::NotDisputed);
        }
        let disputed_amount = *self.disputed_transactions.get(&tx_id).unwrap();
        if self.held < disputed_amount {
            Result::Err(ErrorKind::InsufficientHeld)
        } else {
            self.held = self.held - disputed_amount;
            self.total = self.total - disputed_amount;
            self.disputed_transactions.remove(&tx_id);
            self.locked = true;
            Result::Ok(())
        }
    }
}

} // verus!
