//! The transaction processor: the state machine that consumes one
//! transaction record at a time, looks up the account and, if needed, the
//! referenced transaction in the ledger, and applies the state transition.
//!
//! The whole effect of processing a record, on the account registry, on the
//! ledger, and the structured outcome, is pinned by the specification-level
//! function `step`; a run over a record stream is `steps`, its fold.

use vstd::prelude::*;
use crate::client::{
    chargeback_spec, client_wf, deposit_spec, dispute_spec, empty_client, resolve_spec,
    withdraw_spec, Client, ClientView,
};
use crate::ledger::{reference_spec, Ledger};
use crate::registry::Registry;
use crate::transactions::{ErrorKind, Transaction, TxKind};

verus! {

/// The mathematical state of a whole run: the ledger of referenceable
/// transactions and the account of every client seen so far.
#[verifier::ext_equal]
pub ghost struct ProcView {
    pub ledger: Map<u32, (u16, u64)>,
    pub accounts: Map<u16, ClientView>,
}

/// Well-formedness of a run's state: every account is well formed and
/// registered under its own client id, and every ledger amount is strictly
/// positive.
pub open spec fn proc_wf(s: ProcView) -> bool {
    &&& forall|id: u16|
        s.accounts.contains_key(id) ==> client_wf(#[trigger] s.accounts[id]) && s.accounts[id].id
            == id
    &&& forall|tx: u32| s.ledger.contains_key(tx) ==> (#[trigger] s.ledger[tx]).1 > 0
}

/// A deposit against one account: rejected outright when the account is
/// locked, otherwise `deposit_spec`.
pub open spec fn deposit_step(c: ClientView, amount: Option<u64>) -> (ClientView, Result<
    (),
    ErrorKind,
>) {
    if c.locked {
        (c, Result::Err(ErrorKind::AccountLocked))
    } else {
        deposit_spec(c, amount)
    }
}

/// A withdrawal against one account: rejected outright when the account is
/// locked, otherwise `withdraw_spec`.
pub open spec fn withdraw_step(c: ClientView, amount: Option<u64>) -> (ClientView, Result<
    (),
    ErrorKind,
>) {
    if c.locked {
        (c, Result::Err(ErrorKind::AccountLocked))
    } else {
        withdraw_spec(c, amount)
    }
}

/// A dispute against one account, given the outcome of the ledger
/// cross-reference: rejected outright when the account is locked; failing
/// the cross-reference's error when the referenced transaction is unknown;
/// otherwise `dispute_spec` on the referenced amount.
pub open spec fn dispute_step(
    c: ClientView,
    tx: u32,
    reference: Result<u64, ErrorKind>,
) -> (ClientView, Result<(), ErrorKind>) {
    if c.locked {
        (c, Result::Err(ErrorKind::AccountLocked))
    } else {
        match reference {
            Result::Err(e) => (c, Result::Err(e)),
            Result::Ok(a) => dispute_spec(c, tx, Option::Some(a)),
        }
    }
}

/// A resolve against one account: rejected outright when the account is
/// locked, otherwise `resolve_spec`.
pub open spec fn resolve_step(c: ClientView, tx: u32) -> (ClientView, Result<(), ErrorKind>) {
    if c.locked {
        (c, Result::Err(ErrorKind::AccountLocked))
    } else {
        resolve_spec(c, tx)
    }
}

/// A chargeback against one account: rejected outright when the account is
/// locked, otherwise `chargeback_spec`.
pub open spec fn chargeback_step(c: ClientView, tx: u32) -> (ClientView, Result<(), ErrorKind>) {
    if c.locked {
        (c, Result::Err(ErrorKind::AccountLocked))
    } else {
        chargeback_spec(c, tx)
    }
}

/// The record's effect on its own account, after the account has been
/// created on first reference.
pub open spec fn account_step(s: ProcView, c: ClientView, t: Transaction) -> (ClientView, Result<
    (),
    ErrorKind,
>) {
    match t.transaction_type {
        TxKind::Deposit => deposit_step(c, t.amount),
        TxKind::Withdrawal => withdraw_step(c, t.amount),
        TxKind::Dispute => dispute_step(c, t.tx, reference_spec(s.ledger, t.tx, t.client)),
        TxKind::Resolve => resolve_step(c, t.tx),
        TxKind::Chargeback => chargeback_step(c, t.tx),
    }
}

/// The whole effect of one record: the account is created on first
/// reference (even when the record then fails), mutated per its kind, and
/// the record is appended to the ledger only when it is a deposit or a
/// withdrawal and only after it succeeded, so a failed record is never
/// referenceable by a later dispute.
pub open spec fn step(s: ProcView, t: Transaction) -> (ProcView, Result<(), ErrorKind>) {
    let c = if s.accounts.contains_key(t.client) {
        s.accounts[t.client]
    } else {
        empty_client(t.client)
    };
    let outcome = account_step(s, c, t);
    let appended = outcome.1 is Ok && (t.transaction_type == TxKind::Deposit
        || t.transaction_type == TxKind::Withdrawal);
    (
        ProcView {
            ledger: if appended {
                s.ledger.insert(t.tx, (t.client, t.amount->Some_0))
            } else {
                s.ledger
            },
            accounts: s.accounts.insert(t.client, outcome.0),
        },
        outcome.1,
    )
}

/// A run over a stream of records, applied one at a time in arrival order.
pub open spec fn steps(s: ProcView, ts: Seq<Transaction>) -> ProcView
    decreases ts.len(),
{
    if ts.len() == 0 {
        s
    } else {
        step(steps(s, ts.drop_last()), ts.last()).0
    }
}

/// Gate and validation for one deposit record: a locked account rejects it,
/// and otherwise the amount must be present, positive and within range.
pub fn process_deposit(client_entry: &mut Client, transaction: &Transaction) -> (r: Result<
    (),
    ErrorKind,
>)
    requires
        client_wf(old(client_entry)@),
    ensures
        final(client_entry)@ == deposit_step(old(client_entry)@, transaction.amount).0,
        r == deposit_step(old(client_entry)@, transaction.amount).1,
        client_wf(final(client_entry)@),
{
    if client_entry.is_account_locked(transaction.tx) {
        return Result::Err(ErrorKind::AccountLocked);
    }
    client_entry.deposit(transaction.amount)
}

/// Gate and validation for one withdrawal record: a locked account rejects
/// it, and otherwise the available funds must cover the amount.
pub fn process_withdrawal(client_entry: &mut Client, transaction: &Transaction) -> (r: Result<
    (),
    ErrorKind,
>)
    requires
        client_wf(old(client_entry)@),
    ensures
        final(client_entry)@ == withdraw_step(old(client_entry)@, transaction.amount).0,
        r == withdraw_step(old(client_entry)@, transaction.amount).1,
        client_wf(final(client_entry)@),
{
    if client_entry.is_account_locked(transaction.tx) {
        return Result::Err(ErrorKind::AccountLocked);
    }
    client_entry.withdraw(transaction.amount)
}

/// Gate for one dispute record: a locked account rejects it; the ledger
/// cross-reference (resolved by the caller) must have found the referenced
/// transaction under this client; then the referenced amount is held.
pub fn process_dispute(
    client_entry: &mut Client,
    transaction: &Transaction,
    reference: Result<u64, ErrorKind>,
) -> (r: Result<(), ErrorKind>)
    requires
        client_wf(old(client_entry)@),
    ensures
        final(client_entry)@ == dispute_step(old(client_entry)@, transaction.tx, reference).0,
        r == dispute_step(old(client_entry)@, transaction.tx, reference).1,
        client_wf(final(client_entry)@),
{
    if client_entry.is_account_locked(transaction.tx) {
        return Result::Err(ErrorKind::AccountLocked);
    }
    match reference {
        Result::Err(e) => Result::Err(e),
        Result::Ok(amount) => client_entry.dispute(transaction.tx, Option::Some(amount)),
    }
}

/// Gate for one resolve record: a locked account rejects it; otherwise the
/// referenced transaction must be under dispute and its amount is released.
pub fn process_resolve(client_entry: &mut Client, transaction: &Transaction) -> (r: Result<
    (),
    ErrorKind,
>)
    requires
        client_wf(old(client_entry)@),
    ensures
        final(client_entry)@ == resolve_step(old(client_entry)@, transaction.tx).0,
        r == resolve_step(old(client_entry)@, transaction.tx).1,
        client_wf(final(client_entry)@),
{
    if client_entry.is_account_locked(transaction.tx) {
        return Result::Err(ErrorKind::AccountLocked);
    }
    client_entry.resolve(transaction.tx)
}

/// Gate for one chargeback record: a locked account rejects it; otherwise
/// the referenced transaction must be under dispute, its amount leaves the
/// account and the account is locked.
pub fn process_chargeback(client_entry: &mut Client, transaction: &Transaction) -> (r: Result<
    (),
    ErrorKind,
>)
    requires
        client_wf(old(client_entry)@),
    ensures
        final(client_entry)@ == chargeback_step(old(client_entry)@, transaction.tx).0,
        r == chargeback_step(old(client_entry)@, transaction.tx).1,
        client_wf(final(client_entry)@),
{
    if client_entry.is_account_locked(transaction.tx) {
        return Result::Err(ErrorKind::AccountLocked);
    }
    client_entry.chargeback(transaction.tx)
}

/// The processor: the ledger and the account registry of one run, mutated
/// exclusively through `process`.
pub struct Processor {
    ledger: Ledger,
    registry: Registry,
}

impl View for Processor {
    type V = ProcView;

    closed spec fn view(&self) -> ProcView {
        ProcView { ledger: self.ledger@, accounts: self.registry@ }
    }
}

impl Processor {
    /// The processor's structures are intact: the registry's index and
    /// account vector agree and every account and ledger entry is well
    /// formed.
    pub closed spec fn wf(&self) -> bool {
        self.ledger.wf() && self.registry.wf()
    }

    /// A well-formed processor's mathematical state is well formed.
    pub proof fn lemma_wf_view(&self)
        requires
            self.wf(),
        ensures
            proc_wf(self@),
    {
        self.registry.lemma_wf_accounts();
    }

    /// A fresh run: no transaction on record, no account.
    pub fn new() -> (r: Self)
        ensures
            r.wf(),
            r@ == (ProcView { ledger: Map::empty(), accounts: Map::empty() }),
    {
        let r = Processor { ledger: Ledger::new(), registry: Registry::new() };
        proof {
            assert(r@ =~~= (ProcView { ledger: Map::empty(), accounts: Map::empty() }));
        }
        r
    }

    /// Applies one record: the account is looked up (created on first
    /// reference), the record's kind is dispatched, and a successful deposit
    /// or withdrawal is appended to the ledger. The whole effect, on the
    /// state and on the outcome, is `step`.
    pub fn process(&mut self, t: &Transaction) -> (r: Result<(), ErrorKind>)
        requires
            old(self).wf(),
        ensures
            final(self).wf(),
            final(self)@ == step(old(self)@, *t).0,
            r == step(old(self)@, *t).1,
    {
        let slot = self.registry.get_or_create(t.client);
        let reference = self.ledger.reference_for(t.tx, t.client);
        let mut account = self.registry.take_account(slot);
        let r = match t.transaction_type {
            TxKind::Deposit => process_deposit(&mut account, t),
            TxKind::Withdrawal => process_withdrawal(&mut account, t),
            TxKind::Dispute => process_dispute(&mut account, t, reference),
            TxKind::Resolve => process_resolve(&mut account, t),
            TxKind::Chargeback => process_chargeback(&mut account, t),
        };
        self.registry.put_account(slot, account);
        let append = match r {
            Result::Ok(_) => match t.transaction_type {
                TxKind::Deposit | TxKind::Withdrawal => true,
                _ => false,
            },
            Result::Err(_) => false,
        };
        if append {
            match t.amount {
                Option::Some(a) => self.ledger.append(t.tx, t.client, a),
                Option::None => (),
            }
        }
        proof {
            assert(self@ =~~= step(old(self)@, *t).0);
        }
        r
    }

    /// Applies a whole stream of records, one at a time, in arrival order.
    /// Each record's failure is local: the run always continues. The final
    /// state is `steps` over the stream.
    pub fn process_transactions(&mut self, records: &Vec<Transaction>)
        requires
            old(self).wf(),
        ensures
            final(self).wf(),
            final(self)@ == steps(old(self)@, records@),
    {
        let n = records.len();
        let mut i: usize = 0;
        while i < n
            invariant
                self.wf(),
                i <= n,
                n == records@.len(),
                self@ == steps(old(self)@, records@.subrange(0, i as int)),
            decreases n - i,
        {
            let t = records[i];
            let _outcome = self.process(&t);
            i = i + 1;
            proof {
                let done = records@.subrange(0, i as int);
                assert(done.drop_last() =~= records@.subrange(0, i - 1));
                assert(done.last() == t);
            }
        }
        proof {
            assert(records@.subrange(0, n as int) =~= records@);
        }
    }

    /// The accounts of every client seen so far, each standing in the run's
    /// state under its own client id.
    pub fn clients(&self) -> (r: &Vec<Client>)
        requires
            self.wf(),
        ensures
            forall|i: int|
                0 <= i < r@.len() ==> self@.accounts.contains_key(#[trigger] r@[i]@.id)
                    && self@.accounts[r@[i]@.id] == r@[i]@,
            forall|id: u16|
                self@.accounts.contains_key(id) ==> exists|i: int|
                    0 <= i < r@.len() && (#[trigger] r@[i])@.id == id,
    {
        self.registry.accounts_vec()
    }
}

} // verus!
