//! The laws of the ledger state machine, each proved over the
//! specification-level transitions that the executable functions are pinned
//! to: the balance invariant, the terminality of a locked account, the
//! idempotence boundary of resolves and chargebacks, and the
//! deposit-withdrawal round trip.

use vstd::prelude::*;
use crate::client::{
    chargeback_spec, client_wf, deposit_spec, resolve_spec, withdraw_spec, ClientView,
};
use crate::processor::{proc_wf, step, steps, ProcView};
use crate::transactions::{ErrorKind, Transaction};

verus! {

/// Balance invariant: processing any record keeps every account well
/// formed, `total == available + held` included, and keeps every ledger
/// amount strictly positive.
pub proof fn law_step_preserves_invariants(s: ProcView, t: Transaction)
    requires
        proc_wf(s),
    ensures
        proc_wf(step(s, t).0),
        forall|id: u16|
            step(s, t).0.accounts.contains_key(id) ==> (#[trigger] step(s, t).0.accounts[id]).total
                == step(s, t).0.accounts[id].available + step(s, t).0.accounts[id].held,
{
}

/// Balance invariant over a whole run: after any stream of records, every
/// account holds `total == available + held`.
pub proof fn law_run_preserves_invariants(s: ProcView, ts: Seq<Transaction>)
    requires
        proc_wf(s),
    ensures
        proc_wf(steps(s, ts)),
        forall|id: u16|
            steps(s, ts).accounts.contains_key(id) ==> (#[trigger] steps(s, ts).accounts[id]).total
                == steps(s, ts).accounts[id].available + steps(s, ts).accounts[id].held,
    decreases ts.len(),
{
    if ts.len() > 0 {
        law_run_preserves_invariants(s, ts.drop_last());
        law_step_preserves_invariants(steps(s, ts.drop_last()), ts.last());
    }
}

/// A locked account is terminal: a record for that client leaves the whole
/// state unchanged and is rejected with `AccountLocked`.
pub proof fn law_locked_account_rejects(s: ProcView, t: Transaction)
    requires
        s.accounts.contains_key(t.client),
        s.accounts[t.client].locked,
    ensures
        step(s, t).0 == s,
        step(s, t).1 == Result::<(), ErrorKind>::Err(ErrorKind::AccountLocked),
{
    assert(step(s, t).0 =~~= s);
}

/// Once locked, always locked: no record, for this client or any other,
/// unlocks an account or changes its balances.
pub proof fn law_locked_is_permanent(s: ProcView, t: Transaction, id: u16)
    requires
        s.accounts.contains_key(id),
        s.accounts[id].locked,
    ensures
        step(s, t).0.accounts.contains_key(id),
        step(s, t).0.accounts[id] == s.accounts[id],
{
}

/// Once locked, always locked, over a whole run: no stream of subsequent
/// records changes a locked account's available, held or total funds, or
/// unlocks it.
pub proof fn law_run_locked_permanent(s: ProcView, ts: Seq<Transaction>, id: u16)
    requires
        s.accounts.contains_key(id),
        s.accounts[id].locked,
    ensures
        steps(s, ts).accounts.contains_key(id),
        steps(s, ts).accounts[id] == s.accounts[id],
    decreases ts.len(),
{
    if ts.len() > 0 {
        law_run_locked_permanent(s, ts.drop_last(), id);
        law_locked_is_permanent(steps(s, ts.drop_last()), ts.last(), id);
    }
}

/// Idempotence boundary of a resolve: once a dispute is resolved, resolving
/// or charging back the same transaction id again fails with `NotDisputed`.
pub proof fn law_resolve_once(c: ClientView, tx_id: u32)
    requires
        resolve_spec(c, tx_id).1 is Ok,
    ensures
        resolve_spec(resolve_spec(c, tx_id).0, tx_id).1 == Result::<(), ErrorKind>::Err(
            ErrorKind::NotDisputed,
        ),
        chargeback_spec(resolve_spec(c, tx_id).0, tx_id).1 == Result::<(), ErrorKind>::Err(
            ErrorKind::NotDisputed,
        ),
{
}

/// Idempotence boundary of a chargeback: once a dispute is charged back,
/// resolving or charging back the same transaction id again fails with
/// `NotDisputed`.
pub proof fn law_chargeback_once(c: ClientView, tx_id: u32)
    requires
        chargeback_spec(c, tx_id).1 is Ok,
    ensures
        resolve_spec(chargeback_spec(c, tx_id).0, tx_id).1 == Result::<(), ErrorKind>::Err(
            ErrorKind::NotDisputed,
        ),
        chargeback_spec(chargeback_spec(c, tx_id).0, tx_id).1 == Result::<(), ErrorKind>::Err(
            ErrorKind::NotDisputed,
        ),
{
}

/// Idempotence boundary through the processor: a resolve record that
/// succeeded, replayed at once, fails with `NotDisputed`.
pub proof fn law_step_resolve_once(s: ProcView, t: Transaction)
    requires
        t.transaction_type == crate::transactions::TxKind::Resolve,
        step(s, t).1 is Ok,
    ensures
        step(step(s, t).0, t).1 == Result::<(), ErrorKind>::Err(ErrorKind::NotDisputed),
{
}

/// Idempotence boundary through the processor: a chargeback record that
/// succeeded locks the account, so its replay is rejected with
/// `AccountLocked` before the dispute lookup is even reached.
pub proof fn law_step_chargeback_once(s: ProcView, t: Transaction)
    requires
        t.transaction_type == crate::transactions::TxKind::Chargeback,
        step(s, t).1 is Ok,
    ensures
        step(step(s, t).0, t).1 == Result::<(), ErrorKind>::Err(ErrorKind::AccountLocked),
{
}

/// Round trip: a deposit of an amount followed at once by a withdrawal of
/// the same amount succeeds and returns the account to exactly its prior
/// state, held funds and disputes untouched.
pub proof fn law_deposit_withdraw_round_trip(c: ClientView, amount: u64)
    requires
        client_wf(c),
        amount > 0,
        c.total + amount <= u64::MAX,
    ensures
        deposit_spec(c, Option::Some(amount)).1 is Ok,
        withdraw_spec(deposit_spec(c, Option::Some(amount)).0, Option::Some(amount)).1 is Ok,
        withdraw_spec(deposit_spec(c, Option::Some(amount)).0, Option::Some(amount)).0 == c,
{
    assert(withdraw_spec(deposit_spec(c, Option::Some(amount)).0, Option::Some(amount)).0 =~~= c);
}

} // verus!
