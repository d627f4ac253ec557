//! The transaction ledger: an append-only index of every successfully
//! applied deposit and withdrawal, keyed by transaction id, so that a later
//! dispute can find the referenced transaction's owning client and original
//! amount.
//!
//! Storage is a `dashmap::DashMap`, the concurrent map the surrounding
//! program shares between threads; the ledger's own logic is verified against
//! the contracts of the small trusted wrappers below, which state what the
//! map's `new`, `insert` and `get` do to its contents.

use vstd::prelude::*;
use crate::transactions::ErrorKind;

verus! {

#[verifier::external_type_specification]
#[verifier::external_body]
#[verifier::reject_recursive_types(K)]
#[verifier::reject_recursive_types(V)]
#[verifier::reject_recursive_types(S)]
pub struct ExDashMap<K, V, S>(dashmap::DashMap<K, V, S>);

/// The contents of the ledger's map: each transaction id is mapped to the
/// owning client id and the original amount in ten-thousandths of a unit.
pub uninterp spec fn ledger_entries(m: dashmap::DashMap<u32, (u16, u64)>) -> Map<u32, (u16, u64)>;

/// The empty ledger contents.
pub open spec fn no_entries() -> Map<u32, (u16, u64)> {
    Map::empty()
}

/// What a dispute's cross-reference yields: the referenced transaction's
/// original amount when it is on record and belongs to the claiming client,
/// and `UnknownTransaction` otherwise.
pub open spec fn reference_spec(entries: Map<u32, (u16, u64)>, tx: u32, client: u16) -> Result<
    u64,
    ErrorKind,
> {
    if entries.contains_key(tx) && entries[tx].0 == client {
        Result::Ok(entries[tx].1)
    } else {
        Result::Err(ErrorKind::UnknownTransaction)
    }
}

/// Relies on dashmap::DashMap::insert: maps the key to the new value,
/// replacing the value stored under it before, and leaves every other key
/// unchanged.
#[verifier::external_body]
fn ledger_map_insert(m: &mut dashmap::DashMap<u32, (u16, u64)>, tx: u32, entry: (u16, u64))
    ensures
        ledger_entries(*final(m)) == ledger_entries(*old(m)).insert(tx, entry),
{
    m.insert(tx, entry);
}

/// Relies on dashmap::DashMap::get: returns the value stored under the key,
/// or nothing when the key is absent.
#[verifier::external_body]
fn ledger_map_get(m: &dashmap::DashMap<u32, (u16, u64)>, tx: u32) -> (r: Option<(u16, u64)>)
    ensures
        r is Some <==> ledger_entries(*m).contains_key(tx),
        r is Some ==> r->Some_0 == ledger_entries(*m)[tx],
{
    m.get(&tx).map(|e| *e.value())
}

/// The append-only transaction index. Every stored amount is strictly
/// positive: a record that fails validation is never appended, so it is
/// never referenceable by a future dispute.
pub struct Ledger {
    map: dashmap::DashMap<u32, (u16, u64)>,
}

/// Relies on dashmap::DashMap::new: the new map is empty, so the new ledger
/// has nothing on record.
#[verifier::external_body]
fn ledger_empty() -> (r: Ledger)
    ensures
        r@ == no_entries(),
{
    Ledger { map: dashmap::DashMap::new() }
}

impl View for Ledger {
    type V = Map<u32, (u16, u64)>;

    closed spec fn view(&self) -> Map<u32, (u16, u64)> {
        ledger_entries(self.map)
    }
}

impl Ledger {
    /// Every amount on record is strictly positive.
    pub open spec fn wf(&self) -> bool {
        forall|tx: u32| self@.contains_key(tx) ==> #[trigger] self@[tx].1 > 0
    }

    pub fn new() -> (r: Self)
        ensures
            r@ == no_entries(),
            r.wf(),
    {
        ledger_empty()
    }

    /// Records a successfully applied deposit or withdrawal under its
    /// transaction id. A duplicate transaction id is a protocol violation;
    /// the last write wins, replacing the record stored before.
    pub fn append(&mut self, tx: u32, client: u16, amount: u64)
        requires
            old(self).wf(),
            amount > 0,
        ensures
            final(self)@ == old(self)@.insert(tx, (client, amount)),
            final(self).wf(),
    {
        ledger_map_insert(&mut self.map, tx, (client, amount));
        proof {
            assert forall|t: u32| self@.contains_key(t) implies #[trigger] self@[t].1 > 0 by {
                if t != tx {
                    assert(old(self)@.contains_key(t) && old(self)@[t].1 > 0);
                }
            }
        }
    }

    /// Looks up the referenced transaction: the owning client id and the
    /// original amount, or nothing when the transaction id was never
    /// recorded.
    pub fn lookup(&self, tx: u32) -> (r: Option<(u16, u64)>)
        ensures
            r is Some <==> self@.contains_key(tx),
            r is Some ==> r->Some_0 == self@[tx],
    {
        ledger_map_get(&self.map, tx)
    }

    /// Fails a dispute's cross-reference: the referenced transaction must be
    /// on record and belong to the claiming client.
    pub fn reference_for(&self, tx: u32, client: u16) -> (r: Result<u64, ErrorKind>)
        ensures
            r == reference_spec(self@, tx, client),
    {
        match self.lookup(tx) {
            Option::Some(entry) => {
                if entry.0 == client {
                    Result::Ok(entry.1)
                } else {
                    Result::Err(ErrorKind::UnknownTransaction)
                }
            },
            Option::None => Result::Err(ErrorKind::UnknownTransaction),
        }
    }
}

} // verus!
