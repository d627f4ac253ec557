//! The account registry: the mapping from client id to account, created
//! lazily on first reference and never destroyed during a run.
//!
//! The accounts themselves live in a verified vector; a `dashmap::DashMap`
//! (the concurrent map the surrounding program shares between threads) keeps
//! the index of each client's slot in that vector. The registry's invariant
//! ties the two together: the map sends each known client id to the slot of
//! its account, and every slot is indexed under its account's id.

use vstd::prelude::*;
use crate::client::{empty_client, client_wf, Client, ClientView};

verus! {

/// The contents of the registry's index map: each client id is mapped to the
/// slot of that client's account.
pub uninterp spec fn registry_slots(m: dashmap::DashMap<u16, usize>) -> Map<u16, usize>;

/// The empty slot index.
pub open spec fn no_slots() -> Map<u16, usize> {
    Map::empty()
}

/// The empty registry contents.
pub open spec fn no_accounts() -> Map<u16, ClientView> {
    Map::empty()
}

/// Relies on dashmap::DashMap::insert: maps the key to the new value,
/// replacing the value stored under it before, and leaves every other key
/// unchanged.
#[verifier::external_body]
fn slot_map_insert(m: &mut dashmap::DashMap<u16, usize>, client: u16, slot: usize)
    ensures
        registry_slots(*final(m)) == registry_slots(*old(m)).insert(client, slot),
{
    m.insert(client, slot);
}

/// Relies on dashmap::DashMap::get: returns the value stored under the key,
/// or nothing when the key is absent.
#[verifier::external_body]
fn slot_map_get(m: &dashmap::DashMap<u16, usize>, client: u16) -> (r: Option<usize>)
    ensures
        r is Some <==> registry_slots(*m).contains_key(client),
        r is Some ==> r->Some_0 == registry_slots(*m)[client],
{
    m.get(&client).map(|e| *e.value())
}

/// The map from client id to account.
pub struct Registry {
    pub(crate) index: dashmap::DashMap<u16, usize>,
    pub(crate) accounts: Vec<Client>,
}

/// Relies on dashmap::DashMap::new: the new map is empty, so the new
/// registry holds no account.
#[verifier::external_body]
fn registry_empty() -> (r: Registry)
    ensures
        registry_slots(r.index) == no_slots(),
        r.accounts@.len() == 0,
{
    Registry { index: dashmap::DashMap::new(), accounts: Vec::new() }
}

impl View for Registry {
    type V = Map<u16, ClientView>;

    closed spec fn view(&self) -> Map<u16, ClientView> {
        Map::new(
            |id: u16| registry_slots(self.index).contains_key(id),
            |id: u16| self.accounts@[registry_slots(self.index)[id] as int]@,
        )
    }
}

impl Registry {
    /// The index map and the account vector agree: each known client id
    /// points at the slot holding its account, each slot is indexed under
    /// its account's id, and every account is well formed.
    pub closed spec fn wf(&self) -> bool {
        &&& forall|id: u16|
            registry_slots(self.index).contains_key(id) ==> {
                &&& (#[trigger] registry_slots(self.index)[id]) < self.accounts@.len()
                &&& self.accounts@[registry_slots(self.index)[id] as int]@.id == id
            }
        &&& forall|i: int|
            0 <= i < self.accounts@.len() ==> {
                &&& registry_slots(self.index).contains_key(#[trigger] self.accounts@[i]@.id)
                &&& registry_slots(self.index)[self.accounts@[i]@.id] == i
            }
        &&& forall|i: int| 0 <= i < self.accounts@.len() ==> client_wf(#[trigger] self.accounts@[i]@)
    }

    /// Whatever the registry holds under a client id is that client's
    /// account, well formed.
    pub proof fn lemma_wf_accounts(&self)
        requires
            self.wf(),
        ensures
            forall|id: u16|
                self@.contains_key(id) ==> client_wf(#[trigger] self@[id]) && self@[id].id == id,
    {
    }

    pub(crate) fn new() -> (r: Self)
        ensures
            r@ == no_accounts(),
            r.wf(),
            r.accounts@.len() == 0,
    {
        let r = registry_empty();
        proof {
            assert(r@ =~= no_accounts());
        }
        r
    }

    /// Finds the slot of the client's account, creating the account on first
    /// reference: all balances at zero and unlocked.
    pub(crate) fn get_or_create(&mut self, id: u16) -> (slot: usize)
        requires
            old(self).wf(),
        ensures
            final(self).wf(),
            slot < final(self).accounts@.len(),
            final(self).accounts@[slot as int]@.id == id,
            final(self)@ == (if old(self)@.contains_key(id) {
                old(self)@
            } else {
                old(self)@.insert(id, empty_client(id))
            }),
            final(self)@.contains_key(id),
            final(self)@[id] == final(self).accounts@[slot as int]@,
            old(self)@.contains_key(id) ==> *final(self) == *old(self),
            final(self).accounts@.len() == (if old(self)@.contains_key(id) {
                old(self).accounts@.len()
            } else {
                old(self).accounts@.len() + 1
            }),
            forall|i: int|
                0 <= i < old(self).accounts@.len() ==> final(self).accounts@[i]
                    == old(self).accounts@[i],
    {
        match slot_map_get(&self.index, id) {
            Option::Some(slot) => slot,
            Option::None => {
                let slot = self.accounts.len();
                self.accounts.push(Client::new(id));
                slot_map_insert(&mut self.index, id, slot);
                proof {
                    assert(self@ =~= old(self)@.insert(id, empty_client(id)));
                }
                slot
            },
        }
    }

    /// Takes the account in a slot out for mutation, leaving a fresh
    /// placeholder account with the same client id in its place, so the
    /// registry invariant survives while the caller works on the account.
    pub(crate) fn take_account(&mut self, slot: usize) -> (c: Client)
        requires
            old(self).wf(),
            slot < old(self).accounts@.len(),
        ensures
            final(self).wf(),
            c == old(self).accounts@[slot as int],
            client_wf(c@),
            final(self).accounts@.len() == old(self).accounts@.len(),
            final(self).accounts@[slot as int]@.id == c@.id,
            final(self)@ == old(self)@.insert(c@.id, empty_client(c@.id)),
    {
        let id = self.accounts[slot].id();
        let mut taken = Client::new(id);
        core::mem::swap(&mut taken, &mut self.accounts[slot]);
        proof {
            assert forall|j: u16| registry_slots(self.index).contains_key(j) implies {
                &&& (#[trigger] registry_slots(self.index)[j]) < self.accounts@.len()
                &&& self.accounts@[registry_slots(self.index)[j] as int]@.id == j
            } by {
                assert(registry_slots(old(self).index)[j] < old(self).accounts@.len());
            }
            assert(self@ =~~= old(self)@.insert(id, empty_client(id)));
        }
        taken
    }

    /// Puts a mutated account back into its slot. The account must keep the
    /// client id of the slot's placeholder and be well formed; the registry
    /// then reads as before with that one client's account replaced.
    pub(crate) fn put_account(&mut self, slot: usize, c: Client)
        requires
            old(self).wf(),
            slot < old(self).accounts@.len(),
            c@.id == old(self).accounts@[slot as int]@.id,
            client_wf(c@),
        ensures
            final(self).wf(),
            final(self).accounts@.len() == old(self).accounts@.len(),
            final(self)@ == old(self)@.insert(c@.id, c@),
    {
        let ghost id = c@.id;
        let mut given = c;
        core::mem::swap(&mut given, &mut self.accounts[slot]);
        proof {
            assert forall|j: u16| registry_slots(self.index).contains_key(j) implies {
                &&& (#[trigger] registry_slots(self.index)[j]) < self.accounts@.len()
                &&& self.accounts@[registry_slots(self.index)[j] as int]@.id == j
            } by {
                assert(registry_slots(old(self).index)[j] < old(self).accounts@.len());
            }
            assert(self@ =~~= old(self)@.insert(id, self.accounts@[slot as int]@));
        }
    }

    /// The accounts themselves, each standing in the registry under its own
    /// client id.
    pub fn accounts_vec(&self) -> (r: &Vec<Client>)
        requires
            self.wf(),
        ensures
            forall|i: int|
                0 <= i < r@.len() ==> self@.contains_key(#[trigger] r@[i]@.id) && self@[r@[i]@.id]
                    == r@[i]@,
            forall|id: u16|
                self@.contains_key(id) ==> exists|i: int|
                    0 <= i < r@.len() && (#[trigger] r@[i])@.id == id,
    {
        proof {
            assert forall|id: u16| self@.contains_key(id) implies exists|i: int|
                0 <= i < self.accounts@.len() && (#[trigger] self.accounts@[i])@.id == id by {
                let slot = registry_slots(self.index)[id] as int;
                assert(0 <= slot < self.accounts@.len() && self.accounts@[slot]@.id == id);
            }
        }
        &self.accounts
    }
}

} // verus!
