//! Storage of agents' secret signing keys.
use vstd::prelude::*;
use crate::strmap::{StrMap, lookup};
use crate::text::{owned, unit_result_view};

verus! {

/// Where agents' 32-byte Ed25519 secret keys are kept, by agent DID.
/// Implementations may fail or consult remote services; each models the
/// keys it holds as `stored_keys`, and says through `save_answer` which
/// answers it may give to a save and what it may become in giving them.
pub trait KeyStore: Sized {
    /// The keys the store holds, by agent DID.
    spec fn stored_keys(&self) -> Map<Seq<char>, [u8; 32]>;

    /// Whether `a` is an answer the store may give when asked to save
    /// `key` under `did`, leaving itself as `after`.
    spec fn save_answer(&self, did: Seq<char>, key: [u8; 32], a: Result<(), Seq<char>>, after: Self) -> bool;

    /// Stores the key of an agent, replacing any earlier one.
    fn save_key(&mut self, agent_did: &str, key: [u8; 32]) -> (r: Result<(), String>)
        ensures
            old(self).save_answer(agent_did@, key, unit_result_view(r), *final(self)),
            r is Ok ==> final(self).stored_keys() == old(self).stored_keys().insert(agent_did@, key),
    ;

    /// The stored key of an agent, if there is one.
    fn load_key(&self, agent_did: &str) -> (r: Result<Option<[u8; 32]>, String>)
        ensures
            r is Ok ==> r == Ok::<Option<[u8; 32]>, String>(lookup(self.stored_keys(), agent_did@)),
    ;

    /// Forgets the key of an agent.
    fn delete_key(&mut self, agent_did: &str) -> (r: Result<(), String>)
        ensures
            r is Ok ==> final(self).stored_keys() == old(self).stored_keys().remove(agent_did@),
    ;
}

/// A key store held in memory.
pub struct MemoryKeyStore {
    keys: StrMap<[u8; 32]>,
}

impl View for MemoryKeyStore {
    type V = Map<Seq<char>, [u8; 32]>;

    closed spec fn view(&self) -> Map<Seq<char>, [u8; 32]> {
        self.keys@
    }
}

impl MemoryKeyStore {
    /// An empty store.
    pub fn new() -> (r: MemoryKeyStore)
        ensures
            r@ == Map::<Seq<char>, [u8; 32]>::empty(),
    {
        MemoryKeyStore { keys: StrMap::new() }
    }
}

impl KeyStore for MemoryKeyStore {
    open spec fn stored_keys(&self) -> Map<Seq<char>, [u8; 32]> {
        self@
    }

    /// Saving never fails.
    open spec fn save_answer(
        &self,
        did: Seq<char>,
        key: [u8; 32],
        a: Result<(), Seq<char>>,
        after: Self,
    ) -> bool {
        a is Ok && after@ == self@.insert(did, key)
    }

    fn save_key(&mut self, agent_did: &str, key: [u8; 32]) -> (r: Result<(), String>)
        ensures
            r is Ok,
            final(self)@ == old(self)@.insert(agent_did@, key),
    {
        self.keys.insert(owned(agent_did), key);
        Ok(())
    }

    fn load_key(&self, agent_did: &str) -> (r: Result<Option<[u8; 32]>, String>)
        ensures
            r == Ok::<Option<[u8; 32]>, String>(lookup(self@, agent_did@)),
    {
        match self.keys.get(agent_did) {
            Some(k) => Ok(Some(*k)),
            None => Ok(None),
        }
    }

    fn delete_key(&mut self, agent_did: &str) -> (r: Result<(), String>)
        ensures
            r is Ok,
            final(self)@ == old(self)@.remove(agent_did@),
    {
        let _ = self.keys.remove(agent_did);
        Ok(())
    }
}

/// A key that was saved is what a later load of the same DID gives back,
/// and saving or deleting one DID leaves every other DID's key as it was.
pub proof fn lemma_key_store_read_back(
    m: Map<Seq<char>, [u8; 32]>,
    did: Seq<char>,
    other: Seq<char>,
    key: [u8; 32],
)
    requires
        other != did,
    ensures
        lookup(m.insert(did, key), did) == Some(key),
        lookup(m.insert(did, key), other) == lookup(m, other),
        lookup(m.remove(did), did) is None,
        lookup(m.remove(did), other) == lookup(m, other),
{
}

} // verus!
