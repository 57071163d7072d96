//! An in-memory committed-state store.

use vstd::prelude::*;
use crate::hostapi::error::{HostError, HostErrorView};
use crate::hostapi::state_store::StateStore;
use crate::primitives::bytemap::ByteMap;
use crate::primitives::merkle::value_bytes;

verus! {

/// Committed state held in an ordered map.
#[derive(Debug)]
pub struct MemStore {
    data: ByteMap<Vec<u8>>,
}

impl View for MemStore {
    type V = Map<Seq<u8>, Seq<u8>>;

    closed spec fn view(&self) -> Map<Seq<u8>, Seq<u8>> {
        self.data@.map_values(value_bytes())
    }
}

impl MemStore {
    /// An empty store.
    pub fn new() -> (s: MemStore)
        ensures
            s@ == Map::<Seq<u8>, Seq<u8>>::empty(),
    {
        let s = MemStore { data: ByteMap::new() };
        assert(s@ =~= Map::<Seq<u8>, Seq<u8>>::empty());
        s
    }

    /// A store that holds `data`.
    pub fn with_data(data: ByteMap<Vec<u8>>) -> (s: MemStore)
        ensures
            s@ == data@.map_values(value_bytes()),
    {
        MemStore { data }
    }

    /// Stores `value` under `key`.
    pub fn insert(&mut self, key: Vec<u8>, value: Vec<u8>)
        ensures
            final(self)@ == old(self)@.insert(key@, value@),
    {
        self.data.insert(key, value);
        assert(self@ =~= old(self)@.insert(key@, value@));
    }

    /// Removes `key`.
    pub fn remove(&mut self, key: &[u8])
        ensures
            final(self)@ == old(self)@.remove(key@),
    {
        self.data.remove(key);
        assert(self@ =~= old(self)@.remove(key@));
    }

    /// Number of keys.
    pub fn len(&self) -> (n: usize)
        ensures
            self@.dom().finite(),
            n == self@.dom().len(),
    {
        let n = self.data.len();
        assert(self@.dom() =~= self.data@.dom());
        n
    }

    /// Whether the store is empty.
    pub fn is_empty(&self) -> (r: bool)
        ensures
            r == (self@ == Map::<Seq<u8>, Seq<u8>>::empty()),
    {
        let r = self.data.is_empty();
        proof {
            if r {
                assert(self@ =~= Map::<Seq<u8>, Seq<u8>>::empty());
            } else if self@ == Map::<Seq<u8>, Seq<u8>>::empty() {
                assert(self.data@.dom() =~= self@.dom());
                assert(self.data@ =~= Map::empty());
            }
        }
        r
    }
}

impl Default for MemStore {
    fn default() -> (s: MemStore)
        ensures
            s@ == Map::<Seq<u8>, Seq<u8>>::empty(),
    {
        MemStore::new()
    }
}

impl StateStore for MemStore {
    open spec fn lookup(&self, key: Seq<u8>) -> Result<Option<Seq<u8>>, HostErrorView> {
        if self@.contains_key(key) {
            Ok(Some(self@[key]))
        } else {
            Ok(None)
        }
    }

    fn get(&self, key: &[u8]) -> (r: Result<Option<Vec<u8>>, HostError>) {
        match self.data.get(key) {
            Some(v) => Ok(Some(v.clone())),
            None => Ok(None),
        }
    }

    fn contains(&self, key: &[u8]) -> (r: Result<bool, HostError>) {
        Ok(self.data.contains_key(key))
    }
}

} // verus!
