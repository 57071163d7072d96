//! The committed-state store behind a block execution.

use vstd::prelude::*;
use crate::hostapi::error::{HostError, HostErrorView};

verus! {

/// The content of the result of a lookup.
pub open spec fn lookup_view(r: Result<Option<Vec<u8>>, HostError>) -> Result<
    Option<Seq<u8>>,
    HostErrorView,
> {
    match r {
        Ok(Some(v)) => Ok(Some(v@)),
        Ok(None) => Ok(None),
        Err(e) => Err(e@),
    }
}

/// Whether a lookup finds a value.
pub open spec fn presence(r: Result<Option<Seq<u8>>, HostErrorView>) -> Result<bool, HostErrorView> {
    match r {
        Ok(v) => Ok(v is Some),
        Err(e) => Err(e),
    }
}

/// The content of the result of a presence check.
pub open spec fn presence_view(r: Result<bool, HostError>) -> Result<bool, HostErrorView> {
    match r {
        Ok(b) => Ok(b),
        Err(e) => Err(e@),
    }
}

/// Read access to committed state. A store is deterministic: what a lookup
/// returns is a function of the store and the key.
pub trait StateStore {
    /// What a lookup of `key` returns: some fixed function of the store
    /// and the key, which an implementation may state.
    open spec fn lookup(&self, key: Seq<u8>) -> Result<Option<Seq<u8>>, HostErrorView> {
        (arbitrary::<spec_fn(&Self, Seq<u8>) -> Result<Option<Seq<u8>>, HostErrorView>>())(
            self,
            key,
        )
    }

    /// The committed value of `key`, or `None`.
    fn get(&self, key: &[u8]) -> (r: Result<Option<Vec<u8>>, HostError>)
        ensures
            lookup_view(r) == self.lookup(key@),
    ;

    /// Whether `key` has a committed value.
    fn contains(&self, key: &[u8]) -> (r: Result<bool, HostError>)
        ensures
            presence_view(r) == presence(self.lookup(key@)),
    ;
}

} // verus!
