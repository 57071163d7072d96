//! The per-block write overlay: pending sets and deletes over committed
//! state, with an account of the bytes written.

use vstd::prelude::*;
use crate::primitives::bytemap::ByteMap;

verus! {

/// The bytes of a pending write: `Some` for a set, `None` for a delete.
pub open spec fn opt_bytes(v: Option<Vec<u8>>) -> Option<Seq<u8>> {
    match v {
        Some(b) => Some(b@),
        None => None,
    }
}

/// [`opt_bytes`] as a function value.
pub open spec fn write_view() -> spec_fn(Option<Vec<u8>>) -> Option<Seq<u8>> {
    |v: Option<Vec<u8>>| opt_bytes(v)
}

/// `a + b`, capped at `u64::MAX`.
pub open spec fn sat_add(a: u64, b: int) -> u64 {
    if a + b <= u64::MAX {
        (a + b) as u64
    } else {
        u64::MAX
    }
}

/// `a - b`, or zero when `b` is larger.
pub open spec fn sat_sub(a: u64, b: int) -> u64 {
    if a >= b {
        (a - b) as u64
    } else {
        0
    }
}

/// Result of looking a key up in the overlay.
#[derive(Debug, Clone, PartialEq, Eq)]
pub enum OverlayResult {
    /// The overlay sets the key to this value.
    Found(Vec<u8>),
    /// The overlay deletes the key.
    Deleted,
    /// The overlay does not touch the key.
    NotInOverlay,
}

/// Mathematical content of an [`OverlayResult`].
pub enum OverlayResultView {
    Found(Seq<u8>),
    Deleted,
    NotInOverlay,
}

impl View for OverlayResult {
    type V = OverlayResultView;

    open spec fn view(&self) -> OverlayResultView {
        match *self {
            OverlayResult::Found(v) => OverlayResultView::Found(v@),
            OverlayResult::Deleted => OverlayResultView::Deleted,
            OverlayResult::NotInOverlay => OverlayResultView::NotInOverlay,
        }
    }
}

/// Mathematical content of a [`StateOverlay`]: the pending writes and the
/// running byte count.
pub struct OverlayState {
    pub writes: Map<Seq<u8>, Option<Seq<u8>>>,
    pub total_write_bytes: u64,
}

impl OverlayState {
    /// The overlay with no write.
    pub open spec fn empty() -> OverlayState {
        OverlayState { writes: Map::empty(), total_write_bytes: 0 }
    }

    /// Bytes that the entry for `key` counts for: key plus value for a set,
    /// the key alone for a delete, nothing when the key is untouched.
    pub open spec fn contribution(self, key: Seq<u8>) -> int {
        if self.writes.contains_key(key) {
            match self.writes[key] {
                Some(v) => (key.len() + v.len()) as int,
                None => key.len() as int,
            }
        } else {
            0
        }
    }

    /// The overlay after `set(key, value)`.
    pub open spec fn set(self, key: Seq<u8>, value: Seq<u8>) -> OverlayState {
        OverlayState {
            writes: self.writes.insert(key, Some(value)),
            total_write_bytes: sat_add(
                sat_sub(self.total_write_bytes, self.contribution(key)),
                (key.len() + value.len()) as int,
            ),
        }
    }

    /// The overlay after `delete(key)`.
    pub open spec fn delete(self, key: Seq<u8>) -> OverlayState {
        OverlayState {
            writes: self.writes.insert(key, None),
            total_write_bytes: sat_add(
                sat_sub(self.total_write_bytes, self.contribution(key)),
                key.len() as int,
            ),
        }
    }

    /// What the overlay says of `key`.
    pub open spec fn get(self, key: Seq<u8>) -> OverlayResultView {
        if self.writes.contains_key(key) {
            match self.writes[key] {
                Some(v) => OverlayResultView::Found(v),
                None => OverlayResultView::Deleted,
            }
        } else {
            OverlayResultView::NotInOverlay
        }
    }

    /// A read through the overlay: the overlay's value, nothing for a
    /// deleted key, and the committed value for an untouched key.
    pub open spec fn read_through(self, committed: Map<Seq<u8>, Seq<u8>>, key: Seq<u8>) -> Option<
        Seq<u8>,
    > {
        match self.get(key) {
            OverlayResultView::Found(v) => Some(v),
            OverlayResultView::Deleted => None,
            OverlayResultView::NotInOverlay => if committed.contains_key(key) {
                Some(committed[key])
            } else {
                None
            },
        }
    }

    /// The keys that the overlay sets, with their values.
    pub open spec fn live(self) -> Map<Seq<u8>, Seq<u8>> {
        Map::new(
            |k: Seq<u8>| self.writes.contains_key(k) && self.writes[k] is Some,
            |k: Seq<u8>| self.writes[k]->Some_0,
        )
    }
}

/// After `set` then `delete` of one key the overlay reports it deleted;
/// after `delete` then `set` it reports the new value. Other keys are not
/// affected by either.
pub proof fn lemma_overlay_last_write_wins(
    o: OverlayState,
    key: Seq<u8>,
    v1: Seq<u8>,
    v2: Seq<u8>,
    other: Seq<u8>,
)
    requires
        other != key,
    ensures
        o.set(key, v1).get(key) == OverlayResultView::Found(v1),
        o.delete(key).get(key) == OverlayResultView::Deleted,
        o.set(key, v1).delete(key).get(key) == OverlayResultView::Deleted,
        o.delete(key).set(key, v2).get(key) == OverlayResultView::Found(v2),
        o.set(key, v1).set(key, v2).get(key) == OverlayResultView::Found(v2),
        o.set(key, v1).get(other) == o.get(other),
        o.delete(key).get(other) == o.get(other),
{
}

/// A read through the overlay returns what the overlay last wrote, whatever
/// the committed store holds for the key.
pub proof fn lemma_overlay_layering(
    o: OverlayState,
    committed: Map<Seq<u8>, Seq<u8>>,
    key: Seq<u8>,
    value: Seq<u8>,
)
    ensures
        o.set(key, value).read_through(committed, key) == Some(value),
        o.delete(key).read_through(committed, key) == None::<Seq<u8>>,
        !o.writes.contains_key(key) && committed.contains_key(key) ==> o.read_through(
            committed,
            key,
        ) == Some(committed[key]),
{
}

/// A transactional write buffer over committed state.
#[derive(Debug)]
pub struct StateOverlay {
    writes: ByteMap<Option<Vec<u8>>>,
    total_write_bytes: u64,
}

impl View for StateOverlay {
    type V = OverlayState;

    closed spec fn view(&self) -> OverlayState {
        OverlayState {
            writes: self.writes@.map_values(write_view()),
            total_write_bytes: self.total_write_bytes,
        }
    }
}

impl StateOverlay {
    /// An empty overlay.
    pub fn new() -> (o: StateOverlay)
        ensures
            o@ == OverlayState::empty(),
    {
        let o = StateOverlay { writes: ByteMap::new(), total_write_bytes: 0 };
        assert(o@.writes =~= Map::empty());
        o
    }

    /// Sets `key` to `value`, replacing any earlier write of the key.
    pub fn set(&mut self, key: Vec<u8>, value: Vec<u8>)
        ensures
            final(self)@ == old(self)@.set(key@, value@),
    {
        let new_bytes = (key.len() as u64).saturating_add(value.len() as u64);
        match self.writes.get(key.as_slice()) {
            Some(prev) => {
                let value_bytes = match prev {
                    Some(v) => v.len() as u64,
                    None => 0,
                };
                let prev_bytes = (key.len() as u64).saturating_add(value_bytes);
                self.total_write_bytes = self.total_write_bytes.saturating_sub(prev_bytes);
            },
            None => {},
        }
        self.total_write_bytes = self.total_write_bytes.saturating_add(new_bytes);
        self.writes.insert(key, Some(value));
        assert(self@.writes =~= old(self)@.set(key@, value@).writes);
    }

    /// Records a delete of `key`, replacing any earlier write of the key.
    pub fn delete(&mut self, key: Vec<u8>)
        ensures
            final(self)@ == old(self)@.delete(key@),
    {
        match self.writes.get(key.as_slice()) {
            Some(prev) => {
                let value_bytes = match prev {
                    Some(v) => v.len() as u64,
                    None => 0,
                };
                let prev_bytes = (key.len() as u64).saturating_add(value_bytes);
                self.total_write_bytes = self.total_write_bytes.saturating_sub(prev_bytes);
            },
            None => {},
        }
        self.total_write_bytes = self.total_write_bytes.saturating_add(key.len() as u64);
        self.writes.insert(key, None);
        assert(self@.writes =~= old(self)@.delete(key@).writes);
    }

    /// Looks `key` up in the overlay.
    pub fn get(&self, key: &[u8]) -> (r: OverlayResult)
        ensures
            r@ == self@.get(key@),
    {
        match self.writes.get(key) {
            Some(Some(value)) => OverlayResult::Found(value.clone()),
            Some(None) => OverlayResult::Deleted,
            None => OverlayResult::NotInOverlay,
        }
    }

    /// Whether the overlay sets or deletes `key`.
    pub fn contains_key(&self, key: &[u8]) -> (r: bool)
        ensures
            r == self@.writes.contains_key(key@),
    {
        self.writes.contains_key(key)
    }

    /// Gives up the overlay for its writes, in ascending key order.
    pub fn drain(self) -> (w: ByteMap<Option<Vec<u8>>>)
        ensures
            w.wf(),
            w@.map_values(write_view()) == self@.writes,
    {
        let w = self.writes;
        let _ = w.len();
        w
    }

    /// The writes, in ascending key order.
    pub fn writes(&self) -> (w: &ByteMap<Option<Vec<u8>>>)
        ensures
            w.wf(),
            w@.map_values(write_view()) == self@.writes,
    {
        let _ = self.writes.len();
        &self.writes
    }

    /// Forgets every write.
    pub fn clear(&mut self)
        ensures
            final(self)@ == OverlayState::empty(),
    {
        self.writes.clear();
        self.total_write_bytes = 0;
        assert(self@.writes =~= Map::empty());
    }

    /// Number of keys set or deleted.
    pub fn len(&self) -> (n: usize)
        ensures
            n == self@.writes.dom().len(),
            self@.writes.dom().finite(),
    {
        let n = self.writes.len();
        assert(self@.writes.dom() =~= self.writes@.dom());
        n
    }

    /// Whether nothing was written.
    pub fn is_empty(&self) -> (r: bool)
        ensures
            r == (self@.writes == Map::<Seq<u8>, Option<Seq<u8>>>::empty()),
    {
        let r = self.writes.is_empty();
        proof {
            if r {
                assert(self@.writes =~= Map::empty());
            } else {
                assert(self@.writes.dom() =~= self.writes@.dom());
                if self@.writes == Map::<Seq<u8>, Option<Seq<u8>>>::empty() {
                    assert(self.writes@ =~= Map::empty());
                }
            }
        }
        r
    }

    /// Bytes written so far, as counted for the write limit.
    pub fn total_write_bytes(&self) -> (n: u64)
        ensures
            n == self@.total_write_bytes,
    {
        self.total_write_bytes
    }
}

impl Default for StateOverlay {
    fn default() -> (o: StateOverlay)
        ensures
            o@ == OverlayState::empty(),
    {
        StateOverlay::new()
    }
}

} // verus!
