//! An ordered map from byte strings to values, kept as a vector of entries
//! sorted by key. Keys are ordered lexicographically, byte by byte, so that
//! walking the entries is deterministic and independent of insertion order.

use vstd::prelude::*;

verus! {

/// Lexicographic "less than" on the suffixes of `a` and `b` that start at
/// `i`, for strings that agree before `i`.
pub open spec fn lex_lt_from(a: Seq<u8>, b: Seq<u8>, i: int) -> bool
    decreases a.len() - i,
{
    if i < 0 || i >= b.len() {
        false
    } else if i >= a.len() {
        true
    } else if a[i] != b[i] {
        a[i] < b[i]
    } else {
        lex_lt_from(a, b, i + 1)
    }
}

/// Lexicographic "less than" on byte strings: the first differing byte
/// decides, and a proper prefix comes first.
pub open spec fn lex_lt(a: Seq<u8>, b: Seq<u8>) -> bool {
    lex_lt_from(a, b, 0)
}

proof fn lemma_lex_from_asym(a: Seq<u8>, b: Seq<u8>, i: int)
    requires
        0 <= i,
    ensures
        !(lex_lt_from(a, b, i) && lex_lt_from(b, a, i)),
    decreases a.len() - i,
{
    if i < a.len() && i < b.len() && a[i] == b[i] {
        lemma_lex_from_asym(a, b, i + 1);
    }
}

proof fn lemma_lex_from_trans(a: Seq<u8>, b: Seq<u8>, c: Seq<u8>, i: int)
    requires
        0 <= i,
        lex_lt_from(a, b, i),
        lex_lt_from(b, c, i),
    ensures
        lex_lt_from(a, c, i),
    decreases a.len() - i,
{
    if i < a.len() && a[i] == b[i] && b[i] == c[i] {
        lemma_lex_from_trans(a, b, c, i + 1);
    }
}

proof fn lemma_lex_from_total(a: Seq<u8>, b: Seq<u8>, i: int)
    requires
        0 <= i <= a.len(),
        i <= b.len(),
        forall|j: int| 0 <= j < i ==> a[j] == b[j],
        !lex_lt_from(a, b, i),
        !lex_lt_from(b, a, i),
    ensures
        a == b,
    decreases a.len() - i,
{
    if i < a.len() && i < b.len() {
        lemma_lex_from_total(a, b, i + 1);
    } else {
        assert(a =~= b);
    }
}

/// No byte string is less than itself, and of two strings at most one is
/// less than the other.
pub proof fn lemma_lex_asymmetric(a: Seq<u8>, b: Seq<u8>)
    ensures
        !(lex_lt(a, b) && lex_lt(b, a)),
        !lex_lt(a, a),
{
    lemma_lex_from_asym(a, b, 0);
    lemma_lex_from_asym(a, a, 0);
}

/// The order is transitive.
pub proof fn lemma_lex_transitive(a: Seq<u8>, b: Seq<u8>, c: Seq<u8>)
    requires
        lex_lt(a, b),
        lex_lt(b, c),
    ensures
        lex_lt(a, c),
{
    lemma_lex_from_trans(a, b, c, 0);
}

/// The order is total: two different strings are ordered one way or the
/// other.
pub proof fn lemma_lex_total(a: Seq<u8>, b: Seq<u8>)
    ensures
        lex_lt(a, b) || lex_lt(b, a) || a == b,
{
    if !lex_lt(a, b) && !lex_lt(b, a) {
        lemma_lex_from_total(a, b, 0);
    }
}

/// Outcome of comparing two keys.
#[derive(Debug, Clone, Copy, PartialEq, Eq, Structural)]
pub enum KeyOrder {
    Less,
    Equal,
    Greater,
}

/// Compares two keys lexicographically.
pub fn compare_keys(a: &[u8], b: &[u8]) -> (r: KeyOrder)
    ensures
        r == KeyOrder::Less <==> lex_lt(a@, b@),
        r == KeyOrder::Equal <==> a@ == b@,
        r == KeyOrder::Greater <==> lex_lt(b@, a@),
{
    proof {
        lemma_lex_asymmetric(a@, b@);
        lemma_lex_asymmetric(b@, b@);
    }
    let mut i: usize = 0;
    while i < a.len() && i < b.len()
        invariant
            i <= a@.len(),
            i <= b@.len(),
            forall|j: int| 0 <= j < i ==> a@[j] == b@[j],
            lex_lt(a@, b@) == lex_lt_from(a@, b@, i as int),
            lex_lt(b@, a@) == lex_lt_from(b@, a@, i as int),
        decreases a@.len() - i,
    {
        if a[i] < b[i] {
            return KeyOrder::Less;
        } else if a[i] > b[i] {
            return KeyOrder::Greater;
        }
        i += 1;
    }
    if a.len() < b.len() {
        KeyOrder::Less
    } else if a.len() > b.len() {
        KeyOrder::Greater
    } else {
        assert(a@ =~= b@);
        KeyOrder::Equal
    }
}

/// Keys strictly increase along the entries.
pub open spec fn keys_sorted<V>(s: Seq<(Seq<u8>, V)>) -> bool {
    forall|i: int, j: int| 0 <= i < j < s.len() ==> lex_lt((#[trigger] s[i]).0, (#[trigger] s[j]).0)
}

/// Some entry has key `k`.
pub open spec fn has_key<V>(s: Seq<(Seq<u8>, V)>, k: Seq<u8>) -> bool {
    exists|i: int| 0 <= i < s.len() && (#[trigger] s[i]).0 == k
}

/// The position of an entry with key `k`.
pub open spec fn index_of<V>(s: Seq<(Seq<u8>, V)>, k: Seq<u8>) -> int {
    choose|i: int| 0 <= i < s.len() && (#[trigger] s[i]).0 == k
}

/// The map that a sequence of entries stands for.
pub open spec fn entries_map<V>(s: Seq<(Seq<u8>, V)>) -> Map<Seq<u8>, V> {
    Map::new(|k: Seq<u8>| has_key(s, k), |k: Seq<u8>| s[index_of(s, k)].1)
}

/// In sorted entries every key occurs once, and the map holds each entry.
pub proof fn lemma_entry_lookup<V>(s: Seq<(Seq<u8>, V)>, i: int)
    requires
        keys_sorted(s),
        0 <= i < s.len(),
    ensures
        has_key(s, s[i].0),
        index_of(s, s[i].0) == i,
        entries_map(s).contains_key(s[i].0),
        entries_map(s)[s[i].0] == s[i].1,
{
    let k = s[i].0;
    let j = index_of(s, k);
    assert(0 <= j < s.len() && s[j].0 == k);
    lemma_lex_asymmetric(k, k);
    if j < i {
        assert(lex_lt(s[j].0, s[i].0));
    } else if i < j {
        assert(lex_lt(s[i].0, s[j].0));
    }
}

/// Inserting a new key at its place keeps the entries sorted and adds the
/// key to the map.
pub proof fn lemma_insert_entry<V>(s: Seq<(Seq<u8>, V)>, p: int, k: Seq<u8>, v: V)
    requires
        keys_sorted(s),
        0 <= p <= s.len(),
        forall|i: int| 0 <= i < p ==> lex_lt((#[trigger] s[i]).0, k),
        forall|i: int| p <= i < s.len() ==> lex_lt(k, (#[trigger] s[i]).0),
    ensures
        keys_sorted(s.insert(p, (k, v))),
        entries_map(s.insert(p, (k, v))) == entries_map(s).insert(k, v),
{
    let t = s.insert(p, (k, v));
    assert forall|i: int, j: int| 0 <= i < j < t.len() implies lex_lt(
        (#[trigger] t[i]).0,
        (#[trigger] t[j]).0,
    ) by {
        if j < p {
            assert(lex_lt(s[i].0, s[j].0));
        } else if j == p {
            assert(lex_lt(s[i].0, k));
        } else if i < p {
            assert(lex_lt(s[i].0, s[j - 1].0));
        } else if i == p {
            assert(lex_lt(k, s[j - 1].0));
        } else {
            assert(lex_lt(s[i - 1].0, s[j - 1].0));
        }
    }
    assert forall|q: Seq<u8>| has_key(t, q) <==> (q == k || has_key(s, q)) by {
        if has_key(t, q) {
            let i = index_of(t, q);
            if i < p {
                assert(s[i].0 == q);
            } else if i > p {
                assert(s[i - 1].0 == q);
            }
        }
        if q == k {
            assert(t[p].0 == q);
        }
        if has_key(s, q) {
            let i = index_of(s, q);
            if i < p {
                assert(t[i].0 == q);
            } else {
                assert(t[i + 1].0 == q);
            }
        }
    }
    assert forall|q: Seq<u8>| has_key(t, q) implies #[trigger] entries_map(t)[q] == entries_map(
        s,
    ).insert(k, v)[q] by {
        let i = index_of(t, q);
        lemma_entry_lookup(t, i);
        lemma_lex_asymmetric(k, k);
        if i < p {
            assert(t[i] == s[i]);
            assert(lex_lt(s[i].0, k));
            lemma_entry_lookup(s, i);
        } else if i > p {
            assert(t[i] == s[i - 1]);
            assert(lex_lt(k, s[i - 1].0));
            lemma_entry_lookup(s, i - 1);
        } else {
            assert(t[i] == (k, v));
        }
    }
    assert(entries_map(t) =~= entries_map(s).insert(k, v));
}

/// Replacing the value of the entry at `p` keeps the entries sorted and
/// updates the map at that key.
pub proof fn lemma_update_entry<V>(s: Seq<(Seq<u8>, V)>, p: int, v: V)
    requires
        keys_sorted(s),
        0 <= p < s.len(),
    ensures
        keys_sorted(s.update(p, (s[p].0, v))),
        entries_map(s.update(p, (s[p].0, v))) == entries_map(s).insert(s[p].0, v),
{
    let k = s[p].0;
    let t = s.update(p, (k, v));
    assert forall|i: int, j: int| 0 <= i < j < t.len() implies lex_lt(
        (#[trigger] t[i]).0,
        (#[trigger] t[j]).0,
    ) by {
        assert(lex_lt(s[i].0, s[j].0));
    }
    assert forall|q: Seq<u8>| has_key(t, q) <==> has_key(s, q) by {
        if has_key(t, q) {
            let i = index_of(t, q);
            assert(s[i].0 == q);
        }
        if has_key(s, q) {
            let i = index_of(s, q);
            assert(t[i].0 == q);
        }
    }
    lemma_entry_lookup(s, p);
    assert forall|q: Seq<u8>| has_key(t, q) implies #[trigger] entries_map(t)[q] == entries_map(
        s,
    ).insert(k, v)[q] by {
        let i = index_of(t, q);
        lemma_entry_lookup(t, i);
        assert(s[i].0 == q);
        lemma_entry_lookup(s, i);
    }
    assert(entries_map(t) =~= entries_map(s).insert(k, v));
}

/// Removing the entry at `p` keeps the entries sorted and removes its key
/// from the map.
pub proof fn lemma_remove_entry<V>(s: Seq<(Seq<u8>, V)>, p: int)
    requires
        keys_sorted(s),
        0 <= p < s.len(),
    ensures
        keys_sorted(s.remove(p)),
        entries_map(s.remove(p)) == entries_map(s).remove(s[p].0),
{
    let k = s[p].0;
    let t = s.remove(p);
    assert forall|i: int, j: int| 0 <= i < j < t.len() implies lex_lt(
        (#[trigger] t[i]).0,
        (#[trigger] t[j]).0,
    ) by {
        let a = if i < p { i } else { i + 1 };
        let b = if j < p { j } else { j + 1 };
        assert(lex_lt(s[a].0, s[b].0));
    }
    lemma_entry_lookup(s, p);
    assert forall|q: Seq<u8>| has_key(t, q) <==> (q != k && has_key(s, q)) by {
        if has_key(t, q) {
            let i = index_of(t, q);
            let a = if i < p { i } else { i + 1 };
            assert(s[a].0 == q);
            lemma_entry_lookup(s, a);
        }
        if q != k && has_key(s, q) {
            let i = index_of(s, q);
            if i < p {
                assert(t[i].0 == q);
            } else {
                assert(t[i - 1].0 == q);
            }
        }
    }
    assert forall|q: Seq<u8>| has_key(t, q) implies #[trigger] entries_map(t)[q] == entries_map(
        s,
    ).remove(k)[q] by {
        let i = index_of(t, q);
        lemma_entry_lookup(t, i);
        let a = if i < p { i } else { i + 1 };
        assert(s[a].0 == q);
        lemma_entry_lookup(s, a);
    }
    assert(entries_map(t) =~= entries_map(s).remove(k));
}

/// The map of sorted entries is finite and has one key per entry.
pub proof fn lemma_entries_map_len<V>(s: Seq<(Seq<u8>, V)>)
    requires
        keys_sorted(s),
    ensures
        entries_map(s).dom().finite(),
        entries_map(s).dom().len() == s.len(),
    decreases s.len(),
{
    if s.len() == 0 {
        assert(entries_map(s).dom() =~= Set::empty());
    } else {
        let p = s.len() - 1;
        let t = s.remove(p);
        lemma_remove_entry(s, p);
        lemma_entries_map_len(t);
        lemma_entry_lookup(s, p);
        assert(entries_map(s).dom() =~= entries_map(t).dom().insert(s[p].0));
    }
}

/// Sorted entries are determined by their map: two sorted sequences that
/// stand for the same map are the same sequence.
pub proof fn lemma_sorted_entries_unique<V>(s: Seq<(Seq<u8>, V)>, t: Seq<(Seq<u8>, V)>)
    requires
        keys_sorted(s),
        keys_sorted(t),
        entries_map(s) == entries_map(t),
    ensures
        s == t,
    decreases s.len(),
{
    lemma_entries_map_len(s);
    lemma_entries_map_len(t);
    if s.len() > 0 {
        let p = s.len() - 1;
        let k = s[p].0;
        lemma_entry_lookup(s, p);
        lemma_entry_lookup(t, p);
        // the last key of each sequence is the greatest key of the map
        assert(has_key(t, k));
        let a = index_of(t, k);
        assert(has_key(s, t[p].0));
        let b = index_of(s, t[p].0);
        lemma_lex_asymmetric(k, t[p].0);
        if a < p {
            assert(lex_lt(t[a].0, t[p].0));
            if b < p {
                assert(lex_lt(s[b].0, s[p].0));
            }
        }
        assert(a == p);
        lemma_entry_lookup(t, a);
        assert(t[p] == s[p]);
        lemma_remove_entry(s, p);
        lemma_remove_entry(t, p);
        lemma_sorted_entries_unique(s.remove(p), t.remove(p));
        assert(s =~= s.remove(p).push(s[p]));
        assert(t =~= t.remove(p).push(t[p]));
    } else {
        assert(t.len() == 0);
        assert(s =~= t);
    }
}

/// The entries with `f` applied to each value.
pub open spec fn map_entries<V, W>(s: Seq<(Seq<u8>, V)>, f: spec_fn(V) -> W) -> Seq<(Seq<u8>, W)> {
    Seq::new(s.len(), |i: int| (s[i].0, f(s[i].1)))
}

/// Applying `f` to the values keeps the entries sorted and applies `f` to
/// the values of the map.
pub proof fn lemma_map_entries<V, W>(s: Seq<(Seq<u8>, V)>, f: spec_fn(V) -> W)
    requires
        keys_sorted(s),
    ensures
        keys_sorted(map_entries(s, f)),
        entries_map(map_entries(s, f)) == entries_map(s).map_values(f),
{
    let t = map_entries(s, f);
    assert forall|i: int, j: int| 0 <= i < j < t.len() implies lex_lt(
        (#[trigger] t[i]).0,
        (#[trigger] t[j]).0,
    ) by {
        assert(lex_lt(s[i].0, s[j].0));
    }
    assert forall|q: Seq<u8>| has_key(t, q) <==> has_key(s, q) by {
        if has_key(t, q) {
            let i = index_of(t, q);
            assert(s[i].0 == q);
        }
        if has_key(s, q) {
            let i = index_of(s, q);
            assert(t[i].0 == q);
        }
    }
    assert forall|q: Seq<u8>| has_key(t, q) implies #[trigger] entries_map(t)[q] == entries_map(
        s,
    ).map_values(f)[q] by {
        let i = index_of(t, q);
        lemma_entry_lookup(t, i);
        assert(s[i].0 == q);
        lemma_entry_lookup(s, i);
    }
    assert(entries_map(t) =~= entries_map(s).map_values(f));
}

/// An ordered map from byte strings to `V`.
#[derive(Debug)]
pub struct ByteMap<V> {
    entries: Vec<(Vec<u8>, V)>,
}

impl<V> ByteMap<V> {
    /// The entries in key order, keys as byte sequences.
    pub closed spec fn entries(&self) -> Seq<(Seq<u8>, V)> {
        self.entries@.map_values(|e: (Vec<u8>, V)| (e.0@, e.1))
    }

    /// Keys strictly increase along the entries. Holds of every map that
    /// this module hands out.
    pub open spec fn wf(&self) -> bool {
        keys_sorted(self.entries())
    }

    #[verifier::type_invariant]
    spec fn sorted_invariant(self) -> bool {
        self.wf()
    }

    /// The map from key to value.
    pub open spec fn view(&self) -> Map<Seq<u8>, V> {
        entries_map(self.entries())
    }

    /// An empty map.
    pub fn new() -> (m: ByteMap<V>)
        ensures
            m.wf(),
            m.entries() == Seq::<(Seq<u8>, V)>::empty(),
            m@ == Map::<Seq<u8>, V>::empty(),
    {
        let m = ByteMap { entries: Vec::new() };
        assert(m.entries() =~= Seq::<(Seq<u8>, V)>::empty());
        assert(m@ =~= Map::<Seq<u8>, V>::empty());
        m
    }

    /// Number of keys.
    pub fn len(&self) -> (n: usize)
        ensures
            self.wf(),
            n == self.entries().len(),
            n == self@.dom().len(),
            self@.dom().finite(),
    {
        proof {
            use_type_invariant(self);
            lemma_entries_map_len(self.entries());
        }
        self.entries.len()
    }

    /// Whether the map has no key.
    pub fn is_empty(&self) -> (r: bool)
        ensures
            self.wf(),
            r == (self.entries().len() == 0),
            r == (self@ == Map::<Seq<u8>, V>::empty()),
    {
        proof {
            use_type_invariant(self);
            lemma_entries_map_len(self.entries());
            if self.entries().len() == 0 {
                assert(self@ =~= Map::<Seq<u8>, V>::empty());
            }
        }
        self.entries.len() == 0
    }

    /// Finds `key`: its position when present, else the position at which
    /// it would be inserted.
    pub fn search(&self, key: &[u8]) -> (r: (bool, usize))
        ensures
            self.wf(),
            r.1 <= self.entries().len(),
            r.0 ==> r.1 < self.entries().len() && self.entries()[r.1 as int].0 == key@,
            r.0 == self@.contains_key(key@),
            !r.0 ==> forall|i: int| 0 <= i < r.1 ==> lex_lt((#[trigger] self.entries()[i]).0, key@),
            !r.0 ==> forall|i: int|
                r.1 <= i < self.entries().len() ==> lex_lt(key@, (#[trigger] self.entries()[i]).0),
    {
        proof {
            use_type_invariant(self);
        }
        let ghost s = self.entries();
        let mut lo: usize = 0;
        let mut hi: usize = self.entries.len();
        while lo < hi
            invariant
                s == self.entries(),
                keys_sorted(s),
                lo <= hi <= s.len(),
                s.len() == self.entries@.len(),
                forall|i: int| 0 <= i < lo ==> lex_lt((#[trigger] s[i]).0, key@),
                forall|i: int| hi <= i < s.len() ==> lex_lt(key@, (#[trigger] s[i]).0),
            decreases hi - lo,
        {
            let mid = lo + (hi - lo) / 2;
            assert(s[mid as int].0 == self.entries@[mid as int].0@);
            match compare_keys(self.entries[mid].0.as_slice(), key) {
                KeyOrder::Less => {
                    assert forall|i: int| 0 <= i < mid + 1 implies lex_lt(
                        (#[trigger] s[i]).0,
                        key@,
                    ) by {
                        if i < mid {
                            assert(lex_lt(s[i].0, s[mid as int].0));
                            lemma_lex_transitive(s[i].0, s[mid as int].0, key@);
                        }
                    }
                    lo = mid + 1;
                },
                KeyOrder::Equal => {
                    proof {
                        lemma_entry_lookup(s, mid as int);
                    }
                    return (true, mid);
                },
                KeyOrder::Greater => {
                    assert forall|i: int| mid <= i < s.len() implies lex_lt(
                        key@,
                        (#[trigger] s[i]).0,
                    ) by {
                        if mid < i {
                            assert(lex_lt(s[mid as int].0, s[i].0));
                            lemma_lex_transitive(key@, s[mid as int].0, s[i].0);
                        }
                    }
                    hi = mid;
                },
            }
        }
        proof {
            lemma_lex_asymmetric(key@, key@);
            if has_key(s, key@) {
                let i = index_of(s, key@);
                assert(s[i].0 == key@);
                if i < lo {
                    assert(lex_lt(s[i].0, key@));
                } else {
                    assert(lex_lt(key@, s[i].0));
                }
            }
        }
        (false, lo)
    }

    /// The value stored under `key`.
    pub fn get(&self, key: &[u8]) -> (r: Option<&V>)
        ensures
            self.wf(),
            r is Some <==> self@.contains_key(key@),
            r matches Some(v) ==> *v == self@[key@],
    {
        let (found, pos) = self.search(key);
        if found {
            proof {
                lemma_entry_lookup(self.entries(), pos as int);
            }
            Some(&self.entries[pos].1)
        } else {
            None
        }
    }

    /// Whether `key` is present.
    pub fn contains_key(&self, key: &[u8]) -> (r: bool)
        ensures
            self.wf(),
            r == self@.contains_key(key@),
    {
        self.search(key).0
    }

    /// Stores `value` under `key`, replacing what was there.
    pub fn insert(&mut self, key: Vec<u8>, value: V)
        ensures
            final(self).wf(),
            final(self)@ == old(self)@.insert(key@, value),
    {
        let (found, pos) = self.search(key.as_slice());
        let ghost s = self.entries();
        if found {
            proof {
                lemma_update_entry(s, pos as int, value);
                assert(s.update(pos as int, (s[pos as int].0, value)) =~= self.entries@.update(
                    pos as int,
                    (key, value),
                ).map_values(|e: (Vec<u8>, V)| (e.0@, e.1)));
            }
            let mut taken: Vec<(Vec<u8>, V)> = Vec::new();
            core::mem::swap(&mut self.entries, &mut taken);
            taken[pos] = (key, value);
            self.entries = taken;
        } else {
            proof {
                lemma_insert_entry(s, pos as int, key@, value);
                assert(s.insert(pos as int, (key@, value)) =~= self.entries@.insert(
                    pos as int,
                    (key, value),
                ).map_values(|e: (Vec<u8>, V)| (e.0@, e.1)));
            }
            let mut taken: Vec<(Vec<u8>, V)> = Vec::new();
            core::mem::swap(&mut self.entries, &mut taken);
            taken.insert(pos, (key, value));
            self.entries = taken;
        }
    }

    /// Removes `key` if it is present.
    pub fn remove(&mut self, key: &[u8])
        ensures
            final(self).wf(),
            final(self)@ == old(self)@.remove(key@),
    {
        let (found, pos) = self.search(key);
        let ghost s = self.entries();
        if found {
            proof {
                lemma_remove_entry(s, pos as int);
                assert(s.remove(pos as int) =~= self.entries@.remove(pos as int).map_values(
                    |e: (Vec<u8>, V)| (e.0@, e.1),
                ));
            }
            let mut taken: Vec<(Vec<u8>, V)> = Vec::new();
            core::mem::swap(&mut self.entries, &mut taken);
            let _ = taken.remove(pos);
            self.entries = taken;
        } else {
            assert(self@.remove(key@) =~= self@);
        }
    }

    /// Removes every key.
    pub fn clear(&mut self)
        ensures
            final(self).wf(),
            final(self).entries() == Seq::<(Seq<u8>, V)>::empty(),
            final(self)@ == Map::<Seq<u8>, V>::empty(),
    {
        self.entries = Vec::new();
        assert(self.entries() =~= Seq::<(Seq<u8>, V)>::empty());
        assert(self@ =~= Map::<Seq<u8>, V>::empty());
    }

    /// The key of the `i`-th entry in key order.
    pub fn key_at(&self, i: usize) -> (k: &Vec<u8>)
        requires
            i < self.entries().len(),
        ensures
            self.wf(),
            k@ == self.entries()[i as int].0,
            self@.contains_key(k@),
    {
        proof {
            use_type_invariant(self);
            lemma_entry_lookup(self.entries(), i as int);
        }
        &self.entries[i].0
    }

    /// The value of the `i`-th entry in key order.
    pub fn value_at(&self, i: usize) -> (v: &V)
        requires
            i < self.entries().len(),
        ensures
            self.wf(),
            *v == self.entries()[i as int].1,
            self@[self.entries()[i as int].0] == *v,
    {
        proof {
            use_type_invariant(self);
            lemma_entry_lookup(self.entries(), i as int);
        }
        &self.entries[i].1
    }
}

/// Two well-formed maps with the same content hold the same entries in the
/// same order, whatever the order in which they were filled.
pub proof fn lemma_same_map_same_entries<V>(a: ByteMap<V>, b: ByteMap<V>)
    requires
        a.wf(),
        b.wf(),
        a@ == b@,
    ensures
        a.entries() == b.entries(),
{
    lemma_sorted_entries_unique(a.entries(), b.entries());
}

} // verus!
