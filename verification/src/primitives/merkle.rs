//! A binary Merkle commitment over a sorted key-value set, with single-key
//! membership proofs.
//!
//! Leaves are taken in ascending key order. A leaf hashes to
//! `H(0x00 || key_len_le32 || key || value)`, an inner node to
//! `H(0x01 || left || right)`, and the last node of an odd level moves up
//! unchanged. `H` is BLAKE3.

use vstd::prelude::*;
use vstd::bytes::spec_u32_to_le_bytes;
use vstd::slice::slice_to_vec;
use crate::primitives::bytemap::{
    entries_map, index_of, keys_sorted, lemma_entry_lookup, lemma_insert_entry, lemma_map_entries,
    lemma_sorted_entries_unique, lex_lt, map_entries, ByteMap,
};
use crate::primitives::crypto::{blake3_digest, hash_blake3};
use crate::primitives::state::{opt_bytes, write_view};
use crate::primitives::types;
use crate::primitives::types::{bytes_eq, u32_to_le_bytes, zero_bytes, ZERO_HASH};

verus! {

/// Domain separator of leaf hashes.
pub const LEAF_PREFIX: u8 = 0x00;

/// Domain separator of inner-node hashes.
pub const INTERNAL_PREFIX: u8 = 0x01;

/// Hash of the leaf that holds `value` under `key`.
pub open spec fn leaf_hash(key: Seq<u8>, value: Seq<u8>) -> Seq<u8> {
    blake3_digest(seq![LEAF_PREFIX] + spec_u32_to_le_bytes(key.len() as u32) + key + value)
}

/// Hash of the inner node above `left` and `right`.
pub open spec fn node_hash(left: Seq<u8>, right: Seq<u8>) -> Seq<u8> {
    blake3_digest(seq![INTERNAL_PREFIX] + left + right)
}

/// The level above `level`: neighbours are hashed in pairs, and an unpaired
/// last node moves up unchanged.
pub open spec fn next_level(level: Seq<Seq<u8>>) -> Seq<Seq<u8>> {
    Seq::new(
        ((level.len() + 1) / 2) as nat,
        |i: int|
            if 2 * i + 1 < level.len() {
                node_hash(level[2 * i], level[2 * i + 1])
            } else {
                level[2 * i]
            },
    )
}

/// The root above a level of hashes: 32 zero bytes for no leaf, the leaf
/// itself for one leaf.
pub open spec fn root_of(level: Seq<Seq<u8>>) -> Seq<u8>
    decreases level.len(),
{
    if level.len() == 0 {
        zero_bytes(32)
    } else if level.len() == 1 {
        level[0]
    } else {
        root_of(next_level(level))
    }
}

/// The siblings and direction bits on the way from the node at `idx` of
/// `level` up to the root. A bit is `true` where the node is the left child.
/// A node without a sibling at some level adds nothing for that level.
pub open spec fn proof_path(level: Seq<Seq<u8>>, idx: int) -> (Seq<Seq<u8>>, Seq<bool>)
    decreases level.len(),
{
    if level.len() <= 1 {
        (Seq::empty(), Seq::empty())
    } else {
        let sibling = if idx % 2 == 0 {
            idx + 1
        } else {
            idx - 1
        };
        let rest = proof_path(next_level(level), idx / 2);
        if 0 <= sibling < level.len() {
            (seq![level[sibling]] + rest.0, seq![idx % 2 == 0] + rest.1)
        } else {
            rest
        }
    }
}

/// The hash reached from `start` after the first `n` steps of a proof.
pub open spec fn walk(start: Seq<u8>, siblings: Seq<Seq<u8>>, bits: Seq<bool>, n: int) -> Seq<u8>
    decreases n,
{
    if n <= 0 {
        start
    } else {
        let below = walk(start, siblings, bits, n - 1);
        if bits[n - 1] {
            node_hash(below, siblings[n - 1])
        } else {
            node_hash(siblings[n - 1], below)
        }
    }
}

/// Number of steps of a proof: siblings and bits are walked in pairs.
pub open spec fn path_len(siblings: Seq<Seq<u8>>, bits: Seq<bool>) -> int {
    if siblings.len() <= bits.len() {
        siblings.len() as int
    } else {
        bits.len() as int
    }
}

/// The byte strings of a sequence of hashes.
pub open spec fn hashes_view(s: Seq<types::Hash>) -> Seq<Seq<u8>> {
    Seq::new(s.len(), |i: int| s[i]@)
}

/// The bytes of a stored value, as a function value.
pub open spec fn value_bytes() -> spec_fn(Vec<u8>) -> Seq<u8> {
    |v: Vec<u8>| v@
}

/// The leaf hashes of entries, in their order.
pub open spec fn leaves_of(entries: Seq<(Seq<u8>, Seq<u8>)>) -> Seq<Seq<u8>> {
    Seq::new(entries.len(), |i: int| leaf_hash(entries[i].0, entries[i].1))
}

/// The entries of a finite map in ascending key order.
pub open spec fn sorted_entries(m: Map<Seq<u8>, Seq<u8>>) -> Seq<(Seq<u8>, Seq<u8>)> {
    choose|s: Seq<(Seq<u8>, Seq<u8>)>| keys_sorted(s) && entries_map(s) == m
}

/// The Merkle root that commits to a key-value set.
pub open spec fn merkle_root(m: Map<Seq<u8>, Seq<u8>>) -> Seq<u8> {
    root_of(leaves_of(sorted_entries(m)))
}

/// A key-value set after a batch of writes: a set stores the value, a delete
/// removes the key, and untouched keys stay.
pub open spec fn apply_writes_to(
    base: Map<Seq<u8>, Seq<u8>>,
    writes: Map<Seq<u8>, Option<Seq<u8>>>,
) -> Map<Seq<u8>, Seq<u8>> {
    Map::new(
        |k: Seq<u8>|
            if writes.contains_key(k) {
                writes[k] is Some
            } else {
                base.contains_key(k)
            },
        |k: Seq<u8>|
            if writes.contains_key(k) {
                writes[k]->Some_0
            } else {
                base[k]
            },
    )
}

/// A membership proof for one key.
#[derive(Debug, Clone, PartialEq, Eq)]
pub struct MerkleProof {
    /// Sibling hashes from the leaf up to the root.
    pub siblings: Vec<types::Hash>,
    /// For each sibling, whether the proved node is the left child.
    pub path_bits: Vec<bool>,
    /// Hash of the leaf, or `None` when the key is absent.
    pub leaf_hash: Option<types::Hash>,
}

/// Mathematical content of a [`MerkleProof`].
pub struct MerkleProofView {
    pub siblings: Seq<Seq<u8>>,
    pub path_bits: Seq<bool>,
    pub leaf_hash: Option<Seq<u8>>,
}

impl View for MerkleProof {
    type V = MerkleProofView;

    open spec fn view(&self) -> MerkleProofView {
        MerkleProofView {
            siblings: hashes_view(self.siblings@),
            path_bits: self.path_bits@,
            leaf_hash: match self.leaf_hash {
                Some(h) => Some(h@),
                None => None,
            },
        }
    }
}

/// The proof that a tree with content `m` gives for `key`.
pub open spec fn prove_spec(m: Map<Seq<u8>, Seq<u8>>, key: Seq<u8>) -> MerkleProofView {
    let entries = sorted_entries(m);
    if m.contains_key(key) {
        let idx = index_of(entries, key);
        let path = proof_path(leaves_of(entries), idx);
        MerkleProofView {
            siblings: path.0,
            path_bits: path.1,
            leaf_hash: Some(leaf_hash(key, m[key])),
        }
    } else {
        MerkleProofView { siblings: Seq::empty(), path_bits: Seq::empty(), leaf_hash: None }
    }
}

/// Whether `proof` shows that `key` holds `value` (or, for `None`, that the
/// empty tree holds nothing) under `root`.
pub open spec fn verify_spec(
    root: Seq<u8>,
    proof: MerkleProofView,
    key: Seq<u8>,
    value: Option<Seq<u8>>,
) -> bool {
    match (proof.leaf_hash, value) {
        (Some(lh), Some(v)) => lh == leaf_hash(key, v) && walk(
            lh,
            proof.siblings,
            proof.path_bits,
            path_len(proof.siblings, proof.path_bits),
        ) == root,
        (None, None) => proof.siblings.len() == 0 && root == zero_bytes(32),
        _ => false,
    }
}

/// Hashes a leaf: `H(0x00 || key_len_le32 || key || value)`.
pub fn hash_leaf(key: &[u8], value: &[u8]) -> (h: types::Hash)
    ensures
        h@ == leaf_hash(key@, value@),
{
    let key_len = u32_to_le_bytes(key.len() as u32);
    let mut data: Vec<u8> = Vec::new();
    data.push(LEAF_PREFIX);
    data.extend_from_slice(key_len.as_slice());
    data.extend_from_slice(key);
    data.extend_from_slice(value);
    assert(data@ =~= seq![LEAF_PREFIX] + spec_u32_to_le_bytes(key@.len() as u32) + key@ + value@);
    hash_blake3(data.as_slice())
}

/// Hashes an inner node: `H(0x01 || left || right)`.
pub fn hash_internal(left: &types::Hash, right: &types::Hash) -> (h: types::Hash)
    ensures
        h@ == node_hash(left@, right@),
{
    let mut data: Vec<u8> = Vec::new();
    data.push(INTERNAL_PREFIX);
    data.extend_from_slice(left.as_slice());
    data.extend_from_slice(right.as_slice());
    assert(data@ =~= seq![INTERNAL_PREFIX] + left@ + right@);
    hash_blake3(data.as_slice())
}

/// Builds the level above `level`.
fn build_next_level(level: &Vec<types::Hash>) -> (next: Vec<types::Hash>)
    ensures
        hashes_view(next@) == next_level(hashes_view(level@)),
{
    let n = level.len();
    let half = n / 2 + n % 2;
    let mut next: Vec<types::Hash> = Vec::new();
    let mut j: usize = 0;
    while j < half
        invariant
            n == level@.len(),
            half == (n + 1) / 2,
            j <= half,
            next@.len() == j,
            forall|k: int|
                0 <= k < j ==> (#[trigger] next@[k])@ == next_level(hashes_view(level@))[k],
        decreases half - j,
    {
        let i = 2 * j;
        if i + 1 < n {
            next.push(hash_internal(&level[i], &level[i + 1]));
        } else {
            next.push(level[i]);
        }
        j += 1;
    }
    assert(hashes_view(next@) =~= next_level(hashes_view(level@)));
    next
}

/// The root above a list of leaf hashes.
pub fn compute_root_from_leaves(leaves: &[types::Hash]) -> (root: types::Hash)
    ensures
        root@ == root_of(hashes_view(leaves@)),
{
    if leaves.len() == 0 {
        assert(ZERO_HASH@ =~= zero_bytes(32));
        return ZERO_HASH;
    }
    if leaves.len() == 1 {
        return leaves[0];
    }
    let mut current: Vec<types::Hash> = slice_to_vec(leaves);
    while current.len() > 1
        invariant
            current@.len() >= 1,
            root_of(hashes_view(current@)) == root_of(hashes_view(leaves@)),
        decreases current@.len(),
    {
        let next = build_next_level(&current);
        proof {
            assert(next@.len() == hashes_view(next@).len());
            assert(hashes_view(current@).len() == current@.len());
        }
        current = next;
    }
    current[0]
}

/// The proof path of the leaf at `index`: sibling hashes and direction bits
/// from the leaf up to the root.
pub fn compute_proof_path(leaves: &[types::Hash], index: usize) -> (path: (
    Vec<types::Hash>,
    Vec<bool>,
))
    ensures
        hashes_view(path.0@) == proof_path(hashes_view(leaves@), index as int).0,
        path.1@ == proof_path(hashes_view(leaves@), index as int).1,
{
    let mut siblings: Vec<types::Hash> = Vec::new();
    let mut path_bits: Vec<bool> = Vec::new();
    if leaves.len() <= 1 {
        assert(hashes_view(siblings@) =~= Seq::empty());
        return (siblings, path_bits);
    }
    let mut current: Vec<types::Hash> = slice_to_vec(leaves);
    let mut idx = index;
    assert(hashes_view(siblings@) + proof_path(hashes_view(current@), idx as int).0
        =~= proof_path(hashes_view(leaves@), index as int).0);
    assert(path_bits@ + proof_path(hashes_view(current@), idx as int).1 =~= proof_path(
        hashes_view(leaves@),
        index as int,
    ).1);
    while current.len() > 1
        invariant
            current@.len() >= 1,
            hashes_view(siblings@) + proof_path(hashes_view(current@), idx as int).0
                == proof_path(hashes_view(leaves@), index as int).0,
            path_bits@ + proof_path(hashes_view(current@), idx as int).1 == proof_path(
                hashes_view(leaves@),
                index as int,
            ).1,
        decreases current@.len(),
    {
        let ghost level = hashes_view(current@);
        let ghost old_siblings = hashes_view(siblings@);
        let ghost old_bits = path_bits@;
        let left = idx % 2 == 0;
        let sibling_idx = if left {
            idx + 1
        } else {
            idx - 1
        };
        if sibling_idx < current.len() {
            siblings.push(current[sibling_idx]);
            path_bits.push(left);
        }
        let next = build_next_level(&current);
        proof {
            assert(level.len() == current@.len());
            assert(next@.len() == hashes_view(next@).len());
            let rest = proof_path(next_level(level), idx as int / 2);
            if sibling_idx < current@.len() {
                assert(hashes_view(siblings@) =~= old_siblings + seq![level[sibling_idx as int]]);
                assert(hashes_view(siblings@) + rest.0 =~= old_siblings + (seq![
                    level[sibling_idx as int],
                ] + rest.0));
                assert(path_bits@ + rest.1 =~= old_bits + (seq![left] + rest.1));
            } else {
                assert(hashes_view(siblings@) =~= old_siblings);
            }
        }
        idx = idx / 2;
        current = next;
    }
    proof {
        assert(hashes_view(siblings@) + Seq::<Seq<u8>>::empty() =~= hashes_view(siblings@));
        assert(path_bits@ + Seq::<bool>::empty() =~= path_bits@);
    }
    (siblings, path_bits)
}

/// The writes held by the first `i` entries of a batch.
pub open spec fn written_prefix(w: Seq<(Seq<u8>, Option<Vec<u8>>)>, i: int) -> Map<
    Seq<u8>,
    Option<Seq<u8>>,
> {
    entries_map(map_entries(w.take(i), write_view()))
}

proof fn lemma_written_prefix_step(w: Seq<(Seq<u8>, Option<Vec<u8>>)>, i: int)
    requires
        keys_sorted(w),
        0 <= i < w.len(),
    ensures
        written_prefix(w, i + 1) == written_prefix(w, i).insert(w[i].0, opt_bytes(w[i].1)),
{
    let a = map_entries(w.take(i), write_view());
    let b = map_entries(w.take(i + 1), write_view());
    assert forall|x: int, y: int| 0 <= x < y < a.len() implies lex_lt(
        (#[trigger] a[x]).0,
        (#[trigger] a[y]).0,
    ) by {
        assert(lex_lt(w[x].0, w[y].0));
    }
    assert forall|x: int| 0 <= x < i implies lex_lt((#[trigger] a[x]).0, w[i].0) by {
        assert(lex_lt(w[x].0, w[i].0));
    }
    assert(b =~= a.insert(i, (w[i].0, opt_bytes(w[i].1))));
    lemma_insert_entry(a, i, w[i].0, opt_bytes(w[i].1));
}

/// Applies a batch of writes to a map of stored values: `Some` stores the
/// value, `None` removes the key.
pub fn apply_writes_to_entries(
    entries: &mut ByteMap<Vec<u8>>,
    writes: &ByteMap<Option<Vec<u8>>>,
)
    ensures
        final(entries).wf(),
        final(entries)@.map_values(value_bytes()) == apply_writes_to(
            old(entries)@.map_values(value_bytes()),
            writes@.map_values(write_view()),
        ),
{
    let n = writes.len();
    let _ = entries.len();
    let ghost w = writes.entries();
    let ghost base = old(entries)@.map_values(value_bytes());
    proof {
        assert(w.take(0) =~= Seq::empty());
        assert(map_entries(w.take(0), write_view()) =~= Seq::empty());
        assert(written_prefix(w, 0) =~= Map::empty());
        assert(base =~= apply_writes_to(base, written_prefix(w, 0)));
    }
    let mut i: usize = 0;
    while i < n
        invariant
            n == w.len(),
            w == writes.entries(),
            writes.wf(),
            i <= n,
            entries.wf(),
            entries@.map_values(value_bytes()) == apply_writes_to(
                base,
                written_prefix(w, i as int),
            ),
        decreases n - i,
    {
        let key = writes.key_at(i);
        let value = writes.value_at(i);
        let ghost before = entries@.map_values(value_bytes());
        let ghost done = written_prefix(w, i as int);
        proof {
            lemma_written_prefix_step(w, i as int);
        }
        match value {
            Some(v) => {
                entries.insert(key.clone(), v.clone());
                assert(entries@.map_values(value_bytes()) =~= before.insert(key@, v@));
                assert(before.insert(key@, v@) =~= apply_writes_to(
                    base,
                    done.insert(key@, Some(v@)),
                ));
            },
            None => {
                entries.remove(key.as_slice());
                assert(entries@.map_values(value_bytes()) =~= before.remove(key@));
                assert(before.remove(key@) =~= apply_writes_to(base, done.insert(key@, None)));
            },
        }
        i += 1;
    }
    proof {
        assert(w.take(n as int) =~= w);
        lemma_map_entries(w, write_view());
    }
}

/// A Merkle tree over a set of key-value pairs.
#[derive(Debug)]
pub struct SparseMerkleTree {
    entries: ByteMap<Vec<u8>>,
}

impl View for SparseMerkleTree {
    type V = Map<Seq<u8>, Seq<u8>>;

    closed spec fn view(&self) -> Map<Seq<u8>, Seq<u8>> {
        self.entries@.map_values(value_bytes())
    }
}

/// Sorted entries that stand for `m` are the sorted entries of `m`.
pub proof fn lemma_sorted_entries_of(s: Seq<(Seq<u8>, Seq<u8>)>, m: Map<Seq<u8>, Seq<u8>>)
    requires
        keys_sorted(s),
        entries_map(s) == m,
    ensures
        sorted_entries(m) == s,
{
    let t = sorted_entries(m);
    assert(keys_sorted(t) && entries_map(t) == m);
    lemma_sorted_entries_unique(s, t);
}

impl SparseMerkleTree {
    /// The entries in ascending key order.
    pub closed spec fn spec_entries(&self) -> Seq<(Seq<u8>, Seq<u8>)> {
        map_entries(self.entries.entries(), value_bytes())
    }

    /// The stored map is sorted by key. Holds of every tree that this
    /// module hands out.
    pub closed spec fn wf(&self) -> bool {
        self.entries.wf()
    }

    /// The root computed from the entries as the tree holds them.
    pub open spec fn spec_root(&self) -> Seq<u8> {
        root_of(leaves_of(self.spec_entries()))
    }

    /// The tree's entries are the sorted entries of its content.
    pub proof fn lemma_entries_sorted(&self)
        requires
            self.wf(),
        ensures
            keys_sorted(self.spec_entries()),
            entries_map(self.spec_entries()) == self@,
            self.spec_entries() == sorted_entries(self@),
            self.spec_root() == merkle_root(self@),
    {
        lemma_map_entries(self.entries.entries(), value_bytes());
        lemma_sorted_entries_of(self.spec_entries(), self@);
    }

    /// An empty tree.
    pub fn new() -> (t: SparseMerkleTree)
        ensures
            t.wf(),
            t@ == Map::<Seq<u8>, Seq<u8>>::empty(),
    {
        let t = SparseMerkleTree { entries: ByteMap::new() };
        assert(t@ =~= Map::<Seq<u8>, Seq<u8>>::empty());
        t
    }

    /// Stores `value` under `key`.
    pub fn insert(&mut self, key: &[u8], value: &[u8])
        ensures
            final(self).wf(),
            final(self)@ == old(self)@.insert(key@, value@),
    {
        self.entries.insert(slice_to_vec(key), slice_to_vec(value));
        assert(self@ =~= old(self)@.insert(key@, value@));
    }

    /// Removes `key`.
    pub fn delete(&mut self, key: &[u8])
        ensures
            final(self).wf(),
            final(self)@ == old(self)@.remove(key@),
    {
        self.entries.remove(key);
        assert(self@ =~= old(self)@.remove(key@));
    }

    /// The value stored under `key`.
    pub fn get(&self, key: &[u8]) -> (r: Option<&[u8]>)
        ensures
            r is Some <==> self@.contains_key(key@),
            r matches Some(v) ==> v@ == self@[key@],
    {
        match self.entries.get(key) {
            Some(v) => Some(v.as_slice()),
            None => None,
        }
    }

    /// Whether `key` is stored.
    pub fn contains_key(&self, key: &[u8]) -> (r: bool)
        ensures
            r == self@.contains_key(key@),
    {
        self.entries.contains_key(key)
    }

    /// Number of entries.
    pub fn len(&self) -> (n: usize)
        ensures
            self@.dom().finite(),
            n == self@.dom().len(),
    {
        let n = self.entries.len();
        assert(self@.dom() =~= self.entries@.dom());
        n
    }

    /// Whether the tree has no entry.
    pub fn is_empty(&self) -> (r: bool)
        ensures
            r == (self@ == Map::<Seq<u8>, Seq<u8>>::empty()),
    {
        let r = self.entries.is_empty();
        proof {
            if r {
                assert(self@ =~= Map::<Seq<u8>, Seq<u8>>::empty());
            } else if self@ == Map::<Seq<u8>, Seq<u8>>::empty() {
                assert(self.entries@.dom() =~= self@.dom());
                assert(self.entries@ =~= Map::empty());
            }
        }
        r
    }

    /// The leaf hashes in ascending key order.
    fn leaf_hashes(&self) -> (leaves: Vec<types::Hash>)
        ensures
            self.wf(),
            hashes_view(leaves@) == leaves_of(self.spec_entries()),
    {
        let n = self.entries.len();
        let mut leaves: Vec<types::Hash> = Vec::new();
        let mut i: usize = 0;
        while i < n
            invariant
                n == self.entries.entries().len(),
                i <= n,
                leaves@.len() == i,
                forall|k: int|
                    0 <= k < i ==> (#[trigger] leaves@[k])@ == leaves_of(self.spec_entries())[k],
            decreases n - i,
        {
            let h = hash_leaf(self.entries.key_at(i).as_slice(), self.entries.value_at(i).as_slice());
            leaves.push(h);
            i += 1;
        }
        assert(hashes_view(leaves@) =~= leaves_of(self.spec_entries()));
        leaves
    }

    /// The Merkle root of the tree's content. It depends on the content
    /// alone, not on the order in which the content was built.
    pub fn root(&self) -> (root: types::Hash)
        ensures
            root@ == merkle_root(self@),
            root@ == self.spec_root(),
    {
        let leaves = self.leaf_hashes();
        proof {
            self.lemma_entries_sorted();
        }
        compute_root_from_leaves(leaves.as_slice())
    }

    /// Applies a batch of writes: `Some` stores the value, `None` removes
    /// the key.
    pub fn apply_writes(&mut self, writes: &ByteMap<Option<Vec<u8>>>)
        ensures
            final(self).wf(),
            final(self)@ == apply_writes_to(old(self)@, writes@.map_values(write_view())),
    {
        apply_writes_to_entries(&mut self.entries, writes);
    }

    /// A membership proof for `key`; without a leaf hash when the key is
    /// absent.
    pub fn prove(&self, key: &[u8]) -> (proof: MerkleProof)
        ensures
            proof@ == prove_spec(self@, key@),
    {
        let (found, pos) = self.entries.search(key);
        if !found {
            let p = MerkleProof { siblings: Vec::new(), path_bits: Vec::new(), leaf_hash: None };
            assert(hashes_view(p.siblings@) =~= Seq::empty());
            assert(!self@.contains_key(key@));
            return p;
        }
        let leaves = self.leaf_hashes();
        proof {
            self.lemma_entries_sorted();
            let s = self.spec_entries();
            assert(s[pos as int].0 == key@);
            lemma_entry_lookup(s, pos as int);
            assert(self@.contains_key(key@));
            assert(self@[key@] == s[pos as int].1);
            assert(hashes_view(leaves@)[pos as int] == leaves@[pos as int]@);
        }
        let leaf = leaves[pos];
        let (siblings, path_bits) = compute_proof_path(leaves.as_slice(), pos);
        MerkleProof { siblings, path_bits, leaf_hash: Some(leaf) }
    }

    /// Checks `proof` against `root` for `key` and `value`.
    pub fn verify_proof(
        root: &types::Hash,
        proof: &MerkleProof,
        key: &[u8],
        value: Option<&[u8]>,
    ) -> (ok: bool)
        ensures
            ok == verify_spec(root@, proof@, key@, match value {
                Some(v) => Some(v@),
                None => None,
            }),
    {
        let leaf = match (&proof.leaf_hash, value) {
            (Some(lh), Some(v)) => {
                let expected = hash_leaf(key, v);
                if !bytes_eq(lh.as_slice(), expected.as_slice()) {
                    return false;
                }
                *lh
            },
            (None, None) => {
                assert(ZERO_HASH@ =~= zero_bytes(32));
                assert(hashes_view(proof.siblings@).len() == proof.siblings@.len());
                return proof.siblings.len() == 0 && bytes_eq(
                    root.as_slice(),
                    ZERO_HASH.as_slice(),
                );
            },
            _ => {
                return false;
            },
        };
        let steps = if proof.siblings.len() <= proof.path_bits.len() {
            proof.siblings.len()
        } else {
            proof.path_bits.len()
        };
        let mut current = leaf;
        let mut i: usize = 0;
        while i < steps
            invariant
                i <= steps,
                steps == path_len(proof@.siblings, proof@.path_bits),
                steps <= proof.siblings@.len(),
                steps <= proof.path_bits@.len(),
                current@ == walk(leaf@, proof@.siblings, proof@.path_bits, i as int),
            decreases steps - i,
        {
            current = if proof.path_bits[i] {
                hash_internal(&current, &proof.siblings[i])
            } else {
                hash_internal(&proof.siblings[i], &current)
            };
            i += 1;
        }
        bytes_eq(current.as_slice(), root.as_slice())
    }

    /// The stored entries, in ascending key order.
    pub fn entries(&self) -> (e: &ByteMap<Vec<u8>>)
        ensures
            e.wf(),
            e@.map_values(value_bytes()) == self@,
    {
        let _ = self.entries.len();
        &self.entries
    }
}

impl Default for SparseMerkleTree {
    fn default() -> (t: SparseMerkleTree)
        ensures
            t@ == Map::<Seq<u8>, Seq<u8>>::empty(),
    {
        SparseMerkleTree::new()
    }
}

/// One step of a proof walk.
pub open spec fn walk_step(below: Seq<u8>, sibling: Seq<u8>, is_left: bool) -> Seq<u8> {
    if is_left {
        node_hash(below, sibling)
    } else {
        node_hash(sibling, below)
    }
}

proof fn lemma_walk_prepend(
    start: Seq<u8>,
    sibling: Seq<u8>,
    bit: bool,
    siblings: Seq<Seq<u8>>,
    bits: Seq<bool>,
    n: int,
)
    requires
        0 <= n <= siblings.len(),
        n <= bits.len(),
    ensures
        walk(start, seq![sibling] + siblings, seq![bit] + bits, n + 1) == walk(
            walk_step(start, sibling, bit),
            siblings,
            bits,
            n,
        ),
    decreases n,
{
    let all_siblings = seq![sibling] + siblings;
    let all_bits = seq![bit] + bits;
    if n == 0 {
        assert(walk(start, all_siblings, all_bits, 0) == start);
        assert(all_siblings[0] == sibling && all_bits[0] == bit);
    } else {
        lemma_walk_prepend(start, sibling, bit, siblings, bits, n - 1);
        assert(all_siblings[n] == siblings[n - 1]);
        assert(all_bits[n] == bits[n - 1]);
    }
}

/// The proof path of a node leads from the node to the root: it has as
/// many bits as siblings, and walking it from the node's hash ends at the
/// root of the level.
pub proof fn lemma_proof_path_reaches_root(level: Seq<Seq<u8>>, idx: int)
    requires
        0 <= idx < level.len(),
    ensures
        proof_path(level, idx).0.len() == proof_path(level, idx).1.len(),
        walk(
            level[idx],
            proof_path(level, idx).0,
            proof_path(level, idx).1,
            proof_path(level, idx).0.len() as int,
        ) == root_of(level),
    decreases level.len(),
{
    if level.len() >= 2 {
        let next = next_level(level);
        let parent = idx / 2;
        lemma_proof_path_reaches_root(next, parent);
        let rest = proof_path(next, parent);
        let sibling = if idx % 2 == 0 {
            idx + 1
        } else {
            idx - 1
        };
        if 0 <= sibling < level.len() {
            let is_left = idx % 2 == 0;
            assert(next[parent] == walk_step(level[idx], level[sibling], is_left));
            lemma_walk_prepend(
                level[idx],
                level[sibling],
                is_left,
                rest.0,
                rest.1,
                rest.0.len() as int,
            );
        } else {
            assert(next[parent] == level[idx]);
        }
    }
}

/// A proof that a tree gives for one of its keys verifies against the
/// tree's root with the key's value.
pub proof fn lemma_proof_verifies(m: Map<Seq<u8>, Seq<u8>>, key: Seq<u8>)
    requires
        m.contains_key(key),
        exists|s: Seq<(Seq<u8>, Seq<u8>)>| keys_sorted(s) && entries_map(s) == m,
    ensures
        verify_spec(merkle_root(m), prove_spec(m, key), key, Some(m[key])),
{
    let entries = sorted_entries(m);
    assert(keys_sorted(entries) && entries_map(entries) == m);
    let idx = index_of(entries, key);
    assert(0 <= idx < entries.len() && entries[idx].0 == key);
    lemma_entry_lookup(entries, idx);
    let leaves = leaves_of(entries);
    assert(leaves[idx] == leaf_hash(key, m[key]));
    lemma_proof_path_reaches_root(leaves, idx);
}

/// Two trees with the same content have the same root, whatever the order
/// in which their entries were inserted or deleted.
pub proof fn lemma_root_order_independent(a: SparseMerkleTree, b: SparseMerkleTree)
    requires
        a.wf(),
        b.wf(),
        a@ == b@,
    ensures
        a.spec_entries() == b.spec_entries(),
        a.spec_root() == b.spec_root(),
{
    a.lemma_entries_sorted();
    b.lemma_entries_sorted();
}

} // verus!
