//! Fixed-width identifiers, protocol constants and little-endian helpers.

use vstd::prelude::*;
use vstd::bytes::{
    spec_u32_from_le_bytes, spec_u32_to_le_bytes, spec_u64_from_le_bytes, spec_u64_to_le_bytes,
};
use vstd::slice::slice_subrange;
use vstd::string::StringExecFns;

verus! {

/// 32-byte hash: block hashes, state roots, Merkle nodes.
pub type Hash = [u8; 32];

/// 32-byte account address (an Ed25519 public key).
pub type Address = [u8; 32];

/// Block height.
pub type BlockHeight = u64;

/// Round within a consensus height.
pub type Round = u64;

/// Version of the execution API spoken by this engine.
pub const API_VERSION: u32 = 1;

/// Longest state key, in bytes.
pub const MAX_KEY_LEN: usize = 256;

/// Longest state value, in bytes.
pub const MAX_VALUE_LEN: usize = 65_536;

/// The hash made of 32 zero bytes.
pub const ZERO_HASH: Hash = [
    0, 0, 0, 0, 0, 0, 0, 0,
    0, 0, 0, 0, 0, 0, 0, 0,
    0, 0, 0, 0, 0, 0, 0, 0,
    0, 0, 0, 0, 0, 0, 0, 0,
];

/// The address made of 32 zero bytes.
pub const ZERO_ADDRESS: Address = [
    0, 0, 0, 0, 0, 0, 0, 0,
    0, 0, 0, 0, 0, 0, 0, 0,
    0, 0, 0, 0, 0, 0, 0, 0,
    0, 0, 0, 0, 0, 0, 0, 0,
];

/// The sequence of `n` zero bytes.
pub open spec fn zero_bytes(n: nat) -> Seq<u8> {
    Seq::new(n, |i: int| 0u8)
}

/// The lowercase hexadecimal digit of a nibble.
pub open spec fn hex_digit(n: int) -> Seq<char> {
    if n == 0 {
        "0"@
    } else if n == 1 {
        "1"@
    } else if n == 2 {
        "2"@
    } else if n == 3 {
        "3"@
    } else if n == 4 {
        "4"@
    } else if n == 5 {
        "5"@
    } else if n == 6 {
        "6"@
    } else if n == 7 {
        "7"@
    } else if n == 8 {
        "8"@
    } else if n == 9 {
        "9"@
    } else if n == 10 {
        "a"@
    } else if n == 11 {
        "b"@
    } else if n == 12 {
        "c"@
    } else if n == 13 {
        "d"@
    } else if n == 14 {
        "e"@
    } else {
        "f"@
    }
}

/// Two lowercase hexadecimal digits per byte, high nibble first.
pub open spec fn hex_digits(bytes: Seq<u8>) -> Seq<char>
    decreases bytes.len(),
{
    if bytes.len() == 0 {
        Seq::empty()
    } else {
        hex_digits(bytes.drop_last()) + hex_digit(bytes.last() as int / 16) + hex_digit(
            bytes.last() as int % 16,
        )
    }
}

fn hex_digit_str(n: u8) -> (s: &'static str)
    requires
        n < 16,
    ensures
        s@ == hex_digit(n as int),
{
    match n {
        0 => "0",
        1 => "1",
        2 => "2",
        3 => "3",
        4 => "4",
        5 => "5",
        6 => "6",
        7 => "7",
        8 => "8",
        9 => "9",
        10 => "a",
        11 => "b",
        12 => "c",
        13 => "d",
        14 => "e",
        _ => "f",
    }
}

/// Renders a hash as `0x` followed by 64 lowercase hexadecimal digits.
pub fn hash_to_hex(hash: &Hash) -> (s: String)
    ensures
        s@ == "0x"@ + hex_digits(hash@),
{
    let mut s = String::from_str("0x");
    let mut i: usize = 0;
    while i < 32
        invariant
            i <= 32,
            s@ == "0x"@ + hex_digits(hash@.subrange(0, i as int)),
        decreases 32 - i,
    {
        let b = hash[i];
        proof {
            let next = hash@.subrange(0, i + 1);
            assert(next.drop_last() =~= hash@.subrange(0, i as int));
            assert(next.last() == b);
        }
        s.append(hex_digit_str(b / 16));
        s.append(hex_digit_str(b % 16));
        i += 1;
    }
    assert(hash@.subrange(0, 32) =~= hash@);
    s
}

/// Little-endian encoding of a `u64`.
pub fn u64_to_le_bytes(v: u64) -> (out: [u8; 8])
    ensures
        out@ == spec_u64_to_le_bytes(v),
{
    let bytes = vstd::bytes::u64_to_le_bytes(v);
    let mut out = [0u8; 8];
    let mut i: usize = 0;
    while i < 8
        invariant
            i <= 8,
            bytes@.len() == 8,
            forall|j: int| 0 <= j < i ==> out@[j] == bytes@[j],
        decreases 8 - i,
    {
        out[i] = bytes[i];
        i += 1;
    }
    assert(out@ =~= bytes@);
    out
}

/// Decodes a `u64` from the first eight bytes; `None` when there are fewer.
pub fn u64_from_le_bytes(bytes: &[u8]) -> (r: Option<u64>)
    ensures
        r == spec_read_u64(bytes@),
{
    if bytes.len() < 8 {
        return None;
    }
    Some(vstd::bytes::u64_from_le_bytes(slice_subrange(bytes, 0, 8)))
}

/// What [`u64_from_le_bytes`] returns for a byte sequence.
pub open spec fn spec_read_u64(bytes: Seq<u8>) -> Option<u64> {
    if bytes.len() < 8 {
        None
    } else {
        Some(spec_u64_from_le_bytes(bytes.subrange(0, 8)))
    }
}

/// Little-endian encoding of a `u32`.
pub fn u32_to_le_bytes(v: u32) -> (out: [u8; 4])
    ensures
        out@ == spec_u32_to_le_bytes(v),
{
    let bytes = vstd::bytes::u32_to_le_bytes(v);
    let mut out = [0u8; 4];
    let mut i: usize = 0;
    while i < 4
        invariant
            i <= 4,
            bytes@.len() == 4,
            forall|j: int| 0 <= j < i ==> out@[j] == bytes@[j],
        decreases 4 - i,
    {
        out[i] = bytes[i];
        i += 1;
    }
    assert(out@ =~= bytes@);
    out
}

/// What [`u32_from_le_bytes`] returns for a byte sequence.
pub open spec fn spec_read_u32(bytes: Seq<u8>) -> Option<u32> {
    if bytes.len() < 4 {
        None
    } else {
        Some(spec_u32_from_le_bytes(bytes.subrange(0, 4)))
    }
}

/// Decodes a `u32` from the first four bytes; `None` when there are fewer.
pub fn u32_from_le_bytes(bytes: &[u8]) -> (r: Option<u32>)
    ensures
        r == spec_read_u32(bytes@),
{
    if bytes.len() < 4 {
        return None;
    }
    Some(vstd::bytes::u32_from_le_bytes(slice_subrange(bytes, 0, 4)))
}

/// The concatenation of the first `n` slices.
pub open spec fn concat_prefix(slices: Seq<&[u8]>, n: int) -> Seq<u8>
    decreases n,
{
    if n <= 0 {
        Seq::empty()
    } else {
        concat_prefix(slices, n - 1) + slices[n - 1]@
    }
}

/// Concatenates byte slices, in order, into one vector.
pub fn concat_bytes(slices: &[&[u8]]) -> (out: Vec<u8>)
    ensures
        out@ == concat_prefix(slices@, slices@.len() as int),
{
    let mut out: Vec<u8> = Vec::new();
    let mut i: usize = 0;
    while i < slices.len()
        invariant
            i <= slices@.len(),
            out@ == concat_prefix(slices@, i as int),
        decreases slices@.len() - i,
    {
        out.extend_from_slice(slices[i]);
        i += 1;
    }
    out
}

/// Copies a 32-byte array.
pub fn copy_hash(h: &Hash) -> (out: Hash)
    ensures
        out@ == h@,
        out == *h,
{
    *h
}

/// Whether two byte slices hold the same bytes.
pub fn bytes_eq(a: &[u8], b: &[u8]) -> (r: bool)
    ensures
        r == (a@ == b@),
{
    if a.len() != b.len() {
        return false;
    }
    let mut i: usize = 0;
    while i < a.len()
        invariant
            i <= a@.len(),
            a@.len() == b@.len(),
            forall|j: int| 0 <= j < i ==> a@[j] == b@[j],
        decreases a@.len() - i,
    {
        if a[i] != b[i] {
            return false;
        }
        i += 1;
    }
    assert(a@ =~= b@);
    true
}

/// Reads 32 bytes starting at `pos` into an array.
pub fn array32_from(bytes: &[u8], pos: usize) -> (out: [u8; 32])
    requires
        pos + 32 <= bytes@.len(),
    ensures
        out@ == bytes@.subrange(pos as int, pos + 32),
{
    let mut out = [0u8; 32];
    let len = bytes.len();
    let mut i: usize = 0;
    while i < 32
        invariant
            i <= 32,
            pos + 32 <= len == bytes@.len(),
            forall|j: int| 0 <= j < i ==> out@[j] == bytes@[pos + j],
        decreases 32 - i,
    {
        out[i] = bytes[pos + i];
        i += 1;
    }
    assert(out@ =~= bytes@.subrange(pos as int, pos + 32));
    out
}

/// Reads 64 bytes starting at `pos` into an array.
pub fn array64_from(bytes: &[u8], pos: usize) -> (out: [u8; 64])
    requires
        pos + 64 <= bytes@.len(),
    ensures
        out@ == bytes@.subrange(pos as int, pos + 64),
{
    let mut out = [0u8; 64];
    let len = bytes.len();
    let mut i: usize = 0;
    while i < 64
        invariant
            i <= 64,
            pos + 64 <= len == bytes@.len(),
            forall|j: int| 0 <= j < i ==> out@[j] == bytes@[pos + j],
        decreases 64 - i,
    {
        out[i] = bytes[pos + i];
        i += 1;
    }
    assert(out@ =~= bytes@.subrange(pos as int, pos + 64));
    out
}

} // verus!
