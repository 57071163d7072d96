//! The deterministic binary codec of requests, responses, events and the
//! execution context.
//!
//! Integers are little-endian. A `bool` is one byte, 0 or 1. Byte strings
//! and texts carry a `u32` length prefix, and a text is UTF-8. A repeated
//! field carries a `u32` count and then its items in order. An optional
//! hash is a tag byte, 0 or 1, followed by the 32 bytes when the tag is 1.

use vstd::prelude::*;
use vstd::bytes::{
    lemma_auto_spec_u32_to_from_le_bytes, lemma_auto_spec_u64_to_from_le_bytes,
    spec_u32_from_le_bytes, spec_u32_to_le_bytes, spec_u64_from_le_bytes, spec_u64_to_le_bytes,
};
use vstd::slice::{slice_subrange, slice_to_vec};
use vstd::utf8::{
    decode_utf8, encode_utf8, encode_utf8_decode_utf8, encode_utf8_valid_utf8, valid_utf8,
};
use vstd::string::StringExecFns;
use crate::primitives::error::{decimal, ExecError, ExecErrorView};
use crate::primitives::execution::{
    byte_strings, opt_hash_view, Event, EventAttribute, EventAttributeView, EventView, ExecutionContext,
    ExecutionContextView, ExecutionLimits, ExecutionRequest, ExecutionRequestView,
    ExecutionResponse, ExecutionResponseView, ExecutionStatus, LogLine, LogLineView, Receipt,
    ReceiptView,
};
use crate::primitives::types;
use crate::primitives::types::{array32_from, u32_to_le_bytes, u64_to_le_bytes};

verus! {

// ── The format, as functions on byte sequences ──

/// Encoding of a byte.
pub open spec fn ser_u8(v: u8) -> Seq<u8> {
    seq![v]
}

/// Encoding of a `u32`: four bytes, little-endian.
pub open spec fn ser_u32(v: u32) -> Seq<u8> {
    spec_u32_to_le_bytes(v)
}

/// Encoding of a `u64`: eight bytes, little-endian.
pub open spec fn ser_u64(v: u64) -> Seq<u8> {
    spec_u64_to_le_bytes(v)
}

/// Encoding of a `bool`: one byte, 1 for true.
pub open spec fn ser_bool(b: bool) -> Seq<u8> {
    seq![if b { 1u8 } else { 0u8 }]
}

/// Encoding of an optional hash: a tag byte, then the hash when present.
pub open spec fn ser_opt_hash(h: Option<Seq<u8>>) -> Seq<u8> {
    match h {
        None => seq![0u8],
        Some(x) => seq![1u8] + x,
    }
}

/// Encoding of a byte string: its length as `u32`, then the bytes.
pub open spec fn ser_var_bytes(b: Seq<u8>) -> Seq<u8> {
    ser_u32(b.len() as u32) + b
}

/// Encoding of a text: its UTF-8 bytes as a byte string.
pub open spec fn ser_string(s: Seq<char>) -> Seq<u8> {
    ser_var_bytes(encode_utf8(s))
}

/// Encoding of a repeated field's items, one after the other.
pub open spec fn ser_items<T>(items: Seq<T>, f: spec_fn(T) -> Seq<u8>) -> Seq<u8>
    decreases items.len(),
{
    if items.len() == 0 {
        Seq::empty()
    } else {
        f(items[0]) + ser_items(items.skip(1), f)
    }
}

/// Encoding of a repeated field: the count as `u32`, then the items.
pub open spec fn ser_list<T>(items: Seq<T>, f: spec_fn(T) -> Seq<u8>) -> Seq<u8> {
    ser_u32(items.len() as u32) + ser_items(items, f)
}

/// Reads a byte: the value and the bytes that follow it.
pub open spec fn parse_u8(s: Seq<u8>) -> Option<(u8, Seq<u8>)> {
    if s.len() < 1 {
        None
    } else {
        Some((s[0], s.skip(1)))
    }
}

/// Reads a `u32`.
pub open spec fn parse_u32(s: Seq<u8>) -> Option<(u32, Seq<u8>)> {
    if s.len() < 4 {
        None
    } else {
        Some((spec_u32_from_le_bytes(s.take(4)), s.skip(4)))
    }
}

/// Reads a `u64`.
pub open spec fn parse_u64(s: Seq<u8>) -> Option<(u64, Seq<u8>)> {
    if s.len() < 8 {
        None
    } else {
        Some((spec_u64_from_le_bytes(s.take(8)), s.skip(8)))
    }
}

/// Reads a `bool`; any byte but 0 and 1 is refused.
pub open spec fn parse_bool(s: Seq<u8>) -> Option<(bool, Seq<u8>)> {
    match parse_u8(s) {
        None => None,
        Some((b, r)) => if b == 0 {
            Some((false, r))
        } else if b == 1 {
            Some((true, r))
        } else {
            None
        },
    }
}

/// Reads a 32-byte hash.
pub open spec fn parse_hash(s: Seq<u8>) -> Option<(Seq<u8>, Seq<u8>)> {
    if s.len() < 32 {
        None
    } else {
        Some((s.take(32), s.skip(32)))
    }
}

/// Reads an optional hash; any tag but 0 and 1 is refused.
pub open spec fn parse_opt_hash(s: Seq<u8>) -> Option<(Option<Seq<u8>>, Seq<u8>)> {
    match parse_u8(s) {
        None => None,
        Some((tag, r)) => if tag == 0 {
            Some((None, r))
        } else if tag == 1 {
            match parse_hash(r) {
                None => None,
                Some((h, r2)) => Some((Some(h), r2)),
            }
        } else {
            None
        },
    }
}

/// Reads a length-prefixed byte string.
pub open spec fn parse_var_bytes(s: Seq<u8>) -> Option<(Seq<u8>, Seq<u8>)> {
    match parse_u32(s) {
        None => None,
        Some((n, r)) => if r.len() < n {
            None
        } else {
            Some((r.take(n as int), r.skip(n as int)))
        },
    }
}

/// Reads a length-prefixed text; bytes that are not UTF-8 are refused.
pub open spec fn parse_string(s: Seq<u8>) -> Option<(Seq<char>, Seq<u8>)> {
    match parse_var_bytes(s) {
        None => None,
        Some((b, r)) => if valid_utf8(b) {
            Some((decode_utf8(b), r))
        } else {
            None
        },
    }
}

/// Reads `n` items, each with `p`.
pub open spec fn parse_items<T>(
    s: Seq<u8>,
    n: nat,
    p: spec_fn(Seq<u8>) -> Option<(T, Seq<u8>)>,
) -> Option<(Seq<T>, Seq<u8>)>
    decreases n,
{
    if n == 0 {
        Some((Seq::empty(), s))
    } else {
        match p(s) {
            None => None,
            Some((x, r)) => match parse_items(r, (n - 1) as nat, p) {
                None => None,
                Some((xs, r2)) => Some((seq![x] + xs, r2)),
            },
        }
    }
}

/// Reads a repeated field: a `u32` count, then that many items.
pub open spec fn parse_list<T>(s: Seq<u8>, p: spec_fn(Seq<u8>) -> Option<(T, Seq<u8>)>) -> Option<
    (Seq<T>, Seq<u8>),
> {
    match parse_u32(s) {
        None => None,
        Some((n, r)) => parse_items(r, n as nat, p),
    }
}

/// The items read so far, followed by what reading `n` more items gives.
pub open spec fn continue_items<T>(
    done: Seq<T>,
    s: Seq<u8>,
    n: nat,
    p: spec_fn(Seq<u8>) -> Option<(T, Seq<u8>)>,
) -> Option<(Seq<T>, Seq<u8>)> {
    match parse_items(s, n, p) {
        None => None,
        Some((xs, r)) => Some((done + xs, r)),
    }
}

// ── Round trips of the elementary encodings ──

pub proof fn lemma_parse_ser_u8(v: u8, rest: Seq<u8>)
    ensures
        parse_u8(ser_u8(v) + rest) == Some((v, rest)),
{
    assert((ser_u8(v) + rest).skip(1) =~= rest);
}

pub proof fn lemma_parse_ser_u32(v: u32, rest: Seq<u8>)
    ensures
        ser_u32(v).len() == 4,
        parse_u32(ser_u32(v) + rest) == Some((v, rest)),
{
    lemma_auto_spec_u32_to_from_le_bytes();
    assert((ser_u32(v) + rest).take(4) =~= ser_u32(v));
    assert((ser_u32(v) + rest).skip(4) =~= rest);
}

pub proof fn lemma_parse_ser_u64(v: u64, rest: Seq<u8>)
    ensures
        ser_u64(v).len() == 8,
        parse_u64(ser_u64(v) + rest) == Some((v, rest)),
{
    lemma_auto_spec_u64_to_from_le_bytes();
    assert((ser_u64(v) + rest).take(8) =~= ser_u64(v));
    assert((ser_u64(v) + rest).skip(8) =~= rest);
}

pub proof fn lemma_parse_ser_bool(b: bool, rest: Seq<u8>)
    ensures
        parse_bool(ser_bool(b) + rest) == Some((b, rest)),
{
    assert((ser_bool(b) + rest).skip(1) =~= rest);
}

pub proof fn lemma_parse_ser_hash(h: Seq<u8>, rest: Seq<u8>)
    requires
        h.len() == 32,
    ensures
        parse_hash(h + rest) == Some((h, rest)),
{
    assert((h + rest).take(32) =~= h);
    assert((h + rest).skip(32) =~= rest);
}

pub proof fn lemma_parse_ser_opt_hash(h: Option<Seq<u8>>, rest: Seq<u8>)
    requires
        h matches Some(x) ==> x.len() == 32,
    ensures
        parse_opt_hash(ser_opt_hash(h) + rest) == Some((h, rest)),
{
    match h {
        None => {
            assert((ser_opt_hash(h) + rest).skip(1) =~= rest);
        },
        Some(x) => {
            assert((ser_opt_hash(h) + rest).skip(1) =~= x + rest);
            lemma_parse_ser_hash(x, rest);
        },
    }
}

pub proof fn lemma_parse_ser_var_bytes(b: Seq<u8>, rest: Seq<u8>)
    requires
        b.len() <= u32::MAX,
    ensures
        parse_var_bytes(ser_var_bytes(b) + rest) == Some((b, rest)),
{
    let n = b.len() as u32;
    lemma_parse_ser_u32(n, b + rest);
    assert(ser_var_bytes(b) + rest =~= ser_u32(n) + (b + rest));
    assert((b + rest).take(n as int) =~= b);
    assert((b + rest).skip(n as int) =~= rest);
}

pub proof fn lemma_parse_ser_string(s: Seq<char>, rest: Seq<u8>)
    requires
        encode_utf8(s).len() <= u32::MAX,
    ensures
        parse_string(ser_string(s) + rest) == Some((s, rest)),
{
    lemma_parse_ser_var_bytes(encode_utf8(s), rest);
    encode_utf8_valid_utf8(s);
    encode_utf8_decode_utf8(s);
}

/// Items that each read back from their encoding read back as a list.
pub proof fn lemma_parse_ser_items<T>(
    items: Seq<T>,
    f: spec_fn(T) -> Seq<u8>,
    p: spec_fn(Seq<u8>) -> Option<(T, Seq<u8>)>,
    rest: Seq<u8>,
)
    requires
        forall|i: int, r: Seq<u8>|
            0 <= i < items.len() ==> #[trigger] p(f(items[i]) + r) == Some((items[i], r)),
    ensures
        parse_items(ser_items(items, f) + rest, items.len(), p) == Some((items, rest)),
    decreases items.len(),
{
    if items.len() == 0 {
        assert(ser_items(items, f) + rest =~= rest);
    } else {
        let tail = items.skip(1);
        assert forall|i: int, r: Seq<u8>| 0 <= i < tail.len() implies #[trigger] p(f(tail[i]) + r)
            == Some((tail[i], r)) by {
            assert(tail[i] == items[i + 1]);
        }
        lemma_parse_ser_items(tail, f, p, rest);
        assert(ser_items(items, f) + rest =~= f(items[0]) + (ser_items(tail, f) + rest));
        assert(p(f(items[0]) + (ser_items(tail, f) + rest)) == Some(
            (items[0], ser_items(tail, f) + rest),
        ));
        assert(seq![items[0]] + tail =~= items);
    }
}

pub proof fn lemma_parse_ser_list<T>(
    items: Seq<T>,
    f: spec_fn(T) -> Seq<u8>,
    p: spec_fn(Seq<u8>) -> Option<(T, Seq<u8>)>,
    rest: Seq<u8>,
)
    requires
        items.len() <= u32::MAX,
        forall|i: int, r: Seq<u8>|
            0 <= i < items.len() ==> #[trigger] p(f(items[i]) + r) == Some((items[i], r)),
    ensures
        parse_list(ser_list(items, f) + rest, p) == Some((items, rest)),
{
    let n = items.len() as u32;
    lemma_parse_ser_u32(n, ser_items(items, f) + rest);
    assert(ser_list(items, f) + rest =~= ser_u32(n) + (ser_items(items, f) + rest));
    lemma_parse_ser_items(items, f, p, rest);
}

/// Reading one more item continues a list.
pub proof fn lemma_continue_items<T>(
    done: Seq<T>,
    s: Seq<u8>,
    n: nat,
    p: spec_fn(Seq<u8>) -> Option<(T, Seq<u8>)>,
)
    requires
        n > 0,
    ensures
        p(s) is None ==> continue_items(done, s, n, p) is None,
        p(s) matches Some((x, r)) ==> continue_items(done, s, n, p) == continue_items(
            done.push(x),
            r,
            (n - 1) as nat,
            p,
        ),
{
    match p(s) {
        None => {},
        Some((x, r)) => {
            match parse_items(r, (n - 1) as nat, p) {
                None => {},
                Some((xs, r2)) => {
                    assert(done + (seq![x] + xs) =~= done.push(x) + xs);
                },
            }
        },
    }
}

/// Writing one more item continues a list.
pub proof fn lemma_ser_items_step<T>(items: Seq<T>, f: spec_fn(T) -> Seq<u8>, i: int)
    requires
        0 <= i < items.len(),
    ensures
        ser_items(items.skip(i), f) == f(items[i]) + ser_items(items.skip(i + 1), f),
{
    assert(items.skip(i).skip(1) =~= items.skip(i + 1));
}

// ── Reading ──

/// A cursor over the bytes being decoded.
struct Reader<'a> {
    data: &'a [u8],
    pos: usize,
}

/// Converts bytes to a `String`. Calls `String::from_utf8`, which succeeds
/// exactly on valid UTF-8 and then holds the text that the bytes encode.
#[verifier::external_body]
pub(crate) fn string_from_utf8(bytes: Vec<u8>) -> (r: Option<String>)
    ensures
        r is Some <==> valid_utf8(bytes@),
        r matches Some(s) ==> s@ == decode_utf8(bytes@),
{
    String::from_utf8(bytes).ok()
}

/// An encoding error that carries `message`.
fn decode_error(message: &str) -> (e: ExecError)
    ensures
        e@ == ExecErrorView::SerializationError,
        e matches ExecError::SerializationError(text) && text@ == message@,
{
    ExecError::SerializationError(message.to_owned())
}

impl<'a> Reader<'a> {
    spec fn wf(&self) -> bool {
        self.pos <= self.data@.len()
    }

    /// The bytes not read yet.
    spec fn rest(&self) -> Seq<u8> {
        self.data@.skip(self.pos as int)
    }

    fn new(data: &'a [u8]) -> (r: Reader<'a>)
        ensures
            r.wf(),
            r.rest() == data@,
    {
        let r = Reader { data, pos: 0 };
        assert(r.rest() =~= data@);
        r
    }

    #[allow(dead_code)]
    fn remaining(&self) -> (n: usize)
        requires
            self.wf(),
        ensures
            n == self.rest().len(),
    {
        self.data.len() - self.pos
    }

    fn read_bytes(&mut self, n: usize) -> (r: Result<&'a [u8], ExecError>)
        requires
            old(self).wf(),
        ensures
            final(self).wf(),
            r is Ok <==> n <= old(self).rest().len(),
            r matches Ok(b) ==> b@ == old(self).rest().take(n as int) && final(self).rest() == old(
                self,
            ).rest().skip(n as int),
            r matches Err(e) ==> e@ == ExecErrorView::SerializationError,
    {
        if n > self.data.len() - self.pos {
            return Err(decode_error("unexpected end of data"));
        }
        let slice = slice_subrange(self.data, self.pos, self.pos + n);
        assert(slice@ =~= self.rest().take(n as int));
        assert(self.data@.skip(self.pos + n) =~= self.rest().skip(n as int));
        self.pos = self.pos + n;
        Ok(slice)
    }

    fn read_u8(&mut self) -> (r: Result<u8, ExecError>)
        requires
            old(self).wf(),
        ensures
            final(self).wf(),
            r is Ok <==> parse_u8(old(self).rest()) is Some,
            r matches Ok(v) ==> parse_u8(old(self).rest()) == Some((v, final(self).rest())),
            r matches Err(e) ==> e@ == ExecErrorView::SerializationError,
    {
        match self.read_bytes(1) {
            Ok(bytes) => Ok(bytes[0]),
            Err(e) => Err(e),
        }
    }

    fn read_u32(&mut self) -> (r: Result<u32, ExecError>)
        requires
            old(self).wf(),
        ensures
            final(self).wf(),
            r is Ok <==> parse_u32(old(self).rest()) is Some,
            r matches Ok(v) ==> parse_u32(old(self).rest()) == Some((v, final(self).rest())),
            r matches Err(e) ==> e@ == ExecErrorView::SerializationError,
    {
        match self.read_bytes(4) {
            Ok(bytes) => Ok(vstd::bytes::u32_from_le_bytes(bytes)),
            Err(e) => Err(e),
        }
    }

    fn read_u64(&mut self) -> (r: Result<u64, ExecError>)
        requires
            old(self).wf(),
        ensures
            final(self).wf(),
            r is Ok <==> parse_u64(old(self).rest()) is Some,
            r matches Ok(v) ==> parse_u64(old(self).rest()) == Some((v, final(self).rest())),
            r matches Err(e) ==> e@ == ExecErrorView::SerializationError,
    {
        match self.read_bytes(8) {
            Ok(bytes) => Ok(vstd::bytes::u64_from_le_bytes(bytes)),
            Err(e) => Err(e),
        }
    }

    fn read_bool(&mut self) -> (r: Result<bool, ExecError>)
        requires
            old(self).wf(),
        ensures
            final(self).wf(),
            r is Ok <==> parse_bool(old(self).rest()) is Some,
            r matches Ok(v) ==> parse_bool(old(self).rest()) == Some((v, final(self).rest())),
            r matches Err(e) ==> e@ == ExecErrorView::SerializationError,
    {
        match self.read_u8() {
            Ok(b) => {
                if b == 0 {
                    Ok(false)
                } else if b == 1 {
                    Ok(true)
                } else {
                    Err(decode_error("invalid bool value"))
                }
            },
            Err(e) => Err(e),
        }
    }

    fn read_hash(&mut self) -> (r: Result<types::Hash, ExecError>)
        requires
            old(self).wf(),
        ensures
            final(self).wf(),
            r is Ok <==> parse_hash(old(self).rest()) is Some,
            r matches Ok(v) ==> parse_hash(old(self).rest()) == Some((v@, final(self).rest())),
            r matches Err(e) ==> e@ == ExecErrorView::SerializationError,
    {
        match self.read_bytes(32) {
            Ok(bytes) => {
                let h = array32_from(bytes, 0);
                assert(bytes@.subrange(0, 32) =~= bytes@);
                Ok(h)
            },
            Err(e) => Err(e),
        }
    }

    fn read_optional_hash(&mut self) -> (r: Result<Option<types::Hash>, ExecError>)
        requires
            old(self).wf(),
        ensures
            final(self).wf(),
            r is Ok <==> parse_opt_hash(old(self).rest()) is Some,
            r matches Ok(v) ==> parse_opt_hash(old(self).rest()) == Some(
                (opt_hash_view(v), final(self).rest()),
            ),
            r matches Err(e) ==> e@ == ExecErrorView::SerializationError,
    {
        match self.read_u8() {
            Ok(flag) => {
                if flag == 0 {
                    Ok(None)
                } else if flag == 1 {
                    match self.read_hash() {
                        Ok(h) => Ok(Some(h)),
                        Err(e) => Err(e),
                    }
                } else {
                    Err(decode_error("invalid optional flag"))
                }
            },
            Err(e) => Err(e),
        }
    }

    fn read_var_bytes(&mut self) -> (r: Result<Vec<u8>, ExecError>)
        requires
            old(self).wf(),
        ensures
            final(self).wf(),
            r is Ok <==> parse_var_bytes(old(self).rest()) is Some,
            r matches Ok(v) ==> parse_var_bytes(old(self).rest()) == Some(
                (v@, final(self).rest()),
            ),
            r matches Err(e) ==> e@ == ExecErrorView::SerializationError,
    {
        match self.read_u32() {
            Ok(len) => {
                match self.read_bytes(len as usize) {
                    Ok(bytes) => Ok(slice_to_vec(bytes)),
                    Err(e) => Err(e),
                }
            },
            Err(e) => Err(e),
        }
    }

    fn read_string(&mut self) -> (r: Result<String, ExecError>)
        requires
            old(self).wf(),
        ensures
            final(self).wf(),
            r is Ok <==> parse_string(old(self).rest()) is Some,
            r matches Ok(v) ==> parse_string(old(self).rest()) == Some((v@, final(self).rest())),
            r matches Err(e) ==> e@ == ExecErrorView::SerializationError,
    {
        match self.read_var_bytes() {
            Ok(bytes) => {
                match string_from_utf8(bytes) {
                    Some(s) => Ok(s),
                    None => Err(decode_error("invalid UTF-8")),
                }
            },
            Err(e) => Err(e),
        }
    }
}

// ── Writing ──

fn write_u8(buf: &mut Vec<u8>, v: u8)
    ensures
        final(buf)@ == old(buf)@ + ser_u8(v),
{
    buf.push(v);
    assert(buf@ =~= old(buf)@ + ser_u8(v));
}

fn write_u32(buf: &mut Vec<u8>, v: u32)
    ensures
        final(buf)@ == old(buf)@ + ser_u32(v),
{
    let bytes = u32_to_le_bytes(v);
    buf.extend_from_slice(bytes.as_slice());
}

fn write_u64(buf: &mut Vec<u8>, v: u64)
    ensures
        final(buf)@ == old(buf)@ + ser_u64(v),
{
    let bytes = u64_to_le_bytes(v);
    buf.extend_from_slice(bytes.as_slice());
}

fn write_bool(buf: &mut Vec<u8>, v: bool)
    ensures
        final(buf)@ == old(buf)@ + ser_bool(v),
{
    buf.push(if v { 1 } else { 0 });
    assert(buf@ =~= old(buf)@ + ser_bool(v));
}

fn write_hash(buf: &mut Vec<u8>, h: &types::Hash)
    ensures
        final(buf)@ == old(buf)@ + h@,
{
    buf.extend_from_slice(h.as_slice());
}

fn write_optional_hash(buf: &mut Vec<u8>, h: &Option<types::Hash>)
    ensures
        final(buf)@ == old(buf)@ + ser_opt_hash(opt_hash_view(*h)),
{
    match h {
        None => {
            buf.push(0);
            assert(buf@ =~= old(buf)@ + ser_opt_hash(None));
        },
        Some(hash) => {
            buf.push(1);
            buf.extend_from_slice(hash.as_slice());
            assert(buf@ =~= old(buf)@ + ser_opt_hash(Some(hash@)));
        },
    }
}

fn write_var_bytes(buf: &mut Vec<u8>, data: &[u8])
    ensures
        final(buf)@ == old(buf)@ + ser_var_bytes(data@),
{
    write_u32(buf, data.len() as u32);
    buf.extend_from_slice(data);
    assert(buf@ =~= old(buf)@ + ser_var_bytes(data@));
}

fn write_string(buf: &mut Vec<u8>, s: &str)
    ensures
        final(buf)@ == old(buf)@ + ser_string(s@),
{
    write_var_bytes(buf, s.as_bytes());
}

// ── Composite values ──

/// Encoding of a byte string, as a function value.
pub open spec fn bytes_writer() -> spec_fn(Seq<u8>) -> Seq<u8> {
    |b: Seq<u8>| ser_var_bytes(b)
}

/// Reading of a byte string, as a function value.
pub open spec fn bytes_reader() -> spec_fn(Seq<u8>) -> Option<(Seq<u8>, Seq<u8>)> {
    |s: Seq<u8>| parse_var_bytes(s)
}

/// Encoding of a receipt.
pub open spec fn ser_receipt(r: ReceiptView) -> Seq<u8> {
    ser_u32(r.tx_index) + ser_bool(r.success) + ser_u64(r.gas_used) + ser_u32(r.result_code)
        + ser_var_bytes(r.return_data)
}

/// Reading of a receipt.
pub open spec fn parse_receipt(s: Seq<u8>) -> Option<(ReceiptView, Seq<u8>)> {
    match parse_u32(s) {
        None => None,
        Some((tx_index, s1)) => match parse_bool(s1) {
            None => None,
            Some((success, s2)) => match parse_u64(s2) {
                None => None,
                Some((gas_used, s3)) => match parse_u32(s3) {
                    None => None,
                    Some((result_code, s4)) => match parse_var_bytes(s4) {
                        None => None,
                        Some((return_data, s5)) => Some(
                            (
                                ReceiptView { tx_index, success, gas_used, result_code, return_data },
                                s5,
                            ),
                        ),
                    },
                },
            },
        },
    }
}

pub open spec fn receipt_writer() -> spec_fn(ReceiptView) -> Seq<u8> {
    |r: ReceiptView| ser_receipt(r)
}

pub open spec fn receipt_reader() -> spec_fn(Seq<u8>) -> Option<(ReceiptView, Seq<u8>)> {
    |s: Seq<u8>| parse_receipt(s)
}

/// Encoding of an event attribute.
pub open spec fn ser_attribute(a: EventAttributeView) -> Seq<u8> {
    ser_string(a.key) + ser_var_bytes(a.value)
}

/// Reading of an event attribute.
pub open spec fn parse_attribute(s: Seq<u8>) -> Option<(EventAttributeView, Seq<u8>)> {
    match parse_string(s) {
        None => None,
        Some((key, s1)) => match parse_var_bytes(s1) {
            None => None,
            Some((value, s2)) => Some((EventAttributeView { key, value }, s2)),
        },
    }
}

pub open spec fn attribute_writer() -> spec_fn(EventAttributeView) -> Seq<u8> {
    |a: EventAttributeView| ser_attribute(a)
}

pub open spec fn attribute_reader() -> spec_fn(Seq<u8>) -> Option<(EventAttributeView, Seq<u8>)> {
    |s: Seq<u8>| parse_attribute(s)
}

/// Encoding of an event.
pub open spec fn ser_event(e: EventView) -> Seq<u8> {
    ser_u32(e.tx_index) + ser_string(e.event_type) + ser_list(e.attributes, attribute_writer())
}

/// Reading of an event.
pub open spec fn parse_event(s: Seq<u8>) -> Option<(EventView, Seq<u8>)> {
    match parse_u32(s) {
        None => None,
        Some((tx_index, s1)) => match parse_string(s1) {
            None => None,
            Some((event_type, s2)) => match parse_list(s2, attribute_reader()) {
                None => None,
                Some((attributes, s3)) => Some((EventView { tx_index, event_type, attributes }, s3)),
            },
        },
    }
}

pub open spec fn event_writer() -> spec_fn(EventView) -> Seq<u8> {
    |e: EventView| ser_event(e)
}

pub open spec fn event_reader() -> spec_fn(Seq<u8>) -> Option<(EventView, Seq<u8>)> {
    |s: Seq<u8>| parse_event(s)
}

/// Encoding of a log line.
pub open spec fn ser_log(l: LogLineView) -> Seq<u8> {
    ser_u32(l.level) + ser_string(l.message)
}

/// Reading of a log line.
pub open spec fn parse_log(s: Seq<u8>) -> Option<(LogLineView, Seq<u8>)> {
    match parse_u32(s) {
        None => None,
        Some((level, s1)) => match parse_string(s1) {
            None => None,
            Some((message, s2)) => Some((LogLineView { level, message }, s2)),
        },
    }
}

pub open spec fn log_writer() -> spec_fn(LogLineView) -> Seq<u8> {
    |l: LogLineView| ser_log(l)
}

pub open spec fn log_reader() -> spec_fn(Seq<u8>) -> Option<(LogLineView, Seq<u8>)> {
    |s: Seq<u8>| parse_log(s)
}

/// Encoding of a request.
pub open spec fn ser_request(q: ExecutionRequestView) -> Seq<u8> {
    ser_u32(q.api_version) + ser_var_bytes(q.chain_id) + ser_u64(q.block_height) + ser_u64(
        q.block_time,
    ) + q.block_hash + q.prev_state_root + ser_list(q.transactions, bytes_writer()) + ser_u64(
        q.limits.gas_limit,
    ) + ser_u32(q.limits.max_events) + ser_u32(q.limits.max_write_bytes) + ser_opt_hash(
        q.execution_seed,
    )
}

/// Reading of the limits of a request and of what follows them.
pub open spec fn parse_request_tail(s: Seq<u8>) -> Option<
    ((ExecutionLimits, Option<Seq<u8>>), Seq<u8>),
> {
    match parse_u64(s) {
        None => None,
        Some((gas_limit, s1)) => match parse_u32(s1) {
            None => None,
            Some((max_events, s2)) => match parse_u32(s2) {
                None => None,
                Some((max_write_bytes, s3)) => match parse_opt_hash(s3) {
                    None => None,
                    Some((seed, s4)) => Some(
                        ((ExecutionLimits { gas_limit, max_events, max_write_bytes }, seed), s4),
                    ),
                },
            },
        },
    }
}

/// Reading of a request.
pub open spec fn parse_request(s: Seq<u8>) -> Option<(ExecutionRequestView, Seq<u8>)> {
    match parse_u32(s) {
        None => None,
        Some((api_version, s1)) => match parse_var_bytes(s1) {
            None => None,
            Some((chain_id, s2)) => match parse_u64(s2) {
                None => None,
                Some((block_height, s3)) => match parse_u64(s3) {
                    None => None,
                    Some((block_time, s4)) => match parse_hash(s4) {
                        None => None,
                        Some((block_hash, s5)) => match parse_hash(s5) {
                            None => None,
                            Some((prev_state_root, s6)) => match parse_list(s6, bytes_reader()) {
                                None => None,
                                Some((transactions, s7)) => match parse_request_tail(s7) {
                                    None => None,
                                    Some(((limits, execution_seed), s8)) => Some(
                                        (
                                            ExecutionRequestView {
                                                api_version,
                                                chain_id,
                                                block_height,
                                                block_time,
                                                block_hash,
                                                prev_state_root,
                                                transactions,
                                                limits,
                                                execution_seed,
                                            },
                                            s8,
                                        ),
                                    ),
                                },
                            },
                        },
                    },
                },
            },
        },
    }
}

/// Encoding of a response.
pub open spec fn ser_response(p: ExecutionResponseView) -> Seq<u8> {
    ser_u32(p.api_version) + ser_u8(p.status.spec_as_u8()) + p.new_state_root + ser_u64(p.gas_used)
        + ser_list(p.receipts, receipt_writer()) + ser_list(p.events, event_writer()) + ser_list(
        p.logs,
        log_writer(),
    )
}

/// Reading of a status byte; any byte above 3 is refused.
pub open spec fn parse_status(s: Seq<u8>) -> Option<(ExecutionStatus, Seq<u8>)> {
    match parse_u8(s) {
        None => None,
        Some((b, r)) => match ExecutionStatus::spec_from_u8(b) {
            None => None,
            Some(status) => Some((status, r)),
        },
    }
}

/// Reading of a response.
pub open spec fn parse_response(s: Seq<u8>) -> Option<(ExecutionResponseView, Seq<u8>)> {
    match parse_u32(s) {
        None => None,
        Some((api_version, s1)) => match parse_status(s1) {
            None => None,
            Some((status, s2)) => match parse_hash(s2) {
                None => None,
                Some((new_state_root, s3)) => match parse_u64(s3) {
                    None => None,
                    Some((gas_used, s4)) => match parse_list(s4, receipt_reader()) {
                        None => None,
                        Some((receipts, s5)) => match parse_list(s5, event_reader()) {
                            None => None,
                            Some((events, s6)) => match parse_list(s6, log_reader()) {
                                None => None,
                                Some((logs, s7)) => Some(
                                    (
                                        ExecutionResponseView {
                                            api_version,
                                            status,
                                            new_state_root,
                                            gas_used,
                                            receipts,
                                            events,
                                            logs,
                                        },
                                        s7,
                                    ),
                                ),
                            },
                        },
                    },
                },
            },
        },
    }
}

/// Encoding of an execution context.
pub open spec fn ser_context(c: ExecutionContextView) -> Seq<u8> {
    ser_var_bytes(c.chain_id) + ser_u64(c.block_height) + ser_u64(c.block_time) + c.block_hash
        + ser_u64(c.gas_limit) + ser_u32(c.max_events) + ser_u32(c.max_write_bytes) + ser_u32(
        c.api_version,
    ) + ser_opt_hash(c.execution_seed)
}

/// Reading of the numeric limits of a context and of what follows them.
pub open spec fn parse_context_tail(s: Seq<u8>) -> Option<
    ((u64, u32, u32, u32, Option<Seq<u8>>), Seq<u8>),
> {
    match parse_u64(s) {
        None => None,
        Some((gas_limit, s1)) => match parse_u32(s1) {
            None => None,
            Some((max_events, s2)) => match parse_u32(s2) {
                None => None,
                Some((max_write_bytes, s3)) => match parse_u32(s3) {
                    None => None,
                    Some((api_version, s4)) => match parse_opt_hash(s4) {
                        None => None,
                        Some((seed, s5)) => Some(
                            ((gas_limit, max_events, max_write_bytes, api_version, seed), s5),
                        ),
                    },
                },
            },
        },
    }
}

/// Reading of an execution context.
pub open spec fn parse_context(s: Seq<u8>) -> Option<(ExecutionContextView, Seq<u8>)> {
    match parse_var_bytes(s) {
        None => None,
        Some((chain_id, s1)) => match parse_u64(s1) {
            None => None,
            Some((block_height, s2)) => match parse_u64(s2) {
                None => None,
                Some((block_time, s3)) => match parse_hash(s3) {
                    None => None,
                    Some((block_hash, s4)) => match parse_context_tail(s4) {
                        None => None,
                        Some(((gas_limit, max_events, max_write_bytes, api_version, seed), s5)) => Some(
                            (
                                ExecutionContextView {
                                    chain_id,
                                    block_height,
                                    block_time,
                                    block_hash,
                                    gas_limit,
                                    max_events,
                                    max_write_bytes,
                                    api_version,
                                    execution_seed: seed,
                                },
                                s5,
                            ),
                        ),
                    },
                },
            },
        },
    }
}

// ── Which values the format can hold ──

/// Every length fits the `u32` prefix.
pub open spec fn receipt_encodable(r: ReceiptView) -> bool {
    r.return_data.len() <= u32::MAX
}

pub open spec fn attribute_encodable(a: EventAttributeView) -> bool {
    encode_utf8(a.key).len() <= u32::MAX && a.value.len() <= u32::MAX
}

pub open spec fn event_encodable(e: EventView) -> bool {
    &&& encode_utf8(e.event_type).len() <= u32::MAX
    &&& e.attributes.len() <= u32::MAX
    &&& forall|i: int| 0 <= i < e.attributes.len() ==> attribute_encodable(#[trigger] e.attributes[i])
}

pub open spec fn log_encodable(l: LogLineView) -> bool {
    encode_utf8(l.message).len() <= u32::MAX
}

/// Hashes have 32 bytes, and every length and count fits its `u32` prefix.
pub open spec fn request_encodable(q: ExecutionRequestView) -> bool {
    &&& q.chain_id.len() <= u32::MAX
    &&& q.block_hash.len() == 32
    &&& q.prev_state_root.len() == 32
    &&& q.transactions.len() <= u32::MAX
    &&& forall|i: int| 0 <= i < q.transactions.len() ==> (#[trigger] q.transactions[i]).len() <= u32::MAX
    &&& (q.execution_seed matches Some(x) ==> x.len() == 32)
}

pub open spec fn response_encodable(p: ExecutionResponseView) -> bool {
    &&& p.new_state_root.len() == 32
    &&& p.receipts.len() <= u32::MAX
    &&& p.events.len() <= u32::MAX
    &&& p.logs.len() <= u32::MAX
    &&& forall|i: int| 0 <= i < p.receipts.len() ==> receipt_encodable(#[trigger] p.receipts[i])
    &&& forall|i: int| 0 <= i < p.events.len() ==> event_encodable(#[trigger] p.events[i])
    &&& forall|i: int| 0 <= i < p.logs.len() ==> log_encodable(#[trigger] p.logs[i])
}

pub open spec fn context_encodable(c: ExecutionContextView) -> bool {
    &&& c.chain_id.len() <= u32::MAX
    &&& c.block_hash.len() == 32
    &&& (c.execution_seed matches Some(x) ==> x.len() == 32)
}

// ── Round trips of composite values ──

pub proof fn lemma_parse_ser_receipt(r: ReceiptView, rest: Seq<u8>)
    requires
        receipt_encodable(r),
    ensures
        parse_receipt(ser_receipt(r) + rest) == Some((r, rest)),
{
    let s4 = ser_var_bytes(r.return_data) + rest;
    let s3 = ser_u32(r.result_code) + s4;
    let s2 = ser_u64(r.gas_used) + s3;
    let s1 = ser_bool(r.success) + s2;
    assert(ser_receipt(r) + rest =~= ser_u32(r.tx_index) + s1);
    lemma_parse_ser_u32(r.tx_index, s1);
    lemma_parse_ser_bool(r.success, s2);
    lemma_parse_ser_u64(r.gas_used, s3);
    lemma_parse_ser_u32(r.result_code, s4);
    lemma_parse_ser_var_bytes(r.return_data, rest);
}

pub proof fn lemma_parse_ser_attribute(a: EventAttributeView, rest: Seq<u8>)
    requires
        attribute_encodable(a),
    ensures
        parse_attribute(ser_attribute(a) + rest) == Some((a, rest)),
{
    let s1 = ser_var_bytes(a.value) + rest;
    assert(ser_attribute(a) + rest =~= ser_string(a.key) + s1);
    lemma_parse_ser_string(a.key, s1);
    lemma_parse_ser_var_bytes(a.value, rest);
}

pub proof fn lemma_parse_ser_event(e: EventView, rest: Seq<u8>)
    requires
        event_encodable(e),
    ensures
        parse_event(ser_event(e) + rest) == Some((e, rest)),
{
    let s2 = ser_list(e.attributes, attribute_writer()) + rest;
    let s1 = ser_string(e.event_type) + s2;
    assert(ser_event(e) + rest =~= ser_u32(e.tx_index) + s1);
    lemma_parse_ser_u32(e.tx_index, s1);
    lemma_parse_ser_string(e.event_type, s2);
    assert forall|i: int, r: Seq<u8>| 0 <= i < e.attributes.len() implies #[trigger] attribute_reader()(
        attribute_writer()(e.attributes[i]) + r,
    ) == Some((e.attributes[i], r)) by {
        lemma_parse_ser_attribute(e.attributes[i], r);
    }
    lemma_parse_ser_list(e.attributes, attribute_writer(), attribute_reader(), rest);
}

pub proof fn lemma_parse_ser_log(l: LogLineView, rest: Seq<u8>)
    requires
        log_encodable(l),
    ensures
        parse_log(ser_log(l) + rest) == Some((l, rest)),
{
    let s1 = ser_string(l.message) + rest;
    assert(ser_log(l) + rest =~= ser_u32(l.level) + s1);
    lemma_parse_ser_u32(l.level, s1);
    lemma_parse_ser_string(l.message, rest);
}

/// A request reads back from its encoding, whatever bytes follow.
pub proof fn lemma_parse_ser_request(q: ExecutionRequestView, rest: Seq<u8>)
    requires
        request_encodable(q),
    ensures
        parse_request(ser_request(q) + rest) == Some((q, rest)),
{
    let s10 = ser_opt_hash(q.execution_seed) + rest;
    let s9 = ser_u32(q.limits.max_write_bytes) + s10;
    let s8 = ser_u32(q.limits.max_events) + s9;
    let s7 = ser_u64(q.limits.gas_limit) + s8;
    let s6 = ser_list(q.transactions, bytes_writer()) + s7;
    let s5 = q.prev_state_root + s6;
    let s4 = q.block_hash + s5;
    let s3 = ser_u64(q.block_time) + s4;
    let s2 = ser_u64(q.block_height) + s3;
    let s1 = ser_var_bytes(q.chain_id) + s2;
    assert(ser_request(q) + rest =~= ser_u32(q.api_version) + s1);
    lemma_parse_ser_u32(q.api_version, s1);
    lemma_parse_ser_var_bytes(q.chain_id, s2);
    lemma_parse_ser_u64(q.block_height, s3);
    lemma_parse_ser_u64(q.block_time, s4);
    lemma_parse_ser_hash(q.block_hash, s5);
    lemma_parse_ser_hash(q.prev_state_root, s6);
    assert forall|i: int, r: Seq<u8>| 0 <= i < q.transactions.len() implies #[trigger] bytes_reader()(
        bytes_writer()(q.transactions[i]) + r,
    ) == Some((q.transactions[i], r)) by {
        lemma_parse_ser_var_bytes(q.transactions[i], r);
    }
    lemma_parse_ser_list(q.transactions, bytes_writer(), bytes_reader(), s7);
    lemma_parse_ser_u64(q.limits.gas_limit, s8);
    lemma_parse_ser_u32(q.limits.max_events, s9);
    lemma_parse_ser_u32(q.limits.max_write_bytes, s10);
    lemma_parse_ser_opt_hash(q.execution_seed, rest);
}

proof fn lemma_receipts_read_back(items: Seq<ReceiptView>)
    requires
        forall|i: int| 0 <= i < items.len() ==> receipt_encodable(#[trigger] items[i]),
    ensures
        forall|i: int, r: Seq<u8>|
            0 <= i < items.len() ==> #[trigger] receipt_reader()(receipt_writer()(items[i]) + r)
                == Some((items[i], r)),
{
    assert forall|i: int, r: Seq<u8>| 0 <= i < items.len() implies #[trigger] receipt_reader()(
        receipt_writer()(items[i]) + r,
    ) == Some((items[i], r)) by {
        lemma_parse_ser_receipt(items[i], r);
    }
}

proof fn lemma_events_read_back(items: Seq<EventView>)
    requires
        forall|i: int| 0 <= i < items.len() ==> event_encodable(#[trigger] items[i]),
    ensures
        forall|i: int, r: Seq<u8>|
            0 <= i < items.len() ==> #[trigger] event_reader()(event_writer()(items[i]) + r)
                == Some((items[i], r)),
{
    assert forall|i: int, r: Seq<u8>| 0 <= i < items.len() implies #[trigger] event_reader()(
        event_writer()(items[i]) + r,
    ) == Some((items[i], r)) by {
        lemma_parse_ser_event(items[i], r);
    }
}

proof fn lemma_logs_read_back(items: Seq<LogLineView>)
    requires
        forall|i: int| 0 <= i < items.len() ==> log_encodable(#[trigger] items[i]),
    ensures
        forall|i: int, r: Seq<u8>|
            0 <= i < items.len() ==> #[trigger] log_reader()(log_writer()(items[i]) + r) == Some(
                (items[i], r),
            ),
{
    assert forall|i: int, r: Seq<u8>| 0 <= i < items.len() implies #[trigger] log_reader()(
        log_writer()(items[i]) + r,
    ) == Some((items[i], r)) by {
        lemma_parse_ser_log(items[i], r);
    }
}

/// The three lists of a response read back from their encodings.
proof fn lemma_parse_ser_response_lists(p: ExecutionResponseView, rest: Seq<u8>)
    requires
        response_encodable(p),
    ensures
        parse_list(
            ser_list(p.receipts, receipt_writer()) + (ser_list(p.events, event_writer()) + (
            ser_list(p.logs, log_writer()) + rest)),
            receipt_reader(),
        ) == Some(
            (p.receipts, ser_list(p.events, event_writer()) + (ser_list(p.logs, log_writer()) + rest)),
        ),
        parse_list(
            ser_list(p.events, event_writer()) + (ser_list(p.logs, log_writer()) + rest),
            event_reader(),
        ) == Some((p.events, ser_list(p.logs, log_writer()) + rest)),
        parse_list(ser_list(p.logs, log_writer()) + rest, log_reader()) == Some((p.logs, rest)),
{
    let s6 = ser_list(p.logs, log_writer()) + rest;
    let s5 = ser_list(p.events, event_writer()) + s6;
    lemma_receipts_read_back(p.receipts);
    lemma_parse_ser_list(p.receipts, receipt_writer(), receipt_reader(), s5);
    lemma_events_read_back(p.events);
    lemma_parse_ser_list(p.events, event_writer(), event_reader(), s6);
    lemma_logs_read_back(p.logs);
    lemma_parse_ser_list(p.logs, log_writer(), log_reader(), rest);
}

/// A response reads back from its encoding, whatever bytes follow.
pub proof fn lemma_parse_ser_response(p: ExecutionResponseView, rest: Seq<u8>)
    requires
        response_encodable(p),
    ensures
        parse_response(ser_response(p) + rest) == Some((p, rest)),
{
    let s6 = ser_list(p.logs, log_writer()) + rest;
    let s5 = ser_list(p.events, event_writer()) + s6;
    let s4 = ser_list(p.receipts, receipt_writer()) + s5;
    let s3 = ser_u64(p.gas_used) + s4;
    let s2 = p.new_state_root + s3;
    let s1 = ser_u8(p.status.spec_as_u8()) + s2;
    assert(ser_response(p) + rest =~= ser_u32(p.api_version) + s1);
    lemma_parse_ser_u32(p.api_version, s1);
    lemma_parse_ser_u8(p.status.spec_as_u8(), s2);
    lemma_parse_ser_hash(p.new_state_root, s3);
    lemma_parse_ser_u64(p.gas_used, s4);
    lemma_parse_ser_response_lists(p, rest);
}

/// A context reads back from its encoding, whatever bytes follow.
pub proof fn lemma_parse_ser_context(c: ExecutionContextView, rest: Seq<u8>)
    requires
        context_encodable(c),
    ensures
        parse_context(ser_context(c) + rest) == Some((c, rest)),
{
    let s8 = ser_opt_hash(c.execution_seed) + rest;
    let s7 = ser_u32(c.api_version) + s8;
    let s6 = ser_u32(c.max_write_bytes) + s7;
    let s5 = ser_u32(c.max_events) + s6;
    let s4 = ser_u64(c.gas_limit) + s5;
    let s3 = c.block_hash + s4;
    let s2 = ser_u64(c.block_time) + s3;
    let s1 = ser_u64(c.block_height) + s2;
    assert(ser_context(c) + rest =~= ser_var_bytes(c.chain_id) + s1);
    lemma_parse_ser_var_bytes(c.chain_id, s1);
    lemma_parse_ser_u64(c.block_height, s2);
    lemma_parse_ser_u64(c.block_time, s3);
    lemma_parse_ser_hash(c.block_hash, s4);
    lemma_parse_ser_u64(c.gas_limit, s5);
    lemma_parse_ser_u32(c.max_events, s6);
    lemma_parse_ser_u32(c.max_write_bytes, s7);
    lemma_parse_ser_u32(c.api_version, s8);
    lemma_parse_ser_opt_hash(c.execution_seed, rest);
}

/// Decoding the encoding of a request gives the request back, and encoding
/// that again gives the same bytes.
pub proof fn lemma_request_round_trip(q: ExecutionRequestView)
    requires
        request_encodable(q),
    ensures
        parse_request(ser_request(q)) == Some((q, Seq::<u8>::empty())),
        ser_request(parse_request(ser_request(q))->Some_0.0) == ser_request(q),
{
    lemma_parse_ser_request(q, Seq::empty());
    assert(ser_request(q) + Seq::<u8>::empty() =~= ser_request(q));
}

/// Decoding the encoding of a response gives the response back, and
/// encoding that again gives the same bytes.
pub proof fn lemma_response_round_trip(p: ExecutionResponseView)
    requires
        response_encodable(p),
    ensures
        parse_response(ser_response(p)) == Some((p, Seq::<u8>::empty())),
        ser_response(parse_response(ser_response(p))->Some_0.0) == ser_response(p),
{
    lemma_parse_ser_response(p, Seq::empty());
    assert(ser_response(p) + Seq::<u8>::empty() =~= ser_response(p));
}

/// Decoding the encoding of a context gives the context back, and encoding
/// that again gives the same bytes.
pub proof fn lemma_context_round_trip(c: ExecutionContextView)
    requires
        context_encodable(c),
    ensures
        parse_context(ser_context(c)) == Some((c, Seq::<u8>::empty())),
        ser_context(parse_context(ser_context(c))->Some_0.0) == ser_context(c),
{
    lemma_parse_ser_context(c, Seq::empty());
    assert(ser_context(c) + Seq::<u8>::empty() =~= ser_context(c));
}

/// Decoding the encoding of an event gives the event back, and encoding
/// that again gives the same bytes.
pub proof fn lemma_event_round_trip(e: EventView)
    requires
        event_encodable(e),
    ensures
        parse_event(ser_event(e)) == Some((e, Seq::<u8>::empty())),
        ser_event(parse_event(ser_event(e))->Some_0.0) == ser_event(e),
{
    lemma_parse_ser_event(e, Seq::empty());
    assert(ser_event(e) + Seq::<u8>::empty() =~= ser_event(e));
}

// ── The other direction: what was read is what was written ──

pub proof fn lemma_ser_parse_u8(s: Seq<u8>)
    requires
        parse_u8(s) is Some,
    ensures
        s == ser_u8(parse_u8(s)->Some_0.0) + parse_u8(s)->Some_0.1,
{
    assert(s =~= ser_u8(s[0]) + s.skip(1));
}

pub proof fn lemma_ser_parse_u32(s: Seq<u8>)
    requires
        parse_u32(s) is Some,
    ensures
        s == ser_u32(parse_u32(s)->Some_0.0) + parse_u32(s)->Some_0.1,
{
    lemma_auto_spec_u32_to_from_le_bytes();
    assert(s =~= s.take(4) + s.skip(4));
}

pub proof fn lemma_ser_parse_u64(s: Seq<u8>)
    requires
        parse_u64(s) is Some,
    ensures
        s == ser_u64(parse_u64(s)->Some_0.0) + parse_u64(s)->Some_0.1,
{
    lemma_auto_spec_u64_to_from_le_bytes();
    assert(s =~= s.take(8) + s.skip(8));
}

pub proof fn lemma_ser_parse_bool(s: Seq<u8>)
    requires
        parse_bool(s) is Some,
    ensures
        s == ser_bool(parse_bool(s)->Some_0.0) + parse_bool(s)->Some_0.1,
{
    assert(s =~= seq![s[0]] + s.skip(1));
}

pub proof fn lemma_ser_parse_hash(s: Seq<u8>)
    requires
        parse_hash(s) is Some,
    ensures
        s == parse_hash(s)->Some_0.0 + parse_hash(s)->Some_0.1,
        parse_hash(s)->Some_0.0.len() == 32,
{
    assert(s =~= s.take(32) + s.skip(32));
}

pub proof fn lemma_ser_parse_opt_hash(s: Seq<u8>)
    requires
        parse_opt_hash(s) is Some,
    ensures
        s == ser_opt_hash(parse_opt_hash(s)->Some_0.0) + parse_opt_hash(s)->Some_0.1,
        parse_opt_hash(s)->Some_0.0 matches Some(h) ==> h.len() == 32,
{
    let r = s.skip(1);
    if s[0] == 1 {
        lemma_ser_parse_hash(r);
        let (h, r2) = parse_hash(r)->Some_0;
        assert(s =~= (seq![1u8] + h) + r2);
    } else {
        assert(s =~= seq![0u8] + r);
    }
}

pub proof fn lemma_ser_parse_var_bytes(s: Seq<u8>)
    requires
        parse_var_bytes(s) is Some,
    ensures
        s == ser_var_bytes(parse_var_bytes(s)->Some_0.0) + parse_var_bytes(s)->Some_0.1,
        parse_var_bytes(s)->Some_0.0.len() <= u32::MAX,
{
    lemma_ser_parse_u32(s);
    let (n, r) = parse_u32(s)->Some_0;
    let b = r.take(n as int);
    assert(r =~= b + r.skip(n as int));
    assert(b.len() as u32 == n);
    assert(s =~= (ser_u32(n) + b) + r.skip(n as int));
}

pub proof fn lemma_ser_parse_string(s: Seq<u8>)
    requires
        parse_string(s) is Some,
    ensures
        s == ser_string(parse_string(s)->Some_0.0) + parse_string(s)->Some_0.1,
        encode_utf8(parse_string(s)->Some_0.0).len() <= u32::MAX,
{
    lemma_ser_parse_var_bytes(s);
    let (b, r) = parse_var_bytes(s)->Some_0;
    vstd::utf8::decode_utf8_encode_utf8(b);
}

/// Items that were read are the items whose encodings stand in the bytes.
pub proof fn lemma_ser_parse_items<T>(
    s: Seq<u8>,
    n: nat,
    f: spec_fn(T) -> Seq<u8>,
    p: spec_fn(Seq<u8>) -> Option<(T, Seq<u8>)>,
)
    requires
        parse_items(s, n, p) is Some,
        forall|t: Seq<u8>| #[trigger] p(t) is Some ==> t == f(p(t)->Some_0.0) + p(t)->Some_0.1,
    ensures
        s == ser_items(parse_items(s, n, p)->Some_0.0, f) + parse_items(s, n, p)->Some_0.1,
        parse_items(s, n, p)->Some_0.0.len() == n,
    decreases n,
{
    if n == 0 {
        assert(s =~= ser_items(Seq::<T>::empty(), f) + s);
    } else {
        let (x, r) = p(s)->Some_0;
        assert(p(s) is Some);
        lemma_ser_parse_items(r, (n - 1) as nat, f, p);
        let (xs, r2) = parse_items(r, (n - 1) as nat, p)->Some_0;
        let all = seq![x] + xs;
        assert(all.skip(1) =~= xs);
        assert(s =~= (f(x) + ser_items(xs, f)) + r2);
    }
}

pub proof fn lemma_ser_parse_list<T>(
    s: Seq<u8>,
    f: spec_fn(T) -> Seq<u8>,
    p: spec_fn(Seq<u8>) -> Option<(T, Seq<u8>)>,
)
    requires
        parse_list(s, p) is Some,
        forall|t: Seq<u8>| #[trigger] p(t) is Some ==> t == f(p(t)->Some_0.0) + p(t)->Some_0.1,
    ensures
        s == ser_list(parse_list(s, p)->Some_0.0, f) + parse_list(s, p)->Some_0.1,
        parse_list(s, p)->Some_0.0.len() <= u32::MAX,
{
    lemma_ser_parse_u32(s);
    let (n, r) = parse_u32(s)->Some_0;
    lemma_ser_parse_items(r, n as nat, f, p);
    let (xs, r2) = parse_items(r, n as nat, p)->Some_0;
    assert(xs.len() as u32 == n);
    assert(s =~= (ser_u32(n) + ser_items(xs, f)) + r2);
}

pub proof fn lemma_ser_parse_receipt(s: Seq<u8>)
    requires
        parse_receipt(s) is Some,
    ensures
        s == ser_receipt(parse_receipt(s)->Some_0.0) + parse_receipt(s)->Some_0.1,
{
    lemma_ser_parse_u32(s);
    let s1 = parse_u32(s)->Some_0.1;
    lemma_ser_parse_bool(s1);
    let s2 = parse_bool(s1)->Some_0.1;
    lemma_ser_parse_u64(s2);
    let s3 = parse_u64(s2)->Some_0.1;
    lemma_ser_parse_u32(s3);
    let s4 = parse_u32(s3)->Some_0.1;
    lemma_ser_parse_var_bytes(s4);
    let (r, rest) = parse_receipt(s)->Some_0;
    assert(s =~= ser_receipt(r) + rest);
}

pub proof fn lemma_ser_parse_attribute(s: Seq<u8>)
    requires
        parse_attribute(s) is Some,
    ensures
        s == ser_attribute(parse_attribute(s)->Some_0.0) + parse_attribute(s)->Some_0.1,
{
    lemma_ser_parse_string(s);
    let s1 = parse_string(s)->Some_0.1;
    lemma_ser_parse_var_bytes(s1);
    let (a, rest) = parse_attribute(s)->Some_0;
    assert(s =~= ser_attribute(a) + rest);
}

proof fn lemma_attributes_written()
    ensures
        forall|t: Seq<u8>| #[trigger]
            attribute_reader()(t) is Some ==> t == attribute_writer()(
                attribute_reader()(t)->Some_0.0,
            ) + attribute_reader()(t)->Some_0.1,
{
    assert forall|t: Seq<u8>| #[trigger] attribute_reader()(t) is Some implies t
        == attribute_writer()(attribute_reader()(t)->Some_0.0) + attribute_reader()(t)->Some_0.1 by {
        lemma_ser_parse_attribute(t);
    }
}

pub proof fn lemma_ser_parse_event(s: Seq<u8>)
    requires
        parse_event(s) is Some,
    ensures
        s == ser_event(parse_event(s)->Some_0.0) + parse_event(s)->Some_0.1,
{
    lemma_ser_parse_u32(s);
    let s1 = parse_u32(s)->Some_0.1;
    lemma_ser_parse_string(s1);
    let s2 = parse_string(s1)->Some_0.1;
    lemma_attributes_written();
    lemma_ser_parse_list(s2, attribute_writer(), attribute_reader());
    let (e, rest) = parse_event(s)->Some_0;
    assert(s =~= ser_event(e) + rest);
}

pub proof fn lemma_ser_parse_log(s: Seq<u8>)
    requires
        parse_log(s) is Some,
    ensures
        s == ser_log(parse_log(s)->Some_0.0) + parse_log(s)->Some_0.1,
{
    lemma_ser_parse_u32(s);
    let s1 = parse_u32(s)->Some_0.1;
    lemma_ser_parse_string(s1);
    let (l, rest) = parse_log(s)->Some_0;
    assert(s =~= ser_log(l) + rest);
}

proof fn lemma_byte_strings_written()
    ensures
        forall|t: Seq<u8>| #[trigger]
            bytes_reader()(t) is Some ==> t == bytes_writer()(bytes_reader()(t)->Some_0.0)
                + bytes_reader()(t)->Some_0.1,
{
    assert forall|t: Seq<u8>| #[trigger] bytes_reader()(t) is Some implies t == bytes_writer()(
        bytes_reader()(t)->Some_0.0,
    ) + bytes_reader()(t)->Some_0.1 by {
        lemma_ser_parse_var_bytes(t);
    }
}

proof fn lemma_receipts_written()
    ensures
        forall|t: Seq<u8>| #[trigger]
            receipt_reader()(t) is Some ==> t == receipt_writer()(receipt_reader()(t)->Some_0.0)
                + receipt_reader()(t)->Some_0.1,
{
    assert forall|t: Seq<u8>| #[trigger] receipt_reader()(t) is Some implies t == receipt_writer()(
        receipt_reader()(t)->Some_0.0,
    ) + receipt_reader()(t)->Some_0.1 by {
        lemma_ser_parse_receipt(t);
    }
}

proof fn lemma_events_written()
    ensures
        forall|t: Seq<u8>| #[trigger]
            event_reader()(t) is Some ==> t == event_writer()(event_reader()(t)->Some_0.0)
                + event_reader()(t)->Some_0.1,
{
    assert forall|t: Seq<u8>| #[trigger] event_reader()(t) is Some implies t == event_writer()(
        event_reader()(t)->Some_0.0,
    ) + event_reader()(t)->Some_0.1 by {
        lemma_ser_parse_event(t);
    }
}

proof fn lemma_logs_written()
    ensures
        forall|t: Seq<u8>| #[trigger]
            log_reader()(t) is Some ==> t == log_writer()(log_reader()(t)->Some_0.0) + log_reader()(
                t,
            )->Some_0.1,
{
    assert forall|t: Seq<u8>| #[trigger] log_reader()(t) is Some implies t == log_writer()(
        log_reader()(t)->Some_0.0,
    ) + log_reader()(t)->Some_0.1 by {
        lemma_ser_parse_log(t);
    }
}

/// What decodes as a request is the encoding of that request, followed by
/// the bytes that the decoder left. So encoding a decoded request gives the
/// bytes back, up to what follows the request.
pub proof fn lemma_ser_parse_request(s: Seq<u8>)
    requires
        parse_request(s) is Some,
    ensures
        s == ser_request(parse_request(s)->Some_0.0) + parse_request(s)->Some_0.1,
{
    let (q, rest) = parse_request(s)->Some_0;
    lemma_ser_parse_u32(s);
    let s1 = parse_u32(s)->Some_0.1;
    let pre1 = ser_u32(q.api_version);
    assert(s == pre1 + s1);
    lemma_ser_parse_var_bytes(s1);
    let s2 = parse_var_bytes(s1)->Some_0.1;
    let pre2 = pre1 + ser_var_bytes(q.chain_id);
    assert(s =~= pre2 + s2);
    lemma_ser_parse_u64(s2);
    let s3 = parse_u64(s2)->Some_0.1;
    let pre3 = pre2 + ser_u64(q.block_height);
    assert(s =~= pre3 + s3);
    lemma_ser_parse_u64(s3);
    let s4 = parse_u64(s3)->Some_0.1;
    let pre4 = pre3 + ser_u64(q.block_time);
    assert(s =~= pre4 + s4);
    lemma_ser_parse_hash(s4);
    let s5 = parse_hash(s4)->Some_0.1;
    let pre5 = pre4 + q.block_hash;
    assert(s =~= pre5 + s5);
    lemma_ser_parse_hash(s5);
    let s6 = parse_hash(s5)->Some_0.1;
    let pre6 = pre5 + q.prev_state_root;
    assert(s =~= pre6 + s6);
    lemma_byte_strings_written();
    lemma_ser_parse_list(s6, bytes_writer(), bytes_reader());
    let s7 = parse_list(s6, bytes_reader())->Some_0.1;
    let pre7 = pre6 + ser_list(q.transactions, bytes_writer());
    assert(s =~= pre7 + s7);
    lemma_ser_parse_u64(s7);
    let s8 = parse_u64(s7)->Some_0.1;
    let pre8 = pre7 + ser_u64(q.limits.gas_limit);
    assert(s =~= pre8 + s8);
    lemma_ser_parse_u32(s8);
    let s9 = parse_u32(s8)->Some_0.1;
    let pre9 = pre8 + ser_u32(q.limits.max_events);
    assert(s =~= pre9 + s9);
    lemma_ser_parse_u32(s9);
    let s10 = parse_u32(s9)->Some_0.1;
    let pre10 = pre9 + ser_u32(q.limits.max_write_bytes);
    assert(s =~= pre10 + s10);
    lemma_ser_parse_opt_hash(s10);
    let pre11 = pre10 + ser_opt_hash(q.execution_seed);
    assert(s =~= pre11 + rest);
    assert(pre11 == ser_request(q));
}

proof fn lemma_ser_parse_response_lists(s: Seq<u8>)
    requires
        parse_list(s, receipt_reader()) is Some,
        parse_list(parse_list(s, receipt_reader())->Some_0.1, event_reader()) is Some,
        parse_list(
            parse_list(parse_list(s, receipt_reader())->Some_0.1, event_reader())->Some_0.1,
            log_reader(),
        ) is Some,
    ensures
        ({
            let (receipts, s1) = parse_list(s, receipt_reader())->Some_0;
            let (events, s2) = parse_list(s1, event_reader())->Some_0;
            let (logs, rest) = parse_list(s2, log_reader())->Some_0;
            s == ser_list(receipts, receipt_writer()) + ser_list(events, event_writer())
                + ser_list(logs, log_writer()) + rest
        }),
{
    let (receipts, s1) = parse_list(s, receipt_reader())->Some_0;
    let (events, s2) = parse_list(s1, event_reader())->Some_0;
    let (logs, rest) = parse_list(s2, log_reader())->Some_0;
    lemma_receipts_written();
    lemma_ser_parse_list(s, receipt_writer(), receipt_reader());
    lemma_events_written();
    lemma_ser_parse_list(s1, event_writer(), event_reader());
    lemma_logs_written();
    lemma_ser_parse_list(s2, log_writer(), log_reader());
    let a = ser_list(receipts, receipt_writer());
    let b = ser_list(events, event_writer());
    let c = ser_list(logs, log_writer());
    assert(s == a + s1);
    assert(s1 == b + s2);
    assert(s2 == c + rest);
    assert(a + (b + (c + rest)) =~= a + b + c + rest);
}

/// What decodes as a response is the encoding of that response, followed
/// by the bytes that the decoder left.
pub proof fn lemma_ser_parse_response(s: Seq<u8>)
    requires
        parse_response(s) is Some,
    ensures
        s == ser_response(parse_response(s)->Some_0.0) + parse_response(s)->Some_0.1,
{
    let (p, rest) = parse_response(s)->Some_0;
    lemma_ser_parse_u32(s);
    let s1 = parse_u32(s)->Some_0.1;
    let pre1 = ser_u32(p.api_version);
    assert(s == pre1 + s1);
    lemma_ser_parse_u8(s1);
    let s2 = parse_u8(s1)->Some_0.1;
    let pre2 = pre1 + ser_u8(p.status.spec_as_u8());
    assert(s =~= pre2 + s2);
    lemma_ser_parse_hash(s2);
    let s3 = parse_hash(s2)->Some_0.1;
    let pre3 = pre2 + p.new_state_root;
    assert(s =~= pre3 + s3);
    lemma_ser_parse_u64(s3);
    let s4 = parse_u64(s3)->Some_0.1;
    let pre4 = pre3 + ser_u64(p.gas_used);
    assert(s =~= pre4 + s4);
    lemma_ser_parse_response_lists(s4);
    let lists = ser_list(p.receipts, receipt_writer()) + ser_list(p.events, event_writer())
        + ser_list(p.logs, log_writer());
    assert(s4 == lists + rest);
    assert(s =~= (pre4 + lists) + rest);
    assert(pre4 + lists =~= ser_response(p));
}

proof fn lemma_ser_parse_context_tail(s: Seq<u8>)
    requires
        parse_context_tail(s) is Some,
    ensures
        ({
            let ((gas_limit, max_events, max_write_bytes, api_version, seed), rest) =
                parse_context_tail(s)->Some_0;
            s == ser_u64(gas_limit) + ser_u32(max_events) + ser_u32(max_write_bytes) + ser_u32(
                api_version,
            ) + ser_opt_hash(seed) + rest
        }),
{
    let ((gas_limit, max_events, max_write_bytes, api_version, seed), rest) = parse_context_tail(
        s,
    )->Some_0;
    lemma_ser_parse_u64(s);
    let s1 = parse_u64(s)->Some_0.1;
    let pre1 = ser_u64(gas_limit);
    assert(s == pre1 + s1);
    lemma_ser_parse_u32(s1);
    let s2 = parse_u32(s1)->Some_0.1;
    let pre2 = pre1 + ser_u32(max_events);
    assert(s =~= pre2 + s2);
    lemma_ser_parse_u32(s2);
    let s3 = parse_u32(s2)->Some_0.1;
    let pre3 = pre2 + ser_u32(max_write_bytes);
    assert(s =~= pre3 + s3);
    lemma_ser_parse_u32(s3);
    let s4 = parse_u32(s3)->Some_0.1;
    let pre4 = pre3 + ser_u32(api_version);
    assert(s =~= pre4 + s4);
    lemma_ser_parse_opt_hash(s4);
    assert(s =~= (pre4 + ser_opt_hash(seed)) + rest);
}

/// What decodes as a context is the encoding of that context, followed by
/// the bytes that the decoder left.
pub proof fn lemma_ser_parse_context(s: Seq<u8>)
    requires
        parse_context(s) is Some,
    ensures
        s == ser_context(parse_context(s)->Some_0.0) + parse_context(s)->Some_0.1,
{
    let (c, rest) = parse_context(s)->Some_0;
    lemma_ser_parse_var_bytes(s);
    let s1 = parse_var_bytes(s)->Some_0.1;
    let pre1 = ser_var_bytes(c.chain_id);
    assert(s == pre1 + s1);
    lemma_ser_parse_u64(s1);
    let s2 = parse_u64(s1)->Some_0.1;
    let pre2 = pre1 + ser_u64(c.block_height);
    assert(s =~= pre2 + s2);
    lemma_ser_parse_u64(s2);
    let s3 = parse_u64(s2)->Some_0.1;
    let pre3 = pre2 + ser_u64(c.block_time);
    assert(s =~= pre3 + s3);
    lemma_ser_parse_hash(s3);
    let s4 = parse_hash(s3)->Some_0.1;
    let pre4 = pre3 + c.block_hash;
    assert(s =~= pre4 + s4);
    lemma_ser_parse_context_tail(s4);
    let tail = ser_u64(c.gas_limit) + ser_u32(c.max_events) + ser_u32(c.max_write_bytes)
        + ser_u32(c.api_version) + ser_opt_hash(c.execution_seed);
    assert(s4 == tail + rest);
    assert(s =~= (pre4 + tail) + rest);
    assert(pre4 + tail =~= ser_context(c));
}

// ── Encoders and decoders of composite values ──

fn encode_receipt(buf: &mut Vec<u8>, receipt: &Receipt)
    ensures
        final(buf)@ == old(buf)@ + ser_receipt(receipt@),
{
    write_u32(buf, receipt.tx_index);
    write_bool(buf, receipt.success);
    write_u64(buf, receipt.gas_used);
    write_u32(buf, receipt.result_code);
    write_var_bytes(buf, receipt.return_data.as_slice());
    assert(buf@ =~= old(buf)@ + ser_receipt(receipt@));
}

fn decode_receipt(r: &mut Reader<'_>) -> (res: Result<Receipt, ExecError>)
    requires
        old(r).wf(),
    ensures
        final(r).wf(),
        res is Ok <==> parse_receipt(old(r).rest()) is Some,
        res matches Ok(v) ==> parse_receipt(old(r).rest()) == Some((v@, final(r).rest())),
        res matches Err(e) ==> e@ == ExecErrorView::SerializationError,
{
    let tx_index = match r.read_u32() {
        Ok(v) => v,
        Err(e) => {
            return Err(e);
        },
    };
    let success = match r.read_bool() {
        Ok(v) => v,
        Err(e) => {
            return Err(e);
        },
    };
    let gas_used = match r.read_u64() {
        Ok(v) => v,
        Err(e) => {
            return Err(e);
        },
    };
    let result_code = match r.read_u32() {
        Ok(v) => v,
        Err(e) => {
            return Err(e);
        },
    };
    let return_data = match r.read_var_bytes() {
        Ok(v) => v,
        Err(e) => {
            return Err(e);
        },
    };
    Ok(Receipt { tx_index, success, gas_used, result_code, return_data })
}

fn encode_attribute(buf: &mut Vec<u8>, attr: &EventAttribute)
    ensures
        final(buf)@ == old(buf)@ + ser_attribute(attr@),
{
    write_string(buf, attr.key.as_str());
    write_var_bytes(buf, attr.value.as_slice());
    assert(buf@ =~= old(buf)@ + ser_attribute(attr@));
}

fn decode_attribute(r: &mut Reader<'_>) -> (res: Result<EventAttribute, ExecError>)
    requires
        old(r).wf(),
    ensures
        final(r).wf(),
        res is Ok <==> parse_attribute(old(r).rest()) is Some,
        res matches Ok(v) ==> parse_attribute(old(r).rest()) == Some((v@, final(r).rest())),
        res matches Err(e) ==> e@ == ExecErrorView::SerializationError,
{
    let key = match r.read_string() {
        Ok(v) => v,
        Err(e) => {
            return Err(e);
        },
    };
    let value = match r.read_var_bytes() {
        Ok(v) => v,
        Err(e) => {
            return Err(e);
        },
    };
    Ok(EventAttribute { key, value })
}

/// Writes the attributes of an event.
fn encode_attributes(buf: &mut Vec<u8>, items: &Vec<EventAttribute>)
    ensures
        final(buf)@ == old(buf)@ + ser_list(items.deep_view(), attribute_writer()),
{
    write_u32(buf, items.len() as u32);
    let ghost views = items.deep_view();
    let ghost head = buf@;
    assert(views.skip(0) =~= views);
    assert(buf@ + ser_items(views.skip(0), attribute_writer()) == head + ser_items(views, attribute_writer()));
    let mut i: usize = 0;
    while i < items.len()
        invariant
            i <= items@.len(),
            views == items.deep_view(),
            views.len() == items@.len(),
            buf@ + ser_items(views.skip(i as int), attribute_writer()) == head + ser_items(
                views,
                attribute_writer(),
            ),
        decreases items@.len() - i,
    {
        let ghost before = buf@;
        proof {
            lemma_ser_items_step(views, attribute_writer(), i as int);
        }
        encode_attribute(buf, &items[i]);
        proof {
            let item = attribute_writer()(views[i as int]);
            let tail = ser_items(views.skip(i + 1), attribute_writer());
            assert(buf@ == before + item);
            assert((before + item) + tail =~= before + (item + tail));
        }
        i += 1;
    }
    proof {
        assert(ser_items(views.skip(items@.len() as int), attribute_writer()) =~= Seq::<u8>::empty());
        assert(buf@ =~= head + ser_items(views, attribute_writer()));
        assert(buf@ =~= old(buf)@ + ser_list(views, attribute_writer()));
    }
}

/// Reads the attributes of an event.
fn decode_attributes(r: &mut Reader<'_>) -> (res: Result<Vec<EventAttribute>, ExecError>)
    requires
        old(r).wf(),
    ensures
        final(r).wf(),
        res is Ok <==> parse_list(old(r).rest(), attribute_reader()) is Some,
        res matches Ok(items) ==> parse_list(old(r).rest(), attribute_reader()) == Some(
            (items.deep_view(), final(r).rest()),
        ),
        res matches Err(e) ==> e@ == ExecErrorView::SerializationError,
{
    let count = match r.read_u32() {
        Ok(v) => v,
        Err(e) => {
            return Err(e);
        },
    };
    let ghost start = r.rest();
    let mut items: Vec<EventAttribute> = Vec::new();
    assert(items.deep_view() =~= Seq::empty());
    let mut i: u32 = 0;
    while i < count
        invariant
            r.wf(),
            i <= count,
            parse_u32(old(r).rest()) == Some((count, start)),
            parse_items(start, count as nat, attribute_reader()) == continue_items(
                items.deep_view(),
                r.rest(),
                (count - i) as nat,
                attribute_reader(),
            ),
        decreases count - i,
    {
        proof {
            lemma_continue_items(items.deep_view(), r.rest(), (count - i) as nat, attribute_reader());
        }
        let ghost before = items.deep_view();
        let item = match decode_attribute(r) {
            Ok(v) => v,
            Err(e) => {
                return Err(e);
            },
        };
        items.push(item);
        assert(items.deep_view() =~= before.push(item@));
        i += 1;
    }
    proof {
        assert(items.deep_view() + Seq::empty() =~= items.deep_view());
    }
    Ok(items)
}

fn encode_event(buf: &mut Vec<u8>, event: &Event)
    ensures
        final(buf)@ == old(buf)@ + ser_event(event@),
{
    write_u32(buf, event.tx_index);
    write_string(buf, event.event_type.as_str());
    encode_attributes(buf, &event.attributes);
    assert(buf@ =~= old(buf)@ + ser_event(event@));
}

fn decode_event(r: &mut Reader<'_>) -> (res: Result<Event, ExecError>)
    requires
        old(r).wf(),
    ensures
        final(r).wf(),
        res is Ok <==> parse_event(old(r).rest()) is Some,
        res matches Ok(v) ==> parse_event(old(r).rest()) == Some((v@, final(r).rest())),
        res matches Err(e) ==> e@ == ExecErrorView::SerializationError,
{
    let tx_index = match r.read_u32() {
        Ok(v) => v,
        Err(e) => {
            return Err(e);
        },
    };
    let event_type = match r.read_string() {
        Ok(v) => v,
        Err(e) => {
            return Err(e);
        },
    };
    let attributes = match decode_attributes(r) {
        Ok(v) => v,
        Err(e) => {
            return Err(e);
        },
    };
    Ok(Event { tx_index, event_type, attributes })
}

fn encode_log(buf: &mut Vec<u8>, log: &LogLine)
    ensures
        final(buf)@ == old(buf)@ + ser_log(log@),
{
    write_u32(buf, log.level);
    write_string(buf, log.message.as_str());
    assert(buf@ =~= old(buf)@ + ser_log(log@));
}

fn decode_log(r: &mut Reader<'_>) -> (res: Result<LogLine, ExecError>)
    requires
        old(r).wf(),
    ensures
        final(r).wf(),
        res is Ok <==> parse_log(old(r).rest()) is Some,
        res matches Ok(v) ==> parse_log(old(r).rest()) == Some((v@, final(r).rest())),
        res matches Err(e) ==> e@ == ExecErrorView::SerializationError,
{
    let level = match r.read_u32() {
        Ok(v) => v,
        Err(e) => {
            return Err(e);
        },
    };
    let message = match r.read_string() {
        Ok(v) => v,
        Err(e) => {
            return Err(e);
        },
    };
    Ok(LogLine { level, message })
}

/// Writes the raw transactions of a request.
fn encode_transactions(buf: &mut Vec<u8>, items: &Vec<Vec<u8>>)
    ensures
        final(buf)@ == old(buf)@ + ser_list(byte_strings(items@), bytes_writer()),
{
    write_u32(buf, items.len() as u32);
    let ghost views = byte_strings(items@);
    let ghost head = buf@;
    assert(views.skip(0) =~= views);
    assert(buf@ + ser_items(views.skip(0), bytes_writer()) == head + ser_items(views, bytes_writer()));
    let mut i: usize = 0;
    while i < items.len()
        invariant
            i <= items@.len(),
            views == byte_strings(items@),
            views.len() == items@.len(),
            buf@ + ser_items(views.skip(i as int), bytes_writer()) == head + ser_items(
                views,
                bytes_writer(),
            ),
        decreases items@.len() - i,
    {
        let ghost before = buf@;
        proof {
            lemma_ser_items_step(views, bytes_writer(), i as int);
        }
        write_var_bytes(buf, items[i].as_slice());
        proof {
            let item = bytes_writer()(views[i as int]);
            let tail = ser_items(views.skip(i + 1), bytes_writer());
            assert(buf@ == before + item);
            assert((before + item) + tail =~= before + (item + tail));
        }
        i += 1;
    }
    proof {
        assert(ser_items(views.skip(items@.len() as int), bytes_writer()) =~= Seq::<u8>::empty());
        assert(buf@ =~= head + ser_items(views, bytes_writer()));
        assert(buf@ =~= old(buf)@ + ser_list(views, bytes_writer()));
    }
}

/// Reads the raw transactions of a request.
fn decode_transactions(r: &mut Reader<'_>) -> (res: Result<Vec<Vec<u8>>, ExecError>)
    requires
        old(r).wf(),
    ensures
        final(r).wf(),
        res is Ok <==> parse_list(old(r).rest(), bytes_reader()) is Some,
        res matches Ok(items) ==> parse_list(old(r).rest(), bytes_reader()) == Some(
            (byte_strings(items@), final(r).rest()),
        ),
        res matches Err(e) ==> e@ == ExecErrorView::SerializationError,
{
    let count = match r.read_u32() {
        Ok(v) => v,
        Err(e) => {
            return Err(e);
        },
    };
    let ghost start = r.rest();
    let mut items: Vec<Vec<u8>> = Vec::new();
    assert(byte_strings(items@) =~= Seq::empty());
    let mut i: u32 = 0;
    while i < count
        invariant
            r.wf(),
            i <= count,
            parse_u32(old(r).rest()) == Some((count, start)),
            parse_items(start, count as nat, bytes_reader()) == continue_items(
                byte_strings(items@),
                r.rest(),
                (count - i) as nat,
                bytes_reader(),
            ),
        decreases count - i,
    {
        proof {
            lemma_continue_items(byte_strings(items@), r.rest(), (count - i) as nat, bytes_reader());
        }
        let ghost before = byte_strings(items@);
        let item = match r.read_var_bytes() {
            Ok(v) => v,
            Err(e) => {
                return Err(e);
            },
        };
        items.push(item);
        assert(byte_strings(items@) =~= before.push(item@));
        i += 1;
    }
    proof {
        assert(byte_strings(items@) + Seq::empty() =~= byte_strings(items@));
    }
    Ok(items)
}

/// Writes the receipts of a response.
fn encode_receipts(buf: &mut Vec<u8>, items: &Vec<Receipt>)
    ensures
        final(buf)@ == old(buf)@ + ser_list(items.deep_view(), receipt_writer()),
{
    write_u32(buf, items.len() as u32);
    let ghost views = items.deep_view();
    let ghost head = buf@;
    assert(views.skip(0) =~= views);
    assert(buf@ + ser_items(views.skip(0), receipt_writer()) == head + ser_items(views, receipt_writer()));
    let mut i: usize = 0;
    while i < items.len()
        invariant
            i <= items@.len(),
            views == items.deep_view(),
            views.len() == items@.len(),
            buf@ + ser_items(views.skip(i as int), receipt_writer()) == head + ser_items(
                views,
                receipt_writer(),
            ),
        decreases items@.len() - i,
    {
        let ghost before = buf@;
        proof {
            lemma_ser_items_step(views, receipt_writer(), i as int);
        }
        encode_receipt(buf, &items[i]);
        proof {
            let item = receipt_writer()(views[i as int]);
            let tail = ser_items(views.skip(i + 1), receipt_writer());
            assert(buf@ == before + item);
            assert((before + item) + tail =~= before + (item + tail));
        }
        i += 1;
    }
    proof {
        assert(ser_items(views.skip(items@.len() as int), receipt_writer()) =~= Seq::<u8>::empty());
        assert(buf@ =~= head + ser_items(views, receipt_writer()));
        assert(buf@ =~= old(buf)@ + ser_list(views, receipt_writer()));
    }
}

/// Reads the receipts of a response.
fn decode_receipts(r: &mut Reader<'_>) -> (res: Result<Vec<Receipt>, ExecError>)
    requires
        old(r).wf(),
    ensures
        final(r).wf(),
        res is Ok <==> parse_list(old(r).rest(), receipt_reader()) is Some,
        res matches Ok(items) ==> parse_list(old(r).rest(), receipt_reader()) == Some(
            (items.deep_view(), final(r).rest()),
        ),
        res matches Err(e) ==> e@ == ExecErrorView::SerializationError,
{
    let count = match r.read_u32() {
        Ok(v) => v,
        Err(e) => {
            return Err(e);
        },
    };
    let ghost start = r.rest();
    let mut items: Vec<Receipt> = Vec::new();
    assert(items.deep_view() =~= Seq::empty());
    let mut i: u32 = 0;
    while i < count
        invariant
            r.wf(),
            i <= count,
            parse_u32(old(r).rest()) == Some((count, start)),
            parse_items(start, count as nat, receipt_reader()) == continue_items(
                items.deep_view(),
                r.rest(),
                (count - i) as nat,
                receipt_reader(),
            ),
        decreases count - i,
    {
        proof {
            lemma_continue_items(items.deep_view(), r.rest(), (count - i) as nat, receipt_reader());
        }
        let ghost before = items.deep_view();
        let item = match decode_receipt(r) {
            Ok(v) => v,
            Err(e) => {
                return Err(e);
            },
        };
        items.push(item);
        assert(items.deep_view() =~= before.push(item@));
        i += 1;
    }
    proof {
        assert(items.deep_view() + Seq::empty() =~= items.deep_view());
    }
    Ok(items)
}

/// Writes the events of a response.
fn encode_events(buf: &mut Vec<u8>, items: &Vec<Event>)
    ensures
        final(buf)@ == old(buf)@ + ser_list(items.deep_view(), event_writer()),
{
    write_u32(buf, items.len() as u32);
    let ghost views = items.deep_view();
    let ghost head = buf@;
    assert(views.skip(0) =~= views);
    assert(buf@ + ser_items(views.skip(0), event_writer()) == head + ser_items(views, event_writer()));
    let mut i: usize = 0;
    while i < items.len()
        invariant
            i <= items@.len(),
            views == items.deep_view(),
            views.len() == items@.len(),
            buf@ + ser_items(views.skip(i as int), event_writer()) == head + ser_items(
                views,
                event_writer(),
            ),
        decreases items@.len() - i,
    {
        let ghost before = buf@;
        proof {
            lemma_ser_items_step(views, event_writer(), i as int);
        }
        encode_event(buf, &items[i]);
        proof {
            let item = event_writer()(views[i as int]);
            let tail = ser_items(views.skip(i + 1), event_writer());
            assert(buf@ == before + item);
            assert((before + item) + tail =~= before + (item + tail));
        }
        i += 1;
    }
    proof {
        assert(ser_items(views.skip(items@.len() as int), event_writer()) =~= Seq::<u8>::empty());
        assert(buf@ =~= head + ser_items(views, event_writer()));
        assert(buf@ =~= old(buf)@ + ser_list(views, event_writer()));
    }
}

/// Reads the events of a response.
fn decode_events(r: &mut Reader<'_>) -> (res: Result<Vec<Event>, ExecError>)
    requires
        old(r).wf(),
    ensures
        final(r).wf(),
        res is Ok <==> parse_list(old(r).rest(), event_reader()) is Some,
        res matches Ok(items) ==> parse_list(old(r).rest(), event_reader()) == Some(
            (items.deep_view(), final(r).rest()),
        ),
        res matches Err(e) ==> e@ == ExecErrorView::SerializationError,
{
    let count = match r.read_u32() {
        Ok(v) => v,
        Err(e) => {
            return Err(e);
        },
    };
    let ghost start = r.rest();
    let mut items: Vec<Event> = Vec::new();
    assert(items.deep_view() =~= Seq::empty());
    let mut i: u32 = 0;
    while i < count
        invariant
            r.wf(),
            i <= count,
            parse_u32(old(r).rest()) == Some((count, start)),
            parse_items(start, count as nat, event_reader()) == continue_items(
                items.deep_view(),
                r.rest(),
                (count - i) as nat,
                event_reader(),
            ),
        decreases count - i,
    {
        proof {
            lemma_continue_items(items.deep_view(), r.rest(), (count - i) as nat, event_reader());
        }
        let ghost before = items.deep_view();
        let item = match decode_event(r) {
            Ok(v) => v,
            Err(e) => {
                return Err(e);
            },
        };
        items.push(item);
        assert(items.deep_view() =~= before.push(item@));
        i += 1;
    }
    proof {
        assert(items.deep_view() + Seq::empty() =~= items.deep_view());
    }
    Ok(items)
}

/// Writes the log lines of a response.
fn encode_logs(buf: &mut Vec<u8>, items: &Vec<LogLine>)
    ensures
        final(buf)@ == old(buf)@ + ser_list(items.deep_view(), log_writer()),
{
    write_u32(buf, items.len() as u32);
    let ghost views = items.deep_view();
    let ghost head = buf@;
    assert(views.skip(0) =~= views);
    assert(buf@ + ser_items(views.skip(0), log_writer()) == head + ser_items(views, log_writer()));
    let mut i: usize = 0;
    while i < items.len()
        invariant
            i <= items@.len(),
            views == items.deep_view(),
            views.len() == items@.len(),
            buf@ + ser_items(views.skip(i as int), log_writer()) == head + ser_items(
                views,
                log_writer(),
            ),
        decreases items@.len() - i,
    {
        let ghost before = buf@;
        proof {
            lemma_ser_items_step(views, log_writer(), i as int);
        }
        encode_log(buf, &items[i]);
        proof {
            let item = log_writer()(views[i as int]);
            let tail = ser_items(views.skip(i + 1), log_writer());
            assert(buf@ == before + item);
            assert((before + item) + tail =~= before + (item + tail));
        }
        i += 1;
    }
    proof {
        assert(ser_items(views.skip(items@.len() as int), log_writer()) =~= Seq::<u8>::empty());
        assert(buf@ =~= head + ser_items(views, log_writer()));
        assert(buf@ =~= old(buf)@ + ser_list(views, log_writer()));
    }
}

/// Reads the log lines of a response.
fn decode_logs(r: &mut Reader<'_>) -> (res: Result<Vec<LogLine>, ExecError>)
    requires
        old(r).wf(),
    ensures
        final(r).wf(),
        res is Ok <==> parse_list(old(r).rest(), log_reader()) is Some,
        res matches Ok(items) ==> parse_list(old(r).rest(), log_reader()) == Some(
            (items.deep_view(), final(r).rest()),
        ),
        res matches Err(e) ==> e@ == ExecErrorView::SerializationError,
{
    let count = match r.read_u32() {
        Ok(v) => v,
        Err(e) => {
            return Err(e);
        },
    };
    let ghost start = r.rest();
    let mut items: Vec<LogLine> = Vec::new();
    assert(items.deep_view() =~= Seq::empty());
    let mut i: u32 = 0;
    while i < count
        invariant
            r.wf(),
            i <= count,
            parse_u32(old(r).rest()) == Some((count, start)),
            parse_items(start, count as nat, log_reader()) == continue_items(
                items.deep_view(),
                r.rest(),
                (count - i) as nat,
                log_reader(),
            ),
        decreases count - i,
    {
        proof {
            lemma_continue_items(items.deep_view(), r.rest(), (count - i) as nat, log_reader());
        }
        let ghost before = items.deep_view();
        let item = match decode_log(r) {
            Ok(v) => v,
            Err(e) => {
                return Err(e);
            },
        };
        items.push(item);
        assert(items.deep_view() =~= before.push(item@));
        i += 1;
    }
    proof {
        assert(items.deep_view() + Seq::empty() =~= items.deep_view());
    }
    Ok(items)
}

/// Encodes a request.
pub fn encode_execution_request(req: &ExecutionRequest) -> (bytes: Vec<u8>)
    ensures
        bytes@ == ser_request(req@),
{
    let mut buf: Vec<u8> = Vec::new();
    write_u32(&mut buf, req.api_version);
    write_var_bytes(&mut buf, req.chain_id.as_slice());
    write_u64(&mut buf, req.block_height);
    write_u64(&mut buf, req.block_time);
    write_hash(&mut buf, &req.block_hash);
    write_hash(&mut buf, &req.prev_state_root);
    encode_transactions(&mut buf, &req.transactions);
    write_u64(&mut buf, req.limits.gas_limit);
    write_u32(&mut buf, req.limits.max_events);
    write_u32(&mut buf, req.limits.max_write_bytes);
    write_optional_hash(&mut buf, &req.execution_seed);
    assert(buf@ =~= ser_request(req@));
    buf
}

/// Decodes a request from the start of `data`; bytes after it are ignored.
/// Fails exactly when the bytes do not hold a request.
pub fn decode_execution_request(data: &[u8]) -> (res: Result<ExecutionRequest, ExecError>)
    ensures
        res is Ok <==> parse_request(data@) is Some,
        res matches Ok(req) ==> parse_request(data@)->Some_0.0 == req@,
        res matches Err(e) ==> e@ == ExecErrorView::SerializationError,
{
    let mut r = Reader::new(data);
    let api_version = match r.read_u32() {
        Ok(v) => v,
        Err(e) => {
            return Err(e);
        },
    };
    let chain_id = match r.read_var_bytes() {
        Ok(v) => v,
        Err(e) => {
            return Err(e);
        },
    };
    let block_height = match r.read_u64() {
        Ok(v) => v,
        Err(e) => {
            return Err(e);
        },
    };
    let block_time = match r.read_u64() {
        Ok(v) => v,
        Err(e) => {
            return Err(e);
        },
    };
    let block_hash = match r.read_hash() {
        Ok(v) => v,
        Err(e) => {
            return Err(e);
        },
    };
    let prev_state_root = match r.read_hash() {
        Ok(v) => v,
        Err(e) => {
            return Err(e);
        },
    };
    let transactions = match decode_transactions(&mut r) {
        Ok(v) => v,
        Err(e) => {
            return Err(e);
        },
    };
    let gas_limit = match r.read_u64() {
        Ok(v) => v,
        Err(e) => {
            return Err(e);
        },
    };
    let max_events = match r.read_u32() {
        Ok(v) => v,
        Err(e) => {
            return Err(e);
        },
    };
    let max_write_bytes = match r.read_u32() {
        Ok(v) => v,
        Err(e) => {
            return Err(e);
        },
    };
    let execution_seed = match r.read_optional_hash() {
        Ok(v) => v,
        Err(e) => {
            return Err(e);
        },
    };
    Ok(
        ExecutionRequest {
            api_version,
            chain_id,
            block_height,
            block_time,
            block_hash,
            prev_state_root,
            transactions,
            limits: ExecutionLimits { gas_limit, max_events, max_write_bytes },
            execution_seed,
        },
    )
}

/// Encodes a response.
pub fn encode_execution_response(resp: &ExecutionResponse) -> (bytes: Vec<u8>)
    ensures
        bytes@ == ser_response(resp@),
{
    let mut buf: Vec<u8> = Vec::new();
    write_u32(&mut buf, resp.api_version);
    write_u8(&mut buf, resp.status.as_u8());
    write_hash(&mut buf, &resp.new_state_root);
    write_u64(&mut buf, resp.gas_used);
    encode_receipts(&mut buf, &resp.receipts);
    encode_events(&mut buf, &resp.events);
    encode_logs(&mut buf, &resp.logs);
    assert(buf@ =~= ser_response(resp@));
    buf
}

/// Decodes a response from the start of `data`; bytes after it are
/// ignored. Fails exactly when the bytes do not hold a response.
pub fn decode_execution_response(data: &[u8]) -> (res: Result<ExecutionResponse, ExecError>)
    ensures
        res is Ok <==> parse_response(data@) is Some,
        res matches Ok(resp) ==> parse_response(data@)->Some_0.0 == resp@,
        res matches Err(e) ==> e@ == ExecErrorView::SerializationError,
{
    let mut r = Reader::new(data);
    let api_version = match r.read_u32() {
        Ok(v) => v,
        Err(e) => {
            return Err(e);
        },
    };
    let status_byte = match r.read_u8() {
        Ok(v) => v,
        Err(e) => {
            return Err(e);
        },
    };
    let status = match ExecutionStatus::from_u8(status_byte) {
        Some(v) => v,
        None => {
            return Err(
                ExecError::SerializationError(
                    String::from_str("invalid status: ").concat(
                        decimal(status_byte as u64).as_str(),
                    ),
                ),
            );
        },
    };
    let new_state_root = match r.read_hash() {
        Ok(v) => v,
        Err(e) => {
            return Err(e);
        },
    };
    let gas_used = match r.read_u64() {
        Ok(v) => v,
        Err(e) => {
            return Err(e);
        },
    };
    let receipts = match decode_receipts(&mut r) {
        Ok(v) => v,
        Err(e) => {
            return Err(e);
        },
    };
    let events = match decode_events(&mut r) {
        Ok(v) => v,
        Err(e) => {
            return Err(e);
        },
    };
    let logs = match decode_logs(&mut r) {
        Ok(v) => v,
        Err(e) => {
            return Err(e);
        },
    };
    Ok(ExecutionResponse { api_version, status, new_state_root, gas_used, receipts, events, logs })
}

/// Encodes one event, as the guest hands it to `emit_event`.
pub fn encode_single_event(event: &Event) -> (bytes: Vec<u8>)
    ensures
        bytes@ == ser_event(event@),
{
    let mut buf: Vec<u8> = Vec::new();
    encode_event(&mut buf, event);
    assert(buf@ =~= ser_event(event@));
    buf
}

/// Decodes one event from the start of `data`; bytes after it are ignored.
/// Fails exactly when the bytes do not hold an event.
pub fn decode_single_event(data: &[u8]) -> (res: Result<Event, ExecError>)
    ensures
        res is Ok <==> parse_event(data@) is Some,
        res matches Ok(event) ==> parse_event(data@)->Some_0.0 == event@,
        res matches Err(e) ==> e@ == ExecErrorView::SerializationError,
{
    let mut r = Reader::new(data);
    decode_event(&mut r)
}

/// Encodes an execution context.
pub fn encode_execution_context(ctx: &ExecutionContext) -> (bytes: Vec<u8>)
    ensures
        bytes@ == ser_context(ctx@),
{
    let mut buf: Vec<u8> = Vec::new();
    write_var_bytes(&mut buf, ctx.chain_id.as_slice());
    write_u64(&mut buf, ctx.block_height);
    write_u64(&mut buf, ctx.block_time);
    write_hash(&mut buf, &ctx.block_hash);
    write_u64(&mut buf, ctx.gas_limit);
    write_u32(&mut buf, ctx.max_events);
    write_u32(&mut buf, ctx.max_write_bytes);
    write_u32(&mut buf, ctx.api_version);
    write_optional_hash(&mut buf, &ctx.execution_seed);
    assert(buf@ =~= ser_context(ctx@));
    buf
}

/// Decodes an execution context from the start of `data`; bytes after it
/// are ignored. Fails exactly when the bytes do not hold a context.
pub fn decode_execution_context(data: &[u8]) -> (res: Result<ExecutionContext, ExecError>)
    ensures
        res is Ok <==> parse_context(data@) is Some,
        res matches Ok(ctx) ==> parse_context(data@)->Some_0.0 == ctx@,
        res matches Err(e) ==> e@ == ExecErrorView::SerializationError,
{
    let mut r = Reader::new(data);
    let chain_id = match r.read_var_bytes() {
        Ok(v) => v,
        Err(e) => {
            return Err(e);
        },
    };
    let block_height = match r.read_u64() {
        Ok(v) => v,
        Err(e) => {
            return Err(e);
        },
    };
    let block_time = match r.read_u64() {
        Ok(v) => v,
        Err(e) => {
            return Err(e);
        },
    };
    let block_hash = match r.read_hash() {
        Ok(v) => v,
        Err(e) => {
            return Err(e);
        },
    };
    let gas_limit = match r.read_u64() {
        Ok(v) => v,
        Err(e) => {
            return Err(e);
        },
    };
    let max_events = match r.read_u32() {
        Ok(v) => v,
        Err(e) => {
            return Err(e);
        },
    };
    let max_write_bytes = match r.read_u32() {
        Ok(v) => v,
        Err(e) => {
            return Err(e);
        },
    };
    let api_version = match r.read_u32() {
        Ok(v) => v,
        Err(e) => {
            return Err(e);
        },
    };
    let execution_seed = match r.read_optional_hash() {
        Ok(v) => v,
        Err(e) => {
            return Err(e);
        },
    };
    Ok(
        ExecutionContext {
            chain_id,
            block_height,
            block_time,
            block_hash,
            gas_limit,
            max_events,
            max_write_bytes,
            api_version,
            execution_seed,
        },
    )
}

} // verus!
