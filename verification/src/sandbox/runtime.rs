//! The decisions of the sandbox runtime around the calls into the guest:
//! where the host's memory region starts, how request bytes get into guest
//! memory, how the guest's return codes and traps are read, and how the
//! response comes out.
//!
//! The runtime itself, which owns the engine and the guest instance, calls
//! these functions between its calls into the guest.

use vstd::prelude::*;
use vstd::bytes::spec_u32_from_le_bytes;
use vstd::utf8::encode_utf8;
use crate::hostapi::state_store::StateStore;
use crate::primitives::codec::{decode_execution_response, parse_response};
use crate::primitives::execution::{ExecutionResponse, ExecutionResponseView};
use crate::sandbox::error::{SandboxError, SandboxErrorView};
use crate::sandbox::host_impl::{HostState, HostStateModel};
use crate::sandbox::memory::{
    copy_into, range_valid, read_bytes, read_i32, write_at, HostAllocator, HOST_ALLOC_PAGES,
};

verus! {

/// An error of the `anyhow` crate, as the engine returns it from a call
/// into the guest.
#[verifier::external_type_specification]
#[verifier::external_body]
pub struct ExAnyhowError(anyhow::Error);

/// The text of an engine error. Formats the error with its `Display`
/// implementation; nothing is claimed of the text.
#[verifier::external_body]
fn trap_message(error: &anyhow::Error) -> (message: String) {
    format!("{}", error)
}

/// `needle` occurs in `hay` at position `i`.
pub open spec fn occurs_at(hay: Seq<u8>, needle: Seq<u8>, i: int) -> bool {
    0 <= i && i + needle.len() <= hay.len() && hay.subrange(i, i + needle.len()) == needle
}

/// `needle` occurs somewhere in `hay`.
pub open spec fn occurs_in(hay: Seq<u8>, needle: Seq<u8>) -> bool {
    exists|i: int| occurs_at(hay, needle, i)
}

fn matches_at(hay: &[u8], needle: &[u8], at: usize) -> (r: bool)
    requires
        at + needle@.len() <= hay@.len(),
    ensures
        r == occurs_at(hay@, needle@, at as int),
{
    let n = needle.len();
    let total = hay.len();
    let mut j: usize = 0;
    while j < n
        invariant
            j <= n,
            n == needle@.len(),
            total == hay@.len(),
            at + n <= total,
            forall|k: int| 0 <= k < j ==> hay@[at + k] == needle@[k],
        decreases n - j,
    {
        if hay[at + j] != needle[j] {
            return false;
        }
        j += 1;
    }
    assert(hay@.subrange(at as int, at + n) =~= needle@);
    true
}

/// Whether `needle` occurs in `hay`.
pub fn contains_bytes(hay: &[u8], needle: &[u8]) -> (r: bool)
    ensures
        r == occurs_in(hay@, needle@),
{
    if needle.len() > hay.len() {
        return false;
    }
    let last = hay.len() - needle.len();
    let mut i: usize = 0;
    while i < last
        invariant
            i <= last,
            last == hay@.len() - needle@.len(),
            forall|k: int| 0 <= k < i ==> !occurs_at(hay@, needle@, k),
        decreases last - i,
    {
        if matches_at(hay, needle, i) {
            return true;
        }
        i += 1;
    }
    matches_at(hay, needle, last)
}

/// The error for a call into the guest that ended with `message`: fuel
/// exhaustion when the message names `fuel`, else a guest trap with the
/// message.
pub open spec fn trap_error(message: Seq<char>) -> SandboxErrorView {
    if occurs_in(encode_utf8(message), encode_utf8("fuel"@)) {
        SandboxErrorView::FuelExhausted
    } else {
        SandboxErrorView::GuestTrapped(message)
    }
}

/// The error for a call into the guest that ended with `message`.
pub fn classify_trap(message: String) -> (e: SandboxError)
    ensures
        e@ == trap_error(message@),
{
    if contains_bytes(message.as_str().as_bytes(), "fuel".as_bytes()) {
        SandboxError::FuelExhausted
    } else {
        SandboxError::GuestTrapped(message)
    }
}

/// Turns the result of a call into the guest into the sandbox's: a value
/// passes through, and an engine error becomes fuel exhaustion or a guest
/// trap.
pub fn handle_trap<R>(result: Result<R, anyhow::Error>) -> (r: Result<R, SandboxError>)
    ensures
        result is Ok <==> r is Ok,
        result matches Ok(v) ==> r == Ok::<R, SandboxError>(v),
        r matches Err(e) ==> e@ is FuelExhausted || e@ is GuestTrapped,
{
    match result {
        Ok(val) => Ok(val),
        Err(e) => Err(classify_trap(trap_message(&e))),
    }
}

/// Reads the code that the guest's `init` returned: zero is success.
pub fn check_init(code: i32) -> (r: Result<(), SandboxError>)
    ensures
        r is Ok <==> code == 0,
        r matches Err(e) ==> e == SandboxError::InitFailed(code),
{
    if code != 0 {
        return Err(SandboxError::InitFailed(code));
    }
    Ok(())
}

/// Reads the code that the guest's `execute_block` returned: zero is
/// success.
pub fn check_execute(code: i32) -> (r: Result<(), SandboxError>)
    ensures
        r is Ok <==> code == 0,
        r matches Err(e) ==> e == SandboxError::ExecutionFailed(code),
{
    if code != 0 {
        return Err(SandboxError::ExecutionFailed(code));
    }
    Ok(())
}

/// The allocator of the host's region: it starts at the end of the guest's
/// own `current_pages` pages and has four pages of 64 KiB. A memory error
/// when the addresses do not fit the machine's integers.
pub open spec fn spec_host_region(current_pages: u64) -> Result<HostAllocator, SandboxErrorView> {
    if current_pages * 65_536 + 262_144 <= usize::MAX {
        Ok(HostAllocator { base: (current_pages * 65_536) as usize, bump: 0, capacity: 262_144 })
    } else {
        Err(SandboxErrorView::MemoryError)
    }
}

/// The content of the result of laying out the host's region.
pub open spec fn region_result_view(r: Result<HostAllocator, SandboxError>) -> Result<
    HostAllocator,
    SandboxErrorView,
> {
    match r {
        Ok(a) => Ok(a),
        Err(e) => Err(e@),
    }
}

/// Lays out the host's region behind the guest's own pages.
pub fn host_region(current_pages: u64) -> (r: Result<HostAllocator, SandboxError>)
    ensures
        region_result_view(r) == spec_host_region(current_pages),
{
    let base = match current_pages.checked_mul(65_536) {
        Some(v) => v,
        None => {
            return Err(SandboxError::memory("host region out of range"));
        },
    };
    let end = match base.checked_add(HOST_ALLOC_PAGES * 65_536) {
        Some(v) => v,
        None => {
            return Err(SandboxError::memory("host region out of range"));
        },
    };
    if end > usize::MAX as u64 {
        return Err(SandboxError::memory("host region out of range"));
    }
    Ok(HostAllocator::new(base as usize, (HOST_ALLOC_PAGES * 65_536) as usize))
}

/// An allocation for bytes that the runtime writes into guest memory.
#[derive(Debug, Clone, Copy, PartialEq, Eq, Structural)]
pub struct WritePlan {
    /// Where the bytes go.
    pub ptr: usize,
    /// The allocator's bump offset after the write.
    pub new_bump: usize,
    /// The allocator's capacity after the write.
    pub new_capacity: usize,
    /// Pages by which guest memory must grow before the write.
    pub grow_pages: u64,
}

/// What the runtime does for `len` bytes: nothing for no bytes, else the
/// plan of the allocator; a memory error when the plan's numbers do not
/// fit the machine's integers.
pub open spec fn spec_plan_write(alloc: HostAllocator, len: nat) -> Result<
    Option<WritePlan>,
    SandboxErrorView,
> {
    if len == 0 {
        Ok(None)
    } else if !alloc.can_plan(len) {
        Err(SandboxErrorView::MemoryError)
    } else {
        let p = alloc.plan(len);
        Ok(
            Some(
                WritePlan {
                    ptr: p.ptr as usize,
                    new_bump: p.new_bump as usize,
                    new_capacity: p.new_capacity as usize,
                    grow_pages: p.grow_pages as u64,
                },
            ),
        )
    }
}

/// The content of the result of planning a write.
pub open spec fn plan_result_view(r: Result<Option<WritePlan>, SandboxError>) -> Result<
    Option<WritePlan>,
    SandboxErrorView,
> {
    match r {
        Ok(p) => Ok(p),
        Err(e) => Err(e@),
    }
}

/// Plans the write of `len` bytes into the host's region. The runtime
/// grows guest memory by the plan's pages and then calls
/// [`write_planned`].
pub fn plan_write<S: StateStore>(state: &HostState<S>, len: usize) -> (r: Result<
    Option<WritePlan>,
    SandboxError,
>)
    ensures
        plan_result_view(r) == spec_plan_write(state.model().alloc, len as nat),
{
    if len == 0 {
        return Ok(None);
    }
    match state.host_alloc.try_compute_alloc(len) {
        Some((ptr, new_bump, new_capacity, grow_pages)) => Ok(
            Some(WritePlan { ptr, new_bump, new_capacity, grow_pages }),
        ),
        None => Err(SandboxError::memory("allocation out of range")),
    }
}

/// Writing `data` at the place of a plan: the bytes land there and the
/// allocator takes over its new state; the result is the pointer for the
/// guest. Without a plan nothing is written and the pointer is 0. A memory
/// error, and no change, when the place is not within guest memory.
pub open spec fn spec_write_planned(
    m: HostStateModel,
    mem: Seq<u8>,
    data: Seq<u8>,
    plan: Option<WritePlan>,
) -> (HostStateModel, Seq<u8>, Result<i32, SandboxErrorView>) {
    match plan {
        None => (m, mem, Ok(0)),
        Some(p) => if p.ptr + data.len() <= mem.len() {
            (
                HostStateModel {
                    alloc: HostAllocator {
                        base: m.alloc.base,
                        bump: p.new_bump,
                        capacity: p.new_capacity,
                    },
                    ..m
                },
                write_at(mem, p.ptr as int, data),
                Ok(p.ptr as i32),
            )
        } else {
            (m, mem, Err(SandboxErrorView::MemoryError))
        },
    }
}

/// The content of the result of a step that yields a pointer.
pub open spec fn pointer_result_view(r: Result<i32, SandboxError>) -> Result<i32, SandboxErrorView> {
    match r {
        Ok(p) => Ok(p),
        Err(e) => Err(e@),
    }
}

/// Writes `data` at the place of `plan`.
pub fn write_planned<S: StateStore>(
    state: &mut HostState<S>,
    mem: &mut [u8],
    data: &[u8],
    plan: Option<WritePlan>,
) -> (r: Result<i32, SandboxError>)
    ensures
        (final(state).model(), final(mem)@, pointer_result_view(r)) == spec_write_planned(
            old(state).model(),
            old(mem)@,
            data@,
            plan,
        ),
{
    match plan {
        None => Ok(0),
        Some(p) => {
            let size = mem.len();
            let fits = match p.ptr.checked_add(data.len()) {
                Some(end) => end <= size,
                None => false,
            };
            if !fits {
                return Err(SandboxError::memory("write outside guest memory"));
            }
            copy_into(mem, p.ptr, data);
            state.host_alloc.commit(p.new_bump, p.new_capacity);
            Ok(p.ptr as i32)
        },
    }
}

/// The place of the response length: four bytes after the place of the
/// response pointer.
pub fn response_len_ptr(resp_ptr_ptr: i32) -> (r: Result<i32, SandboxError>)
    ensures
        r is Ok <==> resp_ptr_ptr + 4 <= i32::MAX,
        r matches Ok(p) ==> p == resp_ptr_ptr + 4,
        r matches Err(e) ==> e@ == SandboxErrorView::MemoryError,
{
    match resp_ptr_ptr.checked_add(4) {
        Some(v) => Ok(v),
        None => Err(SandboxError::memory("response pointers out of range")),
    }
}

/// The pointer and length that the guest left at the two places.
pub open spec fn response_location(mem: Seq<u8>, resp_ptr_ptr: i32, resp_len_ptr: i32) -> (i32, i32) {
    (
        spec_u32_from_le_bytes(mem.subrange(resp_ptr_ptr as int, resp_ptr_ptr + 4)) as i32,
        spec_u32_from_le_bytes(mem.subrange(resp_len_ptr as int, resp_len_ptr + 4)) as i32,
    )
}

/// The response as the guest left it: the pointer and the length from the
/// two places that the guest was given, then the bytes. A memory error
/// when one of the three ranges is not within guest memory.
pub open spec fn spec_read_response(mem: Seq<u8>, resp_ptr_ptr: i32, resp_len_ptr: i32) -> Result<
    (i32, i32, Seq<u8>),
    SandboxErrorView,
> {
    let (ptr, len) = response_location(mem, resp_ptr_ptr, resp_len_ptr);
    if range_valid(mem.len(), resp_ptr_ptr, 4) && range_valid(mem.len(), resp_len_ptr, 4)
        && range_valid(mem.len(), ptr, len) {
        Ok((ptr, len, mem.subrange(ptr as int, ptr + len)))
    } else {
        Err(SandboxErrorView::MemoryError)
    }
}

/// The content of the result of reading the response.
pub open spec fn read_result_view(r: Result<(i32, i32, Vec<u8>), SandboxError>) -> Result<
    (i32, i32, Seq<u8>),
    SandboxErrorView,
> {
    match r {
        Ok(found) => Ok((found.0, found.1, found.2@)),
        Err(e) => Err(e@),
    }
}

/// Reads the response out of guest memory.
pub fn read_response(mem: &[u8], resp_ptr_ptr: i32, resp_len_ptr: i32) -> (r: Result<
    (i32, i32, Vec<u8>),
    SandboxError,
>)
    ensures
        read_result_view(r) == spec_read_response(mem@, resp_ptr_ptr, resp_len_ptr),
{
    let resp_ptr = match read_i32(mem, resp_ptr_ptr) {
        Ok(v) => v,
        Err(_) => {
            return Err(SandboxError::memory("read resp_ptr"));
        },
    };
    let resp_len = match read_i32(mem, resp_len_ptr) {
        Ok(v) => v,
        Err(_) => {
            return Err(SandboxError::memory("read resp_len"));
        },
    };
    match read_bytes(mem, resp_ptr, resp_len) {
        Ok(bytes) => Ok((resp_ptr, resp_len, bytes)),
        Err(_) => Err(SandboxError::memory("read response bytes")),
    }
}

/// The response that bytes hold; a response error when they hold none.
pub open spec fn spec_decode_response(bytes: Seq<u8>) -> Result<
    ExecutionResponseView,
    SandboxErrorView,
> {
    match parse_response(bytes) {
        Some((response, _)) => Ok(response),
        None => Err(SandboxErrorView::ResponseError),
    }
}

/// The content of the result of a block execution in the sandbox.
pub open spec fn response_result_view(r: Result<ExecutionResponse, SandboxError>) -> Result<
    ExecutionResponseView,
    SandboxErrorView,
> {
    match r {
        Ok(response) => Ok(response@),
        Err(e) => Err(e@),
    }
}

/// Decodes the response bytes.
pub fn decode_response(bytes: &[u8]) -> (r: Result<ExecutionResponse, SandboxError>)
    ensures
        response_result_view(r) == spec_decode_response(bytes@),
{
    match decode_execution_response(bytes) {
        Ok(resp) => Ok(resp),
        Err(_) => Err(SandboxError::ResponseError("serialization error".to_owned())),
    }
}

} // verus!
