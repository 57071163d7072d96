//! The host calls as the guest makes them: pointers and lengths into guest
//! memory in, a status code out.
//!
//! Every call validates its pointers, copies its input out of guest
//! memory, charges gas, does the work on the host state, and writes its
//! output back. The code is 0 on success and the number of the error
//! otherwise. A call that returns data of variable length is made in two
//! steps, because guest memory may have to grow in between: the first step
//! ends in a [`Delivery`], the runtime grows the memory by the pages it
//! names, and [`deliver`] writes the data.

use vstd::prelude::*;
use vstd::bytes::{spec_u32_to_le_bytes, spec_u64_to_le_bytes};
use vstd::utf8::{decode_utf8, valid_utf8};
use crate::hostapi::error::HostErrorView;
use crate::hostapi::state_store::StateStore;
use crate::primitives::codec::{decode_single_event, parse_event, string_from_utf8};
use crate::primitives::crypto::{
    blake3_digest, check_ed25519, ed25519_key_decodes, ed25519_valid, hash_blake3,
};
use crate::primitives::error::ErrorCode;
use crate::primitives::gas::{
    cost_with_bytes, gas_cost_emit_event, gas_cost_hash_blake3, gas_cost_log,
    gas_cost_state_delete, gas_cost_state_get, gas_cost_state_set, G_EMIT_EVENT, G_GAS_REMAINING,
    G_GET_CONTEXT, G_HASH_BLAKE3, G_HOST_FREE, G_LOG, G_STATE_DEL, G_STATE_GET, G_STATE_SET,
    G_VERIFY_ED25519,
};
use crate::primitives::types::{array32_from, array64_from, u64_to_le_bytes};
use crate::sandbox::host_impl::{HostState, HostStateModel};
use crate::sandbox::memory::{
    copy_into, range_valid, read_bytes, validate_range, write_at, write_bytes, write_i32,
    HostAllocator,
};

verus! {

/// The module name under which the guest imports the host calls.
pub const HOST_MODULE: &'static str = "bedrock_host";

/// The code of a result: 0 for success, else the code of the error.
pub open spec fn code_of(r: Result<(), HostErrorView>) -> i32 {
    match r {
        Ok(_) => 0,
        Err(e) => e.code(),
    }
}

/// The bytes of guest memory in `[ptr, ptr + len)`.
pub open spec fn guest_bytes(mem: Seq<u8>, ptr: i32, len: i32) -> Seq<u8> {
    mem.subrange(ptr as int, ptr + len)
}

/// Memory after a little-endian `i32` has been written at `ptr`.
pub open spec fn write_i32_at(mem: Seq<u8>, ptr: i32, value: i32) -> Seq<u8> {
    write_at(mem, ptr as int, spec_u32_to_le_bytes(value as u32))
}

/// Data that a host call has to write into the host's region of guest
/// memory, once the memory has grown by `grow_pages` pages.
#[derive(Debug)]
pub struct Delivery {
    /// The bytes to write.
    pub data: Vec<u8>,
    /// Where they go.
    pub ptr: usize,
    /// The allocator's bump offset after the write.
    pub new_bump: usize,
    /// The allocator's capacity after the write.
    pub new_capacity: usize,
    /// Pages by which guest memory must grow before the write.
    pub grow_pages: u64,
    /// Where the guest wants the pointer.
    pub out_ptr_ptr: i32,
    /// Where the guest wants the length.
    pub out_len_ptr: i32,
}

/// Mathematical content of a [`Delivery`].
pub struct DeliveryView {
    pub data: Seq<u8>,
    pub ptr: usize,
    pub new_bump: usize,
    pub new_capacity: usize,
    pub grow_pages: u64,
    pub out_ptr_ptr: i32,
    pub out_len_ptr: i32,
}

impl View for Delivery {
    type V = DeliveryView;

    open spec fn view(&self) -> DeliveryView {
        DeliveryView {
            data: self.data@,
            ptr: self.ptr,
            new_bump: self.new_bump,
            new_capacity: self.new_capacity,
            grow_pages: self.grow_pages,
            out_ptr_ptr: self.out_ptr_ptr,
            out_len_ptr: self.out_len_ptr,
        }
    }
}

/// How the first step of a host call ends.
#[derive(Debug)]
pub enum HostCallStep {
    /// The call is over with this code.
    Done(i32),
    /// Data is to be delivered.
    Deliver(Delivery),
}

/// Mathematical content of a [`HostCallStep`].
pub enum HostCallStepView {
    Done(i32),
    Deliver(DeliveryView),
}

impl View for HostCallStep {
    type V = HostCallStepView;

    open spec fn view(&self) -> HostCallStepView {
        match *self {
            HostCallStep::Done(c) => HostCallStepView::Done(c),
            HostCallStep::Deliver(d) => HostCallStepView::Deliver(d@),
        }
    }
}

/// The delivery of `data` from the host's allocator, or code 10 when the
/// allocation's numbers do not fit the machine's integers.
pub open spec fn plan_delivery(
    alloc: HostAllocator,
    data: Seq<u8>,
    out_ptr_ptr: i32,
    out_len_ptr: i32,
) -> HostCallStepView {
    if !alloc.can_plan(data.len()) {
        HostCallStepView::Done(10)
    } else {
        let p = alloc.plan(data.len());
        HostCallStepView::Deliver(
            DeliveryView {
                data,
                ptr: p.ptr as usize,
                new_bump: p.new_bump as usize,
                new_capacity: p.new_capacity as usize,
                grow_pages: p.grow_pages as u64,
                out_ptr_ptr,
                out_len_ptr,
            },
        )
    }
}

fn make_delivery(alloc: &HostAllocator, data: Vec<u8>, out_ptr_ptr: i32, out_len_ptr: i32) -> (step:
    HostCallStep)
    ensures
        step@ == plan_delivery(*alloc, data@, out_ptr_ptr, out_len_ptr),
{
    match alloc.try_compute_alloc(data.len()) {
        Some((ptr, new_bump, new_capacity, grow_pages)) => HostCallStep::Deliver(
            Delivery { data, ptr, new_bump, new_capacity, grow_pages, out_ptr_ptr, out_len_ptr },
        ),
        None => HostCallStep::Done(ErrorCode::Internal.as_i32()),
    }
}

/// `state_get`, first step. Code 1 for a bad pointer, 7 when the gas does
/// not suffice, the code of the read when it fails. A miss writes pointer
/// 0 and length 0 and ends with code 0. A hit ends in the delivery of the
/// value.
pub open spec fn spec_state_get(
    m: HostStateModel,
    mem: Seq<u8>,
    key_ptr: i32,
    key_len: i32,
    out_ptr_ptr: i32,
    out_len_ptr: i32,
) -> (HostStateModel, Seq<u8>, HostCallStepView) {
    if !range_valid(mem.len(), key_ptr, key_len) || !range_valid(mem.len(), out_ptr_ptr, 4)
        || !range_valid(mem.len(), out_len_ptr, 4) {
        (m, mem, HostCallStepView::Done(1))
    } else {
        let key = guest_bytes(mem, key_ptr, key_len);
        let (m1, charged) = m.charge(cost_with_bytes(G_STATE_GET, key.len()));
        if charged is Err {
            (m1, mem, HostCallStepView::Done(code_of(charged)))
        } else {
            match m1.state_get(key) {
                Err(e) => (m1, mem, HostCallStepView::Done(e.code())),
                Ok(None) => (
                    m1,
                    write_i32_at(write_i32_at(mem, out_ptr_ptr, 0), out_len_ptr, 0),
                    HostCallStepView::Done(0),
                ),
                Ok(Some(value)) => (
                    m1,
                    mem,
                    plan_delivery(m1.alloc, value, out_ptr_ptr, out_len_ptr),
                ),
            }
        }
    }
}

/// `state_get`, first step.
pub fn state_get<S: StateStore>(
    state: &mut HostState<S>,
    mem: &mut [u8],
    key_ptr: i32,
    key_len: i32,
    out_ptr_ptr: i32,
    out_len_ptr: i32,
) -> (step: HostCallStep)
    ensures
        (final(state).model(), final(mem)@, step@) == spec_state_get(
            old(state).model(),
            old(mem)@,
            key_ptr,
            key_len,
            out_ptr_ptr,
            out_len_ptr,
        ),
{
    let key = match read_bytes(mem, key_ptr, key_len) {
        Ok(k) => k,
        Err(_) => {
            return HostCallStep::Done(ErrorCode::BadPointer.as_i32());
        },
    };
    let size = mem.len();
    if validate_range(size, out_ptr_ptr, 4).is_err() || validate_range(size, out_len_ptr, 4).is_err() {
        return HostCallStep::Done(ErrorCode::BadPointer.as_i32());
    }
    let cost = gas_cost_state_get(key.len());
    match state.gas_meter.charge(cost) {
        Ok(_) => {},
        Err(e) => {
            return HostCallStep::Done(e.to_error_code());
        },
    }
    let value = match state.state_get(key.as_slice()) {
        Ok(v) => v,
        Err(e) => {
            return HostCallStep::Done(e.to_error_code());
        },
    };
    match value {
        Some(val) => make_delivery(&state.host_alloc, val, out_ptr_ptr, out_len_ptr),
        None => {
            if write_i32(mem, out_ptr_ptr, 0).is_err() || write_i32(mem, out_len_ptr, 0).is_err() {
                return HostCallStep::Done(ErrorCode::BadPointer.as_i32());
            }
            HostCallStep::Done(0)
        },
    }
}

/// The second step of a call that returns data: the data is written at
/// its place, the pointer and the length at the places the guest named,
/// and the allocator takes over its new state. Code 10 when the place of
/// the data is not within guest memory, code 1 when a place of the guest
/// is not.
pub open spec fn spec_deliver(m: HostStateModel, mem: Seq<u8>, d: DeliveryView) -> (
    HostStateModel,
    Seq<u8>,
    i32,
) {
    if d.ptr + d.data.len() > mem.len() {
        (m, mem, 10)
    } else {
        let mem1 = write_at(mem, d.ptr as int, d.data);
        if !(d.out_ptr_ptr >= 0 && d.out_ptr_ptr + 4 <= mem.len()) {
            (m, mem1, 1)
        } else {
            let mem2 = write_i32_at(mem1, d.out_ptr_ptr, d.ptr as i32);
            if !(d.out_len_ptr >= 0 && d.out_len_ptr + 4 <= mem.len()) {
                (m, mem2, 1)
            } else {
                (
                    HostStateModel {
                        alloc: HostAllocator {
                            base: m.alloc.base,
                            bump: d.new_bump,
                            capacity: d.new_capacity,
                        },
                        ..m
                    },
                    write_i32_at(mem2, d.out_len_ptr, d.data.len() as i32),
                    0,
                )
            }
        }
    }
}

/// The second step of a call that returns data. The runtime calls it
/// after it has grown guest memory by the pages of the delivery.
pub fn deliver<S: StateStore>(state: &mut HostState<S>, mem: &mut [u8], d: &Delivery) -> (code:
    i32)
    ensures
        (final(state).model(), final(mem)@, code) == spec_deliver(
            old(state).model(),
            old(mem)@,
            d@,
        ),
{
    let size = mem.len();
    let fits = match d.ptr.checked_add(d.data.len()) {
        Some(end) => end <= size,
        None => false,
    };
    if !fits {
        return ErrorCode::Internal.as_i32();
    }
    copy_into(mem, d.ptr, d.data.as_slice());
    if write_i32(mem, d.out_ptr_ptr, d.ptr as i32).is_err() {
        return ErrorCode::BadPointer.as_i32();
    }
    if write_i32(mem, d.out_len_ptr, d.data.len() as i32).is_err() {
        return ErrorCode::BadPointer.as_i32();
    }
    state.host_alloc.commit(d.new_bump, d.new_capacity);
    0
}

/// `state_set`: code 1 for a bad pointer, 7 when the gas does not suffice,
/// else the code of the write.
pub open spec fn spec_state_set(
    m: HostStateModel,
    mem: Seq<u8>,
    key_ptr: i32,
    key_len: i32,
    val_ptr: i32,
    val_len: i32,
) -> (HostStateModel, i32) {
    if !range_valid(mem.len(), key_ptr, key_len) || !range_valid(mem.len(), val_ptr, val_len) {
        (m, 1)
    } else {
        let key = guest_bytes(mem, key_ptr, key_len);
        let value = guest_bytes(mem, val_ptr, val_len);
        let (m1, charged) = m.charge(cost_with_bytes(G_STATE_SET, key.len() + value.len()));
        if charged is Err {
            (m1, code_of(charged))
        } else {
            let (m2, written) = m1.state_set(key, value);
            (m2, code_of(written))
        }
    }
}

/// `state_set`.
pub fn state_set<S: StateStore>(
    state: &mut HostState<S>,
    mem: &[u8],
    key_ptr: i32,
    key_len: i32,
    val_ptr: i32,
    val_len: i32,
) -> (code: i32)
    ensures
        (final(state).model(), code) == spec_state_set(
            old(state).model(),
            mem@,
            key_ptr,
            key_len,
            val_ptr,
            val_len,
        ),
{
    let key = match read_bytes(mem, key_ptr, key_len) {
        Ok(k) => k,
        Err(_) => {
            return ErrorCode::BadPointer.as_i32();
        },
    };
    let value = match read_bytes(mem, val_ptr, val_len) {
        Ok(v) => v,
        Err(_) => {
            return ErrorCode::BadPointer.as_i32();
        },
    };
    let cost = gas_cost_state_set(key.len(), value.len());
    match state.gas_meter.charge(cost) {
        Ok(_) => {},
        Err(e) => {
            return e.to_error_code();
        },
    }
    match state.state_set(key.as_slice(), value.as_slice()) {
        Ok(_) => 0,
        Err(e) => e.to_error_code(),
    }
}

/// `state_delete`: code 1 for a bad pointer, 7 when the gas does not
/// suffice, else the code of the delete.
pub open spec fn spec_state_delete(m: HostStateModel, mem: Seq<u8>, key_ptr: i32, key_len: i32) -> (
    HostStateModel,
    i32,
) {
    if !range_valid(mem.len(), key_ptr, key_len) {
        (m, 1)
    } else {
        let key = guest_bytes(mem, key_ptr, key_len);
        let (m1, charged) = m.charge(cost_with_bytes(G_STATE_DEL, key.len()));
        if charged is Err {
            (m1, code_of(charged))
        } else {
            let (m2, deleted) = m1.state_delete(key);
            (m2, code_of(deleted))
        }
    }
}

/// `state_delete`.
pub fn state_delete<S: StateStore>(
    state: &mut HostState<S>,
    mem: &[u8],
    key_ptr: i32,
    key_len: i32,
) -> (code: i32)
    ensures
        (final(state).model(), code) == spec_state_delete(
            old(state).model(),
            mem@,
            key_ptr,
            key_len,
        ),
{
    let key = match read_bytes(mem, key_ptr, key_len) {
        Ok(k) => k,
        Err(_) => {
            return ErrorCode::BadPointer.as_i32();
        },
    };
    let cost = gas_cost_state_delete(key.len());
    match state.gas_meter.charge(cost) {
        Ok(_) => {},
        Err(e) => {
            return e.to_error_code();
        },
    }
    match state.state_delete(key.as_slice()) {
        Ok(_) => 0,
        Err(e) => e.to_error_code(),
    }
}

/// `emit_event`: code 1 for a bad pointer, 7 when the gas does not
/// suffice, 2 when the bytes do not hold an event, 6 past the event limit.
pub open spec fn spec_emit_event(m: HostStateModel, mem: Seq<u8>, evt_ptr: i32, evt_len: i32) -> (
    HostStateModel,
    i32,
) {
    if !range_valid(mem.len(), evt_ptr, evt_len) {
        (m, 1)
    } else {
        let bytes = guest_bytes(mem, evt_ptr, evt_len);
        let (m1, charged) = m.charge(cost_with_bytes(G_EMIT_EVENT, bytes.len()));
        if charged is Err {
            (m1, code_of(charged))
        } else {
            match parse_event(bytes) {
                None => (m1, 2),
                Some((event, _)) => {
                    let (m2, added) = m1.add_event(event);
                    (m2, code_of(added))
                },
            }
        }
    }
}

/// `emit_event`.
pub fn emit_event<S: StateStore>(
    state: &mut HostState<S>,
    mem: &[u8],
    evt_ptr: i32,
    evt_len: i32,
) -> (code: i32)
    ensures
        (final(state).model(), code) == spec_emit_event(old(state).model(), mem@, evt_ptr, evt_len),
{
    let evt_bytes = match read_bytes(mem, evt_ptr, evt_len) {
        Ok(b) => b,
        Err(_) => {
            return ErrorCode::BadPointer.as_i32();
        },
    };
    let cost = gas_cost_emit_event(evt_bytes.len());
    match state.gas_meter.charge(cost) {
        Ok(_) => {},
        Err(e) => {
            return e.to_error_code();
        },
    }
    let event = match decode_single_event(evt_bytes.as_slice()) {
        Ok(e) => e,
        Err(_) => {
            return ErrorCode::InvalidEncoding.as_i32();
        },
    };
    match state.add_event(event) {
        Ok(_) => 0,
        Err(e) => e.to_error_code(),
    }
}

/// `log`: code 1 for a bad pointer, 7 when the gas does not suffice, 2
/// when the message is not UTF-8. A message that the host drops still
/// gives code 0.
pub open spec fn spec_log(m: HostStateModel, mem: Seq<u8>, level: i32, msg_ptr: i32, msg_len: i32) -> (
    HostStateModel,
    i32,
) {
    if !range_valid(mem.len(), msg_ptr, msg_len) {
        (m, 1)
    } else {
        let bytes = guest_bytes(mem, msg_ptr, msg_len);
        let (m1, charged) = m.charge(cost_with_bytes(G_LOG, bytes.len()));
        if charged is Err {
            (m1, code_of(charged))
        } else if !valid_utf8(bytes) {
            (m1, 2)
        } else {
            (m1.add_log(level as u32, decode_utf8(bytes)), 0)
        }
    }
}

/// `log`.
pub fn log<S: StateStore>(
    state: &mut HostState<S>,
    mem: &[u8],
    level: i32,
    msg_ptr: i32,
    msg_len: i32,
) -> (code: i32)
    ensures
        (final(state).model(), code) == spec_log(old(state).model(), mem@, level, msg_ptr, msg_len),
{
    let msg_bytes = match read_bytes(mem, msg_ptr, msg_len) {
        Ok(b) => b,
        Err(_) => {
            return ErrorCode::BadPointer.as_i32();
        },
    };
    let cost = gas_cost_log(msg_bytes.len());
    match state.gas_meter.charge(cost) {
        Ok(_) => {},
        Err(e) => {
            return e.to_error_code();
        },
    }
    let message = match string_from_utf8(msg_bytes) {
        Some(s) => s,
        None => {
            return ErrorCode::InvalidEncoding.as_i32();
        },
    };
    let _ = state.add_log(level as u32, message);
    0
}

/// `hash_blake3`: code 1 when the output length is not 32 or a pointer is
/// bad, 7 when the gas does not suffice; else the digest of the input is
/// written at the output pointer.
pub open spec fn spec_hash_blake3(
    m: HostStateModel,
    mem: Seq<u8>,
    in_ptr: i32,
    in_len: i32,
    out_ptr: i32,
    out_len: i32,
) -> (HostStateModel, Seq<u8>, i32) {
    if out_len != 32 || !range_valid(mem.len(), out_ptr, 32) || !range_valid(
        mem.len(),
        in_ptr,
        in_len,
    ) {
        (m, mem, 1)
    } else {
        let input = guest_bytes(mem, in_ptr, in_len);
        let (m1, charged) = m.charge(cost_with_bytes(G_HASH_BLAKE3, input.len()));
        if charged is Err {
            (m1, mem, code_of(charged))
        } else {
            (m1, write_at(mem, out_ptr as int, blake3_digest(input)), 0)
        }
    }
}

/// `hash_blake3`.
pub fn hash_blake3_call<S: StateStore>(
    state: &mut HostState<S>,
    mem: &mut [u8],
    in_ptr: i32,
    in_len: i32,
    out_ptr: i32,
    out_len: i32,
) -> (code: i32)
    ensures
        (final(state).model(), final(mem)@, code) == spec_hash_blake3(
            old(state).model(),
            old(mem)@,
            in_ptr,
            in_len,
            out_ptr,
            out_len,
        ),
{
    if out_len != 32 {
        return ErrorCode::BadPointer.as_i32();
    }
    let size = mem.len();
    if validate_range(size, out_ptr, 32).is_err() {
        return ErrorCode::BadPointer.as_i32();
    }
    let input = match read_bytes(mem, in_ptr, in_len) {
        Ok(b) => b,
        Err(_) => {
            return ErrorCode::BadPointer.as_i32();
        },
    };
    let cost = gas_cost_hash_blake3(input.len());
    match state.gas_meter.charge(cost) {
        Ok(_) => {},
        Err(e) => {
            return e.to_error_code();
        },
    }
    let hash = hash_blake3(input.as_slice());
    if write_bytes(mem, out_ptr, hash.as_slice()).is_err() {
        return ErrorCode::BadPointer.as_i32();
    }
    0
}

/// `verify_ed25519`: code 1 for a bad pointer or when the signature is not
/// 64 bytes or the key not 32, 7 when the gas does not suffice, 9 when the
/// key does not decode, 8 when the signature does not verify, 0 when it
/// does.
pub open spec fn spec_verify_ed25519(
    m: HostStateModel,
    mem: Seq<u8>,
    msg_ptr: i32,
    msg_len: i32,
    sig_ptr: i32,
    sig_len: i32,
    pk_ptr: i32,
    pk_len: i32,
) -> (HostStateModel, i32) {
    if !range_valid(mem.len(), msg_ptr, msg_len) || !range_valid(mem.len(), sig_ptr, sig_len)
        || !range_valid(mem.len(), pk_ptr, pk_len) || sig_len != 64 || pk_len != 32 {
        (m, 1)
    } else {
        let msg = guest_bytes(mem, msg_ptr, msg_len);
        let sig = guest_bytes(mem, sig_ptr, sig_len);
        let pk = guest_bytes(mem, pk_ptr, pk_len);
        let (m1, charged) = m.charge(G_VERIFY_ED25519);
        if charged is Err {
            (m1, code_of(charged))
        } else if !ed25519_key_decodes(pk) {
            (m1, 9)
        } else if ed25519_valid(msg, sig, pk) {
            (m1, 0)
        } else {
            (m1, 8)
        }
    }
}

/// `verify_ed25519`.
pub fn verify_ed25519_call<S: StateStore>(
    state: &mut HostState<S>,
    mem: &[u8],
    msg_ptr: i32,
    msg_len: i32,
    sig_ptr: i32,
    sig_len: i32,
    pk_ptr: i32,
    pk_len: i32,
) -> (code: i32)
    ensures
        (final(state).model(), code) == spec_verify_ed25519(
            old(state).model(),
            mem@,
            msg_ptr,
            msg_len,
            sig_ptr,
            sig_len,
            pk_ptr,
            pk_len,
        ),
{
    let msg = match read_bytes(mem, msg_ptr, msg_len) {
        Ok(b) => b,
        Err(_) => {
            return ErrorCode::BadPointer.as_i32();
        },
    };
    let sig_bytes = match read_bytes(mem, sig_ptr, sig_len) {
        Ok(b) => b,
        Err(_) => {
            return ErrorCode::BadPointer.as_i32();
        },
    };
    let pk_bytes = match read_bytes(mem, pk_ptr, pk_len) {
        Ok(b) => b,
        Err(_) => {
            return ErrorCode::BadPointer.as_i32();
        },
    };
    if sig_bytes.len() != 64 || pk_bytes.len() != 32 {
        return ErrorCode::BadPointer.as_i32();
    }
    match state.gas_meter.charge(G_VERIFY_ED25519) {
        Ok(_) => {},
        Err(e) => {
            return e.to_error_code();
        },
    }
    let pk_arr = array32_from(pk_bytes.as_slice(), 0);
    let sig_arr = array64_from(sig_bytes.as_slice(), 0);
    assert(pk_arr@ =~= pk_bytes@);
    assert(sig_arr@ =~= sig_bytes@);
    match check_ed25519(msg.as_slice(), &sig_arr, &pk_arr) {
        None => ErrorCode::CryptoFailed.as_i32(),
        Some(true) => 0,
        Some(false) => ErrorCode::SigInvalid.as_i32(),
    }
}

/// `gas_remaining`: code 1 for a bad pointer, 7 when the gas does not
/// suffice; else the gas left after the charge for this call is written
/// as eight little-endian bytes.
pub open spec fn spec_gas_remaining(m: HostStateModel, mem: Seq<u8>, out_ptr: i32) -> (
    HostStateModel,
    Seq<u8>,
    i32,
) {
    if !range_valid(mem.len(), out_ptr, 8) {
        (m, mem, 1)
    } else {
        let (m1, charged) = m.charge(G_GAS_REMAINING);
        if charged is Err {
            (m1, mem, code_of(charged))
        } else {
            (m1, write_at(mem, out_ptr as int, spec_u64_to_le_bytes(m1.gas.remaining())), 0)
        }
    }
}

/// `gas_remaining`.
pub fn gas_remaining<S: StateStore>(state: &mut HostState<S>, mem: &mut [u8], out_ptr: i32) -> (code:
    i32)
    ensures
        (final(state).model(), final(mem)@, code) == spec_gas_remaining(
            old(state).model(),
            old(mem)@,
            out_ptr,
        ),
{
    let size = mem.len();
    if validate_range(size, out_ptr, 8).is_err() {
        return ErrorCode::BadPointer.as_i32();
    }
    match state.gas_meter.charge(G_GAS_REMAINING) {
        Ok(_) => {},
        Err(e) => {
            return e.to_error_code();
        },
    }
    let remaining = state.gas_meter.remaining();
    let bytes = u64_to_le_bytes(remaining);
    proof {
        vstd::bytes::lemma_auto_spec_u64_to_from_le_bytes();
    }
    if write_bytes(mem, out_ptr, bytes.as_slice()).is_err() {
        return ErrorCode::BadPointer.as_i32();
    }
    0
}

/// `host_free`: nothing is freed; the call costs gas. Code 7 when the gas
/// does not suffice.
pub open spec fn spec_host_free(m: HostStateModel) -> (HostStateModel, i32) {
    let (m1, charged) = m.charge(G_HOST_FREE);
    (m1, code_of(charged))
}

/// `host_free`.
pub fn host_free<S: StateStore>(state: &mut HostState<S>, ptr: i32, len: i32) -> (code: i32)
    ensures
        (final(state).model(), code) == spec_host_free(old(state).model()),
{
    match state.gas_meter.charge(G_HOST_FREE) {
        Ok(_) => 0,
        Err(e) => e.to_error_code(),
    }
}

/// `get_context`, first step: code 1 for a bad pointer, 7 when the gas
/// does not suffice; else the delivery of the encoded context.
pub open spec fn spec_get_context(
    m: HostStateModel,
    mem: Seq<u8>,
    out_ptr_ptr: i32,
    out_len_ptr: i32,
) -> (HostStateModel, HostCallStepView) {
    if !range_valid(mem.len(), out_ptr_ptr, 4) || !range_valid(mem.len(), out_len_ptr, 4) {
        (m, HostCallStepView::Done(1))
    } else {
        let (m1, charged) = m.charge(G_GET_CONTEXT);
        if charged is Err {
            (m1, HostCallStepView::Done(code_of(charged)))
        } else {
            (m1, plan_delivery(m1.alloc, m1.encoded_context, out_ptr_ptr, out_len_ptr))
        }
    }
}

/// `get_context`, first step.
pub fn get_context<S: StateStore>(
    state: &mut HostState<S>,
    mem: &[u8],
    out_ptr_ptr: i32,
    out_len_ptr: i32,
) -> (step: HostCallStep)
    ensures
        (final(state).model(), step@) == spec_get_context(
            old(state).model(),
            mem@,
            out_ptr_ptr,
            out_len_ptr,
        ),
{
    let size = mem.len();
    if validate_range(size, out_ptr_ptr, 4).is_err() || validate_range(size, out_len_ptr, 4).is_err() {
        return HostCallStep::Done(ErrorCode::BadPointer.as_i32());
    }
    match state.gas_meter.charge(G_GET_CONTEXT) {
        Ok(_) => {},
        Err(e) => {
            return HostCallStep::Done(e.to_error_code());
        },
    }
    let ctx_bytes = state.encoded_context.clone();
    make_delivery(&state.host_alloc, ctx_bytes, out_ptr_ptr, out_len_ptr)
}

} // verus!
