//! Gas schedule and the gas meter.

use vstd::prelude::*;
use crate::primitives::error::{ExecError, ExecResult};

verus! {

/// Base cost of `state_get`.
pub const G_STATE_GET: u64 = 200;

/// Base cost of `state_set`.
pub const G_STATE_SET: u64 = 500;

/// Base cost of `state_delete`.
pub const G_STATE_DEL: u64 = 300;

/// Cost per byte of key, value or payload.
pub const G_PER_BYTE: u64 = 3;

/// Base cost of `emit_event`.
pub const G_EMIT_EVENT: u64 = 100;

/// Base cost of `hash_blake3`.
pub const G_HASH_BLAKE3: u64 = 50;

/// Cost of `verify_ed25519`.
pub const G_VERIFY_ED25519: u64 = 2000;

/// Cost of `verify_bls_agg`.
pub const G_VERIFY_BLS_AGG: u64 = 5000;

/// Base cost of `log`.
pub const G_LOG: u64 = 10;

/// Cost of `get_context`.
pub const G_GET_CONTEXT: u64 = 50;

/// Cost of `gas_remaining`.
pub const G_GAS_REMAINING: u64 = 5;

/// Cost of `host_free`.
pub const G_HOST_FREE: u64 = 5;

/// `base + 3 * bytes`, capped at `u64::MAX`.
pub open spec fn cost_with_bytes(base: u64, bytes: nat) -> u64 {
    if base + G_PER_BYTE * bytes <= u64::MAX {
        (base + G_PER_BYTE * bytes) as u64
    } else {
        u64::MAX
    }
}

/// Computes `base + 3 * bytes` with saturating arithmetic.
pub fn charge_for_bytes(base: u64, bytes: usize) -> (cost: u64)
    ensures
        cost == cost_with_bytes(base, bytes as nat),
{
    let byte_cost = match (bytes as u64).checked_mul(G_PER_BYTE) {
        Some(v) => v,
        None => u64::MAX,
    };
    base.saturating_add(byte_cost)
}

/// Gas for reading a key of `key_len` bytes.
pub fn gas_cost_state_get(key_len: usize) -> (cost: u64)
    ensures
        cost == cost_with_bytes(G_STATE_GET, key_len as nat),
{
    charge_for_bytes(G_STATE_GET, key_len)
}

/// Gas for writing a key of `key_len` bytes with a value of `val_len` bytes.
pub fn gas_cost_state_set(key_len: usize, val_len: usize) -> (cost: u64)
    requires
        key_len + val_len <= usize::MAX,
    ensures
        cost == cost_with_bytes(G_STATE_SET, (key_len + val_len) as nat),
{
    charge_for_bytes(G_STATE_SET, key_len + val_len)
}

/// Gas for deleting a key of `key_len` bytes.
pub fn gas_cost_state_delete(key_len: usize) -> (cost: u64)
    ensures
        cost == cost_with_bytes(G_STATE_DEL, key_len as nat),
{
    charge_for_bytes(G_STATE_DEL, key_len)
}

/// Gas for emitting an event whose encoding has `event_len` bytes.
pub fn gas_cost_emit_event(event_len: usize) -> (cost: u64)
    ensures
        cost == cost_with_bytes(G_EMIT_EVENT, event_len as nat),
{
    charge_for_bytes(G_EMIT_EVENT, event_len)
}

/// Gas for logging a message of `msg_len` bytes.
pub fn gas_cost_log(msg_len: usize) -> (cost: u64)
    ensures
        cost == cost_with_bytes(G_LOG, msg_len as nat),
{
    charge_for_bytes(G_LOG, msg_len)
}

/// Gas for hashing `input_len` bytes with BLAKE3.
pub fn gas_cost_hash_blake3(input_len: usize) -> (cost: u64)
    ensures
        cost == cost_with_bytes(G_HASH_BLAKE3, input_len as nat),
{
    charge_for_bytes(G_HASH_BLAKE3, input_len)
}

/// A gas counter: `consumed` never exceeds `limit`.
#[derive(Debug)]
pub struct GasMeter {
    limit: u64,
    consumed: u64,
}

/// The mathematical state of a gas counter.
pub struct GasState {
    pub limit: u64,
    pub consumed: u64,
}

impl GasState {
    /// A charge succeeds exactly when the new total stays within the limit.
    pub open spec fn can_charge(self, amount: u64) -> bool {
        self.consumed + amount <= self.limit
    }

    /// The counter after a charge: advanced when it fits, unchanged when not.
    pub open spec fn charge(self, amount: u64) -> GasState {
        if self.can_charge(amount) {
            GasState { limit: self.limit, consumed: (self.consumed + amount) as u64 }
        } else {
            self
        }
    }

    /// The usage reported with an out-of-gas error.
    pub open spec fn attempted(self, amount: u64) -> u64 {
        if self.consumed + amount <= u64::MAX {
            (self.consumed + amount) as u64
        } else {
            u64::MAX
        }
    }

    /// The gas still available.
    pub open spec fn remaining(self) -> u64 {
        if self.consumed <= self.limit {
            (self.limit - self.consumed) as u64
        } else {
            0
        }
    }

    /// Whether nothing is left.
    pub open spec fn is_exhausted(self) -> bool {
        self.consumed >= self.limit
    }
}

impl View for GasMeter {
    type V = GasState;

    closed spec fn view(&self) -> GasState {
        GasState { limit: self.limit, consumed: self.consumed }
    }
}

impl Clone for GasMeter {
    fn clone(&self) -> (r: Self)
        ensures
            r@ == self@,
    {
        GasMeter { limit: self.limit, consumed: self.consumed }
    }
}

impl GasMeter {
    /// A fresh meter with the given limit.
    pub fn new(limit: u64) -> (m: GasMeter)
        ensures
            m@ == (GasState { limit, consumed: 0 }),
    {
        GasMeter { limit, consumed: 0 }
    }

    /// A fresh meter whose limit is `u64::MAX`.
    pub fn unlimited() -> (m: GasMeter)
        ensures
            m@ == (GasState { limit: u64::MAX, consumed: 0 }),
    {
        GasMeter { limit: u64::MAX, consumed: 0 }
    }

    /// Charges `amount`. On failure the meter is left as it was.
    pub fn consume(&mut self, amount: u64) -> (r: ExecResult<()>)
        ensures
            final(self)@ == old(self)@.charge(amount),
            r is Ok <==> old(self)@.can_charge(amount),
            r matches Err(e) ==> e == (ExecError::OutOfGas {
                limit: old(self)@.limit,
                used: old(self)@.attempted(amount),
            }),
    {
        match self.consumed.checked_add(amount) {
            Some(v) => {
                if v <= self.limit {
                    self.consumed = v;
                    return Ok(());
                }
            },
            None => {},
        }
        Err(ExecError::OutOfGas { limit: self.limit, used: self.consumed.saturating_add(amount) })
    }

    /// Charges `base + 3 * byte_count`, saturating.
    pub fn consume_with_bytes(&mut self, base: u64, byte_count: usize) -> (r: ExecResult<()>)
        ensures
            final(self)@ == old(self)@.charge(cost_with_bytes(base, byte_count as nat)),
            r is Ok <==> old(self)@.can_charge(cost_with_bytes(base, byte_count as nat)),
            r matches Err(e) ==> e == (ExecError::OutOfGas {
                limit: old(self)@.limit,
                used: old(self)@.attempted(cost_with_bytes(base, byte_count as nat)),
            }),
    {
        let total = charge_for_bytes(base, byte_count);
        self.consume(total)
    }

    /// Gas consumed so far.
    pub fn consumed(&self) -> (r: u64)
        ensures
            r == self@.consumed,
    {
        self.consumed
    }

    /// Gas left before the limit.
    pub fn remaining(&self) -> (r: u64)
        ensures
            r == self@.remaining(),
    {
        self.limit.saturating_sub(self.consumed)
    }

    /// The limit.
    pub fn limit(&self) -> (r: u64)
        ensures
            r == self@.limit,
    {
        self.limit
    }

    /// Whether the limit has been reached.
    pub fn is_exhausted(&self) -> (r: bool)
        ensures
            r == self@.is_exhausted(),
    {
        self.consumed >= self.limit
    }
}

} // verus!
