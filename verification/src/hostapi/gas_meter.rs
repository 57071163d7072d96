//! The host's gas meter: the authoritative counter of a block.

use vstd::prelude::*;
use crate::hostapi::error::HostError;
use crate::primitives::error::ErrorCode;
use crate::primitives::gas::{charge_for_bytes, cost_with_bytes, GasState};

verus! {

/// The host-side gas counter. A charge that does not fit leaves the
/// counter as it was.
#[derive(Debug)]
pub struct HostGasMeter {
    limit: u64,
    consumed: u64,
}

impl View for HostGasMeter {
    type V = GasState;

    closed spec fn view(&self) -> GasState {
        GasState { limit: self.limit, consumed: self.consumed }
    }
}

impl Clone for HostGasMeter {
    fn clone(&self) -> (r: Self)
        ensures
            r@ == self@,
    {
        HostGasMeter { limit: self.limit, consumed: self.consumed }
    }
}

impl HostGasMeter {
    /// A fresh meter with the given limit.
    pub fn new(limit: u64) -> (m: HostGasMeter)
        ensures
            m@ == (GasState { limit, consumed: 0 }),
    {
        HostGasMeter { limit, consumed: 0 }
    }

    /// Charges `amount`; fails with out-of-gas when the total would pass
    /// the limit or overflow.
    pub fn charge(&mut self, amount: u64) -> (r: Result<(), HostError>)
        ensures
            final(self)@ == old(self)@.charge(amount),
            r is Ok <==> old(self)@.can_charge(amount),
            r matches Err(e) ==> e == HostError::Code(ErrorCode::OutOfGas),
    {
        match self.consumed.checked_add(amount) {
            Some(v) => {
                if v <= self.limit {
                    self.consumed = v;
                    return Ok(());
                }
            },
            None => {},
        }
        Err(HostError::out_of_gas())
    }

    /// Charges `base + 3 * byte_count`, saturating.
    pub fn charge_with_bytes(&mut self, base: u64, byte_count: usize) -> (r: Result<(), HostError>)
        ensures
            final(self)@ == old(self)@.charge(cost_with_bytes(base, byte_count as nat)),
            r is Ok <==> old(self)@.can_charge(cost_with_bytes(base, byte_count as nat)),
            r matches Err(e) ==> e == HostError::Code(ErrorCode::OutOfGas),
    {
        let total = charge_for_bytes(base, byte_count);
        self.charge(total)
    }

    /// Gas consumed so far.
    pub fn consumed(&self) -> (r: u64)
        ensures
            r == self@.consumed,
    {
        self.consumed
    }

    /// Gas left before the limit.
    pub fn remaining(&self) -> (r: u64)
        ensures
            r == self@.remaining(),
    {
        self.limit.saturating_sub(self.consumed)
    }

    /// The limit.
    pub fn limit(&self) -> (r: u64)
        ensures
            r == self@.limit,
    {
        self.limit
    }

    /// Whether the limit has been reached.
    pub fn is_exhausted(&self) -> (r: bool)
        ensures
            r == self@.is_exhausted(),
    {
        self.consumed >= self.limit
    }
}

} // verus!
