//! The host calls as the guest imports them, on Rust values.

use vstd::prelude::*;
use crate::hostapi::error::HostError;

verus! {

/// The host calls of one block execution, after pointers have been turned
/// into slices. An implementation charges gas before it does the work and
/// fails with out-of-gas when the charge does not fit.
pub trait HostApi {
    /// Reads a key: the write buffer first, then committed state.
    fn state_get(&self, key: &[u8]) -> Result<Option<Vec<u8>>, HostError>;

    /// Writes a key to the write buffer, within the size and write limits.
    fn state_set(&mut self, key: &[u8], value: &[u8]) -> Result<(), HostError>;

    /// Records a delete of a key in the write buffer.
    fn state_delete(&mut self, key: &[u8]) -> Result<(), HostError>;

    /// Emits an encoded event, within the event limit.
    fn emit_event(&mut self, event_data: &[u8]) -> Result<(), HostError>;

    /// Writes a log line. The guest must not depend on the outcome.
    fn log(&mut self, level: u32, message: &str) -> Result<(), HostError>;

    /// Writes the BLAKE3 digest of `input` to `output`, which has 32 bytes.
    fn hash_blake3(&self, input: &[u8], output: &mut [u8]) -> Result<(), HostError>;

    /// Verifies an Ed25519 signature.
    fn verify_ed25519(&self, msg: &[u8], sig: &[u8], pk: &[u8]) -> Result<bool, HostError>;

    /// Verifies an aggregated BLS signature.
    fn verify_bls_agg(&self, msg: &[u8], sig: &[u8], pks: &[u8]) -> Result<bool, HostError>;

    /// Gas left before the limit.
    fn gas_remaining(&self) -> Result<u64, HostError>;

    /// The encoded execution context.
    fn get_context(&self) -> Result<Vec<u8>, HostError>;
}

} // verus!
