//! The limits of one block execution on the host side.

use vstd::prelude::*;
use crate::primitives::execution::ExecutionLimits;
use crate::primitives::types::{MAX_KEY_LEN, MAX_VALUE_LEN};

verus! {

/// Limits that the host enforces during one block.
#[derive(Debug, Clone, Copy, PartialEq, Eq, Structural)]
pub struct ExecutionConfig {
    /// Gas available to the block.
    pub gas_limit: u64,
    /// Most events the block may emit.
    pub max_events: u32,
    /// Most bytes the block may write to state.
    pub max_write_bytes: u32,
    /// Longest state key.
    pub max_key_len: usize,
    /// Longest state value.
    pub max_value_len: usize,
    /// Most log lines kept.
    pub max_log_lines: u32,
    /// Longest log line kept, in bytes.
    pub max_log_line_len: usize,
}

impl ExecutionConfig {
    /// The default limits: 10 000 000 gas, 1024 events, 4 MiB of writes,
    /// keys of 256 bytes, values of 64 KiB, 256 log lines of 1024 bytes.
    pub open spec fn spec_default() -> ExecutionConfig {
        ExecutionConfig {
            gas_limit: 10_000_000,
            max_events: 1024,
            max_write_bytes: 4_194_304,
            max_key_len: MAX_KEY_LEN,
            max_value_len: MAX_VALUE_LEN,
            max_log_lines: 256,
            max_log_line_len: 1024,
        }
    }

    /// The limits of a request, with the defaults for everything else.
    pub open spec fn spec_from_limits(limits: ExecutionLimits) -> ExecutionConfig {
        ExecutionConfig {
            gas_limit: limits.gas_limit,
            max_events: limits.max_events,
            max_write_bytes: limits.max_write_bytes,
            ..Self::spec_default()
        }
    }

    /// The limits of a request, with the defaults for everything else.
    pub fn from_limits(limits: &ExecutionLimits) -> (c: ExecutionConfig)
        ensures
            c == Self::spec_from_limits(*limits),
    {
        ExecutionConfig {
            gas_limit: limits.gas_limit,
            max_events: limits.max_events,
            max_write_bytes: limits.max_write_bytes,
            max_key_len: MAX_KEY_LEN,
            max_value_len: MAX_VALUE_LEN,
            max_log_lines: 256,
            max_log_line_len: 1024,
        }
    }
}

impl Default for ExecutionConfig {
    fn default() -> (c: ExecutionConfig)
        ensures
            c == ExecutionConfig::spec_default(),
    {
        ExecutionConfig {
            gas_limit: 10_000_000,
            max_events: 1024,
            max_write_bytes: 4_194_304,
            max_key_len: MAX_KEY_LEN,
            max_value_len: MAX_VALUE_LEN,
            max_log_lines: 256,
            max_log_line_len: 1024,
        }
    }
}

} // verus!
