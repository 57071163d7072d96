//! Configuration of the sandbox.

use vstd::prelude::*;
use crate::hostapi::types::ExecutionConfig;

verus! {

/// Bytes in a page of guest memory.
pub const PAGE_SIZE: usize = 65_536;

/// Limits of the sandbox.
#[derive(Debug, Clone, Copy)]
pub struct SandboxConfig {
    /// Most pages of guest memory; a page has 64 KiB.
    pub max_memory_pages: u32,
    /// Instruction fuel of one call into the guest.
    pub fuel_limit: u64,
    /// Limits of the host calls.
    pub execution: ExecutionConfig,
    /// Whether guest logs are collected.
    pub enable_guest_logs: bool,
}

impl Default for SandboxConfig {
    fn default() -> (c: SandboxConfig)
        ensures
            c.max_memory_pages == 256,
            c.fuel_limit == 100_000_000,
            c.execution == ExecutionConfig::spec_default(),
            !c.enable_guest_logs,
    {
        SandboxConfig {
            max_memory_pages: 256,
            fuel_limit: 100_000_000,
            execution: ExecutionConfig::default(),
            enable_guest_logs: false,
        }
    }
}

/// The dense memory image size handed to the engine: the configured
/// maximum in bytes, capped at 16 MiB.
pub fn dense_image_size(config: &SandboxConfig) -> (bytes: u64)
    ensures
        bytes == if config.max_memory_pages * 65_536 <= 16_777_216 {
            config.max_memory_pages * 65_536
        } else {
            16_777_216
        },
{
    let max_bytes = (config.max_memory_pages as u64) * 65_536;
    if max_bytes <= 16_777_216 {
        max_bytes
    } else {
        16_777_216
    }
}

} // verus!
