//! The sandbox around the guest: guest-memory access with bounds checks,
//! the host state of one execution, the host calls as the guest makes
//! them, the checks on a guest module's interface, and the protocol of one
//! block execution.

pub mod error;
pub mod config;
pub mod memory;
pub mod host_impl;
pub mod validation;
pub mod linker;
pub mod runtime;
pub mod protocol;

pub use error::SandboxError;
pub use config::SandboxConfig;
