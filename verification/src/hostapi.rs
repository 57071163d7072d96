//! The host side of the execution boundary: the host's error type and gas
//! meter, the committed-state store, and the limits of one execution.

pub mod error;
pub mod types;
pub mod gas_meter;
pub mod state_store;
pub mod mem_store;
pub mod traits;

pub use error::HostError;
pub use types::ExecutionConfig;
pub use gas_meter::HostGasMeter;
pub use state_store::StateStore;
pub use mem_store::MemStore;
pub use traits::HostApi;
