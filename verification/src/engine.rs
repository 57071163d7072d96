//! The deterministic block execution engine: request validation,
//! transaction processing and the block executor, all written against the
//! host capability contract.

pub mod host;
pub mod validation;
pub mod transaction;
pub mod executor;
pub mod laws;
pub mod guest;

pub use executor::BlockExecutor;
pub use host::{HostInterface, MockHost};
pub use transaction::{DecodedTransaction, TransactionPayload};
