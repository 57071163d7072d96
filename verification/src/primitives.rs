//! Foundational types shared by the engine and the host: identifiers, error
//! codes, gas accounting, the write overlay, the Merkle commitment and the
//! binary codec.

pub mod types;
pub mod error;
pub mod gas;
pub mod block;
pub mod execution;
pub mod crypto;
pub mod bytemap;
pub mod state;
pub mod merkle;
pub mod codec;

pub use types::{Address, BlockHeight, Round, API_VERSION, MAX_KEY_LEN, MAX_VALUE_LEN};
pub use error::{ErrorCode, ExecError, ExecResult};
pub use gas::GasMeter;
pub use execution::{
    Event, EventAttribute, ExecutionContext, ExecutionLimits, ExecutionRequest, ExecutionResponse,
    ExecutionStatus, LogLine, Receipt,
};
pub use block::{Block, BlockHeader, Transaction};
pub use state::{OverlayResult, StateOverlay};
pub use merkle::{MerkleProof, SparseMerkleTree};
