//! Deterministic block execution for a BFT chain.
//!
//! `primitives` holds the shared types, the codec, gas accounting, the
//! write overlay and the Merkle commitment. `engine` is the state
//! transition function: it validates a request, runs its transactions
//! against a host, and commits to the resulting state. `hostapi` and
//! `sandbox` are the host's side of the boundary to an untrusted guest:
//! the host state, the host calls on guest memory, and the protocol of one
//! block execution.

pub mod primitives;
pub mod engine;
pub mod hostapi;
pub mod sandbox;
