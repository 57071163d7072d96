//! Errors of the sandbox.

use vstd::prelude::*;
use vstd::string::StringExecFns;
use crate::hostapi::error::{HostError, HostErrorView};

verus! {

/// An error of the sandbox, outside any response.
#[derive(Debug)]
pub enum SandboxError {
    /// The engine failed to compile or instantiate the module.
    Wasmtime(String),
    /// The module's interface is not acceptable.
    ValidationError(String),
    /// A host call failed.
    HostError(HostError),
    /// The guest's `init` returned this code.
    InitFailed(i32),
    /// The guest's `execute_block` returned this code.
    ExecutionFailed(i32),
    /// The response could not be decoded.
    ResponseError(String),
    /// Guest memory could not be read, written or grown.
    MemoryError(String),
    /// The instruction fuel ran out.
    FuelExhausted,
    /// The guest trapped.
    GuestTrapped(String),
}

/// What a [`SandboxError`] says, without its free-text message.
pub enum SandboxErrorView {
    Wasmtime,
    ValidationError,
    HostError(HostErrorView),
    InitFailed(i32),
    ExecutionFailed(i32),
    ResponseError,
    MemoryError,
    FuelExhausted,
    GuestTrapped(Seq<char>),
}

impl View for SandboxError {
    type V = SandboxErrorView;

    open spec fn view(&self) -> SandboxErrorView {
        match *self {
            SandboxError::Wasmtime(_) => SandboxErrorView::Wasmtime,
            SandboxError::ValidationError(_) => SandboxErrorView::ValidationError,
            SandboxError::HostError(e) => SandboxErrorView::HostError(e@),
            SandboxError::InitFailed(c) => SandboxErrorView::InitFailed(c),
            SandboxError::ExecutionFailed(c) => SandboxErrorView::ExecutionFailed(c),
            SandboxError::ResponseError(_) => SandboxErrorView::ResponseError,
            SandboxError::MemoryError(_) => SandboxErrorView::MemoryError,
            SandboxError::FuelExhausted => SandboxErrorView::FuelExhausted,
            SandboxError::GuestTrapped(msg) => SandboxErrorView::GuestTrapped(msg@),
        }
    }
}

impl SandboxError {
    /// A validation error with the given message.
    pub fn validation(message: &str) -> (r: SandboxError)
        ensures
            r@ == SandboxErrorView::ValidationError,
            r matches SandboxError::ValidationError(text) && text@ == message@,
    {
        SandboxError::ValidationError(String::from_str(message))
    }

    /// A validation error whose message is `message` followed by `subject`.
    pub fn validation_of(message: &str, subject: &str) -> (r: SandboxError)
        ensures
            r@ == SandboxErrorView::ValidationError,
            r matches SandboxError::ValidationError(text) && text@ == message@ + subject@,
    {
        SandboxError::ValidationError(String::from_str(message).concat(subject))
    }

    /// A memory error with the given message.
    pub fn memory(message: &str) -> (r: SandboxError)
        ensures
            r@ == SandboxErrorView::MemoryError,
    {
        SandboxError::MemoryError(String::from_str(message))
    }
}

impl From<HostError> for SandboxError {
    fn from(value: HostError) -> (e: SandboxError) {
        SandboxError::HostError(value)
    }
}

impl vstd::std_specs::convert::FromSpecImpl<HostError> for SandboxError {
    open spec fn obeys_from_spec() -> bool {
        true
    }

    open spec fn from_spec(value: HostError) -> SandboxError {
        SandboxError::HostError(value)
    }
}

} // verus!
