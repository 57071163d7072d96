//! The error type of host calls.

use vstd::prelude::*;
use vstd::string::StringExecFns;
use crate::primitives::error::ErrorCode;

verus! {

/// An error of a host call. The guest sees only its code.
#[derive(Debug, Clone)]
pub enum HostError {
    /// One of the codes of the guest ABI.
    Code(ErrorCode),
    /// A failure inside the host; the guest sees code 10.
    Internal(String),
}

/// What a [`HostError`] says, without its free-text message.
pub enum HostErrorView {
    Code(ErrorCode),
    Internal,
}

impl View for HostError {
    type V = HostErrorView;

    open spec fn view(&self) -> HostErrorView {
        match *self {
            HostError::Code(c) => HostErrorView::Code(c),
            HostError::Internal(_) => HostErrorView::Internal,
        }
    }
}

impl HostErrorView {
    /// The code that the guest sees.
    pub open spec fn code(self) -> i32 {
        match self {
            HostErrorView::Code(c) => c.spec_as_i32(),
            HostErrorView::Internal => 10,
        }
    }
}

impl HostError {
    /// The text shown to operators.
    pub open spec fn spec_text(self) -> Seq<char> {
        match self {
            HostError::Code(c) => "host error: "@ + c.spec_name(),
            HostError::Internal(msg) => "internal host error: "@ + msg@,
        }
    }

    /// The code returned to the guest.
    pub fn to_error_code(&self) -> (code: i32)
        ensures
            code == self@.code(),
            0 <= code <= 10,
    {
        match self {
            HostError::Code(c) => c.as_i32(),
            HostError::Internal(_) => ErrorCode::Internal.as_i32(),
        }
    }

    /// Out of gas, code 7.
    pub fn out_of_gas() -> (e: HostError)
        ensures
            e == HostError::Code(ErrorCode::OutOfGas),
    {
        HostError::Code(ErrorCode::OutOfGas)
    }

    /// Bad pointer, code 1.
    pub fn bad_pointer() -> (e: HostError)
        ensures
            e == HostError::Code(ErrorCode::BadPointer),
    {
        HostError::Code(ErrorCode::BadPointer)
    }

    /// Key too large, code 3.
    pub fn key_too_large() -> (e: HostError)
        ensures
            e == HostError::Code(ErrorCode::KeyTooLarge),
    {
        HostError::Code(ErrorCode::KeyTooLarge)
    }

    /// Value too large, code 4.
    pub fn value_too_large() -> (e: HostError)
        ensures
            e == HostError::Code(ErrorCode::ValueTooLarge),
    {
        HostError::Code(ErrorCode::ValueTooLarge)
    }

    /// Write limit reached, code 5.
    pub fn write_limit() -> (e: HostError)
        ensures
            e == HostError::Code(ErrorCode::WriteLimit),
    {
        HostError::Code(ErrorCode::WriteLimit)
    }

    /// Event limit reached, code 6.
    pub fn event_limit() -> (e: HostError)
        ensures
            e == HostError::Code(ErrorCode::EventLimit),
    {
        HostError::Code(ErrorCode::EventLimit)
    }

    /// Signature invalid, code 8.
    pub fn sig_invalid() -> (e: HostError)
        ensures
            e == HostError::Code(ErrorCode::SigInvalid),
    {
        HostError::Code(ErrorCode::SigInvalid)
    }

    /// Cryptography failed, code 9.
    pub fn crypto_failed() -> (e: HostError)
        ensures
            e == HostError::Code(ErrorCode::CryptoFailed),
    {
        HostError::Code(ErrorCode::CryptoFailed)
    }

    /// Invalid encoding, code 2.
    pub fn invalid_encoding() -> (e: HostError)
        ensures
            e == HostError::Code(ErrorCode::InvalidEncoding),
    {
        HostError::Code(ErrorCode::InvalidEncoding)
    }

    /// The text shown to operators.
    pub fn to_string(&self) -> (s: String)
        ensures
            s@ == self.spec_text(),
    {
        match self {
            HostError::Code(c) => {
                let name = c.to_string();
                String::from_str("host error: ").concat(name.as_str())
            },
            HostError::Internal(msg) => String::from_str("internal host error: ").concat(
                msg.as_str(),
            ),
        }
    }
}

impl From<ErrorCode> for HostError {
    fn from(value: ErrorCode) -> (e: HostError) {
        HostError::Code(value)
    }
}

impl vstd::std_specs::convert::FromSpecImpl<ErrorCode> for HostError {
    open spec fn obeys_from_spec() -> bool {
        true
    }

    open spec fn from_spec(value: ErrorCode) -> HostError {
        HostError::Code(value)
    }
}

} // verus!
