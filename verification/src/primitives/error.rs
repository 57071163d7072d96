//! Host-call error codes and the engine's error type.

use vstd::prelude::*;
use vstd::string::StringExecFns;

verus! {

/// Numeric error codes returned by host calls. The numbers are part of the
/// guest ABI and never change.
#[derive(Debug, Clone, Copy, PartialEq, Eq, Hash, Structural)]
pub enum ErrorCode {
    Success,
    BadPointer,
    InvalidEncoding,
    KeyTooLarge,
    ValueTooLarge,
    WriteLimit,
    EventLimit,
    OutOfGas,
    SigInvalid,
    CryptoFailed,
    Internal,
}

impl ErrorCode {
    /// The number bound to each code.
    pub open spec fn spec_as_i32(self) -> i32 {
        match self {
            ErrorCode::Success => 0,
            ErrorCode::BadPointer => 1,
            ErrorCode::InvalidEncoding => 2,
            ErrorCode::KeyTooLarge => 3,
            ErrorCode::ValueTooLarge => 4,
            ErrorCode::WriteLimit => 5,
            ErrorCode::EventLimit => 6,
            ErrorCode::OutOfGas => 7,
            ErrorCode::SigInvalid => 8,
            ErrorCode::CryptoFailed => 9,
            ErrorCode::Internal => 10,
        }
    }

    /// The code bound to a number, if any.
    pub open spec fn spec_from_i32(code: i32) -> Option<ErrorCode> {
        if code == 0 {
            Some(ErrorCode::Success)
        } else if code == 1 {
            Some(ErrorCode::BadPointer)
        } else if code == 2 {
            Some(ErrorCode::InvalidEncoding)
        } else if code == 3 {
            Some(ErrorCode::KeyTooLarge)
        } else if code == 4 {
            Some(ErrorCode::ValueTooLarge)
        } else if code == 5 {
            Some(ErrorCode::WriteLimit)
        } else if code == 6 {
            Some(ErrorCode::EventLimit)
        } else if code == 7 {
            Some(ErrorCode::OutOfGas)
        } else if code == 8 {
            Some(ErrorCode::SigInvalid)
        } else if code == 9 {
            Some(ErrorCode::CryptoFailed)
        } else if code == 10 {
            Some(ErrorCode::Internal)
        } else {
            None
        }
    }

    /// The symbolic name of each code.
    pub open spec fn spec_name(self) -> Seq<char> {
        match self {
            ErrorCode::Success => "OK"@,
            ErrorCode::BadPointer => "ERR_BAD_POINTER"@,
            ErrorCode::InvalidEncoding => "ERR_INVALID_ENCODING"@,
            ErrorCode::KeyTooLarge => "ERR_KEY_TOO_LARGE"@,
            ErrorCode::ValueTooLarge => "ERR_VALUE_TOO_LARGE"@,
            ErrorCode::WriteLimit => "ERR_WRITE_LIMIT"@,
            ErrorCode::EventLimit => "ERR_EVENT_LIMIT"@,
            ErrorCode::OutOfGas => "ERR_OUT_OF_GAS"@,
            ErrorCode::SigInvalid => "ERR_SIG_INVALID"@,
            ErrorCode::CryptoFailed => "ERR_CRYPTO_FAILED"@,
            ErrorCode::Internal => "ERR_INTERNAL"@,
        }
    }

    /// Converts the number returned by a host call into its code.
    pub fn from_i32(code: i32) -> (r: Option<ErrorCode>)
        ensures
            r == Self::spec_from_i32(code),
            r is Some <==> 0 <= code <= 10,
            r matches Some(c) ==> c.spec_as_i32() == code,
    {
        match code {
            0 => Some(ErrorCode::Success),
            1 => Some(ErrorCode::BadPointer),
            2 => Some(ErrorCode::InvalidEncoding),
            3 => Some(ErrorCode::KeyTooLarge),
            4 => Some(ErrorCode::ValueTooLarge),
            5 => Some(ErrorCode::WriteLimit),
            6 => Some(ErrorCode::EventLimit),
            7 => Some(ErrorCode::OutOfGas),
            8 => Some(ErrorCode::SigInvalid),
            9 => Some(ErrorCode::CryptoFailed),
            10 => Some(ErrorCode::Internal),
            _ => None,
        }
    }

    /// The number of this code.
    pub fn as_i32(self) -> (r: i32)
        ensures
            r == self.spec_as_i32(),
            0 <= r <= 10,
    {
        match self {
            ErrorCode::Success => 0,
            ErrorCode::BadPointer => 1,
            ErrorCode::InvalidEncoding => 2,
            ErrorCode::KeyTooLarge => 3,
            ErrorCode::ValueTooLarge => 4,
            ErrorCode::WriteLimit => 5,
            ErrorCode::EventLimit => 6,
            ErrorCode::OutOfGas => 7,
            ErrorCode::SigInvalid => 8,
            ErrorCode::CryptoFailed => 9,
            ErrorCode::Internal => 10,
        }
    }

    /// Whether this is the success code.
    pub fn is_ok(self) -> (r: bool)
        ensures
            r == (self == ErrorCode::Success),
            r == (self.spec_as_i32() == 0),
    {
        match self {
            ErrorCode::Success => true,
            _ => false,
        }
    }

    /// The symbolic name of this code, as shown to operators.
    pub fn to_string(&self) -> (s: String)
        ensures
            s@ == self.spec_name(),
    {
        match self {
            ErrorCode::Success => "OK".to_owned(),
            ErrorCode::BadPointer => "ERR_BAD_POINTER".to_owned(),
            ErrorCode::InvalidEncoding => "ERR_INVALID_ENCODING".to_owned(),
            ErrorCode::KeyTooLarge => "ERR_KEY_TOO_LARGE".to_owned(),
            ErrorCode::ValueTooLarge => "ERR_VALUE_TOO_LARGE".to_owned(),
            ErrorCode::WriteLimit => "ERR_WRITE_LIMIT".to_owned(),
            ErrorCode::EventLimit => "ERR_EVENT_LIMIT".to_owned(),
            ErrorCode::OutOfGas => "ERR_OUT_OF_GAS".to_owned(),
            ErrorCode::SigInvalid => "ERR_SIG_INVALID".to_owned(),
            ErrorCode::CryptoFailed => "ERR_CRYPTO_FAILED".to_owned(),
            ErrorCode::Internal => "ERR_INTERNAL".to_owned(),
        }
    }
}

/// Every code converts to its number and back, and no two codes share a
/// number.
pub proof fn lemma_error_code_numbers(a: ErrorCode, b: ErrorCode)
    ensures
        ErrorCode::spec_from_i32(a.spec_as_i32()) == Some(a),
        a.spec_as_i32() == b.spec_as_i32() ==> a == b,
        0 <= a.spec_as_i32() <= 10,
{
}

/// Errors raised inside the execution engine.
#[derive(Debug, Clone, PartialEq, Eq)]
pub enum ExecError {
    /// A host call failed with this code.
    HostError(ErrorCode),
    /// Bytes could not be decoded.
    SerializationError(String),
    /// The request speaks another API version.
    InvalidApiVersion { expected: u32, got: u32 },
    /// A block or transaction rule was broken.
    InvalidBlock(String),
    /// The gas limit would be exceeded.
    OutOfGas { limit: u64, used: u64 },
    /// A Merkle operation failed.
    MerkleError(String),
    /// A failure inside the engine.
    Internal(String),
}

/// What an [`ExecError`] says, without its free-text message.
pub enum ExecErrorView {
    HostError(ErrorCode),
    SerializationError,
    InvalidApiVersion { expected: u32, got: u32 },
    InvalidBlock,
    OutOfGas { limit: u64, used: u64 },
    MerkleError,
    Internal,
}

impl View for ExecError {
    type V = ExecErrorView;

    open spec fn view(&self) -> ExecErrorView {
        match *self {
            ExecError::HostError(c) => ExecErrorView::HostError(c),
            ExecError::SerializationError(_) => ExecErrorView::SerializationError,
            ExecError::InvalidApiVersion { expected, got } => ExecErrorView::InvalidApiVersion {
                expected,
                got,
            },
            ExecError::InvalidBlock(_) => ExecErrorView::InvalidBlock,
            ExecError::OutOfGas { limit, used } => ExecErrorView::OutOfGas { limit, used },
            ExecError::MerkleError(_) => ExecErrorView::MerkleError,
            ExecError::Internal(_) => ExecErrorView::Internal,
        }
    }
}

impl ExecErrorView {
    /// The receipt result code under which a transaction that failed with
    /// this error is reported: the code of a host error, 7 for out of gas,
    /// 1 for a broken rule, 2 for an encoding error, 10 for anything else.
    pub open spec fn result_code(self) -> u32 {
        match self {
            ExecErrorView::HostError(c) => c.spec_as_i32() as u32,
            ExecErrorView::OutOfGas { .. } => 7,
            ExecErrorView::InvalidBlock => 1,
            ExecErrorView::SerializationError => 2,
            _ => 10,
        }
    }
}

/// The decimal digits of a number, most significant first.
pub open spec fn decimal_digits(n: nat) -> Seq<char>
    decreases n,
{
    if n < 10 {
        seq![(48 + n) as char]
    } else {
        decimal_digits(n / 10).push((48 + n % 10) as char)
    }
}

/// A number in decimal. Formats with the standard library's `Display` for
/// `u64`, which writes the decimal digits without sign or padding.
#[verifier::external_body]
pub(crate) fn decimal(n: u64) -> (s: String)
    ensures
        s@ == decimal_digits(n as nat),
{
    format!("{}", n)
}

impl ExecError {
    /// The text shown to operators.
    pub open spec fn spec_text(self) -> Seq<char> {
        match self {
            ExecError::HostError(code) => "host error: "@ + code.spec_name(),
            ExecError::SerializationError(msg) => "serialization error: "@ + msg@,
            ExecError::InvalidApiVersion { expected, got } => "API version mismatch: expected "@
                + decimal_digits(expected as nat) + ", got "@ + decimal_digits(got as nat),
            ExecError::InvalidBlock(msg) => "invalid block: "@ + msg@,
            ExecError::OutOfGas { limit, used } => "out of gas: limit="@ + decimal_digits(
                limit as nat,
            ) + ", used="@ + decimal_digits(used as nat),
            ExecError::MerkleError(msg) => "merkle error: "@ + msg@,
            ExecError::Internal(msg) => "internal error: "@ + msg@,
        }
    }

    /// The text shown to operators.
    pub fn to_string(&self) -> (s: String)
        ensures
            s@ == self.spec_text(),
    {
        match self {
            ExecError::HostError(code) => String::from_str("host error: ").concat(
                code.to_string().as_str(),
            ),
            ExecError::SerializationError(msg) => String::from_str("serialization error: ").concat(
                msg.as_str(),
            ),
            ExecError::InvalidApiVersion { expected, got } => String::from_str(
                "API version mismatch: expected ",
            ).concat(decimal(*expected as u64).as_str()).concat(", got ").concat(
                decimal(*got as u64).as_str(),
            ),
            ExecError::InvalidBlock(msg) => String::from_str("invalid block: ").concat(
                msg.as_str(),
            ),
            ExecError::OutOfGas { limit, used } => String::from_str("out of gas: limit=").concat(
                decimal(*limit).as_str(),
            ).concat(", used=").concat(decimal(*used).as_str()),
            ExecError::MerkleError(msg) => String::from_str("merkle error: ").concat(msg.as_str()),
            ExecError::Internal(msg) => String::from_str("internal error: ").concat(msg.as_str()),
        }
    }

    /// The receipt result code under which a transaction that failed with
    /// this error is reported.
    pub fn result_code(&self) -> (r: u32)
        ensures
            r == self@.result_code(),
    {
        match self {
            ExecError::HostError(c) => c.as_i32() as u32,
            ExecError::OutOfGas { .. } => 7,
            ExecError::InvalidBlock(_) => 1,
            ExecError::SerializationError(_) => 2,
            _ => 10,
        }
    }
}

/// Result type of the execution layer.
pub type ExecResult<T> = Result<T, ExecError>;

impl From<ErrorCode> for ExecError {
    fn from(value: ErrorCode) -> (e: ExecError) {
        ExecError::HostError(value)
    }
}

impl vstd::std_specs::convert::FromSpecImpl<ErrorCode> for ExecError {
    open spec fn obeys_from_spec() -> bool {
        true
    }

    open spec fn from_spec(value: ErrorCode) -> ExecError {
        ExecError::HostError(value)
    }
}

} // verus!
