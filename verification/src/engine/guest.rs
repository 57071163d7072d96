//! The guest's side of the boundary, as far as it decides anything: the
//! checks on the arguments of the exported functions, the version
//! handshake, the run of a block from request bytes to response bytes,
//! and the reading of the codes that host calls return.

use vstd::prelude::*;
use vstd::bytes::spec_u32_from_le_bytes;
use crate::engine::executor::{spec_execute_block, BlockExecutor};
use crate::engine::host::HostInterface;
use crate::primitives::codec::{
    decode_execution_context, decode_execution_request, encode_execution_response, parse_context,
    parse_request, ser_response,
};
use crate::primitives::error::{ErrorCode, ExecError, ExecErrorView, ExecResult};
use crate::primitives::execution::ExecutionContext;
use crate::primitives::types::API_VERSION;

verus! {

/// The code of `init` for a version argument: bad-pointer when the pointer
/// is null or the length is not 4.
pub fn check_init_arguments(version_ptr: i32, version_len: i32) -> (r: Result<(), i32>)
    ensures
        r is Ok <==> version_len == 4 && version_ptr != 0,
        r matches Err(code) ==> code == 1,
{
    if version_len != 4 || version_ptr == 0 {
        return Err(ErrorCode::BadPointer.as_i32());
    }
    Ok(())
}

/// The code of `init` for the host's version, four little-endian bytes: 0
/// when it is this engine's version, else invalid-encoding.
pub fn init_result(version_bytes: &[u8; 4]) -> (code: i32)
    ensures
        code == if spec_u32_from_le_bytes(version_bytes@) == API_VERSION {
            0i32
        } else {
            2i32
        },
{
    let host_version = vstd::bytes::u32_from_le_bytes(version_bytes.as_slice());
    if host_version != API_VERSION {
        return ErrorCode::InvalidEncoding.as_i32();
    }
    0
}

/// The code of `execute_block` for its four arguments: bad-pointer when a
/// pointer is null or the request length is not positive.
pub fn check_execute_arguments(req_ptr: i32, req_len: i32, resp_ptr_ptr: i32, resp_len_ptr: i32) -> (r:
    Result<(), i32>)
    ensures
        r is Ok <==> req_ptr != 0 && req_len > 0 && resp_ptr_ptr != 0 && resp_len_ptr != 0,
        r matches Err(code) ==> code == 1,
{
    if req_ptr == 0 || req_len <= 0 || resp_ptr_ptr == 0 || resp_len_ptr == 0 {
        return Err(ErrorCode::BadPointer.as_i32());
    }
    Ok(())
}

/// Runs a block from request bytes to response bytes. Bytes that hold no
/// request give the invalid-encoding code, 2, and leave the host as it
/// was; else the block is executed and its response encoded.
pub fn execute_request<H: HostInterface>(req_bytes: &[u8], host: &mut H) -> (r: Result<Vec<u8>, i32>)
    ensures
        r is Ok <==> parse_request(req_bytes@) is Some,
        r matches Err(code) ==> code == 2 && final(host).model() == old(host).model(),
        r matches Ok(bytes) ==> (final(host).model(), bytes@) == (
            spec_execute_block(parse_request(req_bytes@)->Some_0.0, old(host).model()).0,
            ser_response(
                spec_execute_block(parse_request(req_bytes@)->Some_0.0, old(host).model()).1,
            ),
        ),
{
    let request = match decode_execution_request(req_bytes) {
        Ok(req) => req,
        Err(_) => {
            return Err(ErrorCode::InvalidEncoding.as_i32());
        },
    };
    let response = BlockExecutor::execute_block(&request, host);
    Ok(encode_execution_response(&response))
}

/// What the code of a host call means: 0 is success, a known code is that
/// host error, and an unknown code is an internal error.
pub open spec fn host_result(code: i32) -> Result<(), ExecErrorView> {
    if code == 0 {
        Ok(())
    } else {
        match ErrorCode::spec_from_i32(code) {
            Some(c) => Err(ExecErrorView::HostError(c)),
            None => Err(ExecErrorView::HostError(ErrorCode::Internal)),
        }
    }
}

/// Reads the code that a host call returned.
pub fn check_host_result(code: i32) -> (r: ExecResult<()>)
    ensures
        (match r {
            Ok(_) => Ok(()),
            Err(e) => Err(e@),
        }) == host_result(code),
{
    if code == 0 {
        return Ok(());
    }
    let error_code = match ErrorCode::from_i32(code) {
        Some(c) => c,
        None => ErrorCode::Internal,
    };
    Err(ExecError::HostError(error_code))
}

/// Reads the code that `verify_ed25519` returned: 0 is a valid signature,
/// 8 an invalid one, and any other code is an error.
pub fn verify_result(code: i32) -> (r: ExecResult<bool>)
    ensures
        code == 0 ==> r == Ok::<bool, ExecError>(true),
        code == 8 ==> r == Ok::<bool, ExecError>(false),
        code != 0 && code != 8 ==> r is Err && Err::<(), ExecErrorView>(r->Err_0@) == host_result(
            code,
        ),
{
    if code == 0 {
        Ok(true)
    } else if code == 8 {
        Ok(false)
    } else {
        match check_host_result(code) {
            Ok(_) => Err(ExecError::HostError(ErrorCode::Internal)),
            Err(e) => Err(e),
        }
    }
}

/// Decodes the context that `get_context` handed over. An empty buffer and
/// bytes that hold no context are encoding errors.
pub fn context_from_host(out_ptr: i32, out_len: i32, data: &[u8]) -> (r: ExecResult<
    ExecutionContext,
>)
    ensures
        r is Ok <==> out_len > 0 && out_ptr != 0 && parse_context(data@) is Some,
        r matches Ok(ctx) ==> parse_context(data@)->Some_0.0 == ctx@,
        r matches Err(e) ==> e@ == ExecErrorView::SerializationError,
{
    if out_len <= 0 || out_ptr == 0 {
        return Err(ExecError::SerializationError("get_context returned empty data".to_owned()));
    }
    decode_execution_context(data)
}

} // verus!
