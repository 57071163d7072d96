//! Validation of a request before any transaction runs.

use vstd::prelude::*;
use crate::primitives::error::{ExecError, ExecErrorView, ExecResult};
use crate::primitives::execution::{ExecutionRequest, ExecutionRequestView};
use crate::primitives::types::API_VERSION;

verus! {

/// The block fields are acceptable: the height is at least 1, the chain
/// identifier is not empty and the gas limit is positive.
pub open spec fn block_fields_valid(req: ExecutionRequestView) -> bool {
    req.block_height != 0 && req.chain_id.len() != 0 && req.limits.gas_limit != 0
}

/// What validation says of a request: the version is checked first, then
/// the block fields.
pub open spec fn validation_result(req: ExecutionRequestView) -> Result<(), ExecErrorView> {
    if req.api_version != API_VERSION {
        Err(ExecErrorView::InvalidApiVersion { expected: API_VERSION, got: req.api_version })
    } else if !block_fields_valid(req) {
        Err(ExecErrorView::InvalidBlock)
    } else {
        Ok(())
    }
}

/// The request is acceptable.
pub open spec fn request_valid(req: ExecutionRequestView) -> bool {
    req.api_version == API_VERSION && block_fields_valid(req)
}

/// Checks that the request speaks this engine's API version.
pub fn validate_api_version(request: &ExecutionRequest) -> (r: ExecResult<()>)
    ensures
        r is Ok <==> request.api_version == API_VERSION,
        r matches Err(e) ==> e == (ExecError::InvalidApiVersion {
            expected: API_VERSION,
            got: request.api_version,
        }),
{
    if request.api_version != API_VERSION {
        return Err(
            ExecError::InvalidApiVersion { expected: API_VERSION, got: request.api_version },
        );
    }
    Ok(())
}

/// Checks the block fields: height at least 1, chain identifier not empty,
/// gas limit positive.
pub fn validate_block_fields(request: &ExecutionRequest) -> (r: ExecResult<()>)
    ensures
        r is Ok <==> block_fields_valid(request@),
        r matches Err(e) ==> e@ == ExecErrorView::InvalidBlock,
{
    if request.block_height == 0 {
        return Err(ExecError::InvalidBlock("block_height must be > 0".to_owned()));
    }
    if request.chain_id.len() == 0 {
        return Err(ExecError::InvalidBlock("chain_id must be non-empty".to_owned()));
    }
    if request.limits.gas_limit == 0 {
        return Err(ExecError::InvalidBlock("gas_limit must be > 0".to_owned()));
    }
    Ok(())
}

/// Validates a request: the API version, then the block fields.
pub fn validate_request(request: &ExecutionRequest) -> (r: ExecResult<()>)
    ensures
        r is Ok <==> request_valid(request@),
        (match r {
            Ok(_) => Ok(()),
            Err(e) => Err(e@),
        }) == validation_result(request@),
{
    match validate_api_version(request) {
        Ok(_) => {},
        Err(e) => {
            return Err(e);
        },
    }
    match validate_block_fields(request) {
        Ok(_) => {},
        Err(e) => {
            return Err(e);
        },
    }
    Ok(())
}

} // verus!
