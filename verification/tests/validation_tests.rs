use bedrock::engine::validation::{validate_api_version, validate_block_fields, validate_request};
use bedrock::primitives::error::ExecError;
use bedrock::primitives::execution::{ExecutionLimits, ExecutionRequest};
use bedrock::primitives::types::{API_VERSION, ZERO_HASH};

fn valid_request() -> ExecutionRequest {
    ExecutionRequest {
        api_version: API_VERSION,
        chain_id: b"bedrock-test".to_vec(),
        block_height: 1,
        block_time: 1_700_000_000,
        block_hash: ZERO_HASH,
        prev_state_root: ZERO_HASH,
        transactions: Vec::new(),
        limits: ExecutionLimits::default(),
        execution_seed: None,
    }
}

#[test]
fn test_valid_request_passes() {
    assert!(validate_request(&valid_request()).is_ok());
}

#[test]
fn test_invalid_api_version() {
    let mut req = valid_request();
    req.api_version = 999;
    let err = validate_request(&req).unwrap_err();
    assert!(matches!(err, ExecError::InvalidApiVersion { expected: 1, got: 999 }));
}

#[test]
fn test_zero_block_height() {
    let mut req = valid_request();
    req.block_height = 0;
    let err = validate_request(&req).unwrap_err();
    assert!(matches!(err, ExecError::InvalidBlock(_)));
}

#[test]
fn test_empty_chain_id() {
    let mut req = valid_request();
    req.chain_id = Vec::new();
    let err = validate_request(&req).unwrap_err();
    assert!(matches!(err, ExecError::InvalidBlock(_)));
}

#[test]
fn test_zero_gas_limit() {
    let mut req = valid_request();
    req.limits.gas_limit = 0;
    let err = validate_request(&req).unwrap_err();
    assert!(matches!(err, ExecError::InvalidBlock(_)));
}

#[test]
fn test_api_version_standalone() {
    let req = valid_request();
    assert!(validate_api_version(&req).is_ok());

    let mut bad = valid_request();
    bad.api_version = 0;
    assert!(validate_api_version(&bad).is_err());
}

#[test]
fn test_block_fields_standalone() {
    let req = valid_request();
    assert!(validate_block_fields(&req).is_ok());
}

#[test]
fn test_high_block_height_valid() {
    let mut req = valid_request();
    req.block_height = u64::MAX;
    assert!(validate_request(&req).is_ok());
}

#[test]
fn test_with_transactions_valid() {
    let mut req = valid_request();
    req.transactions = vec![b"tx1".to_vec(), b"tx2".to_vec()];
    assert!(validate_request(&req).is_ok());
}

#[test]
fn version_is_checked_before_the_block_fields() {
    let mut req = valid_request();
    req.api_version = 2;
    req.block_height = 0;
    req.chain_id = Vec::new();
    assert_eq!(
        validate_request(&req).unwrap_err(),
        ExecError::InvalidApiVersion { expected: 1, got: 2 }
    );
    assert!(matches!(validate_block_fields(&req), Err(ExecError::InvalidBlock(_))));
}
