use bedrock::engine::executor::BlockExecutor;
use bedrock::engine::guest::{
    check_execute_arguments, check_host_result, check_init_arguments, context_from_host,
    execute_request, init_result, verify_result,
};
use bedrock::engine::host::{HostInterface, MockHost};
use bedrock::engine::transaction::{balance_key, encode_transfer_tx};
use bedrock::primitives::bytemap::ByteMap;
use bedrock::primitives::codec::{
    decode_execution_response, encode_execution_context, encode_execution_request,
    encode_execution_response,
};
use bedrock::primitives::error::{ErrorCode, ExecError};
use bedrock::primitives::execution::{
    ExecutionContext, ExecutionLimits, ExecutionRequest, ExecutionStatus,
};
use bedrock::primitives::types::{API_VERSION, ZERO_HASH};

fn context() -> ExecutionContext {
    ExecutionContext {
        chain_id: b"test-chain".to_vec(),
        block_height: 1,
        block_time: 1_700_000_000,
        block_hash: ZERO_HASH,
        gas_limit: 10_000_000,
        max_events: 1024,
        max_write_bytes: 4 * 1024 * 1024,
        api_version: API_VERSION,
        execution_seed: None,
    }
}

#[test]
fn init_handshake() {
    assert_eq!(check_init_arguments(16, 4), Ok(()));
    assert_eq!(check_init_arguments(0, 4), Err(1));
    assert_eq!(check_init_arguments(16, 3), Err(1));
    assert_eq!(check_init_arguments(16, 5), Err(1));
    assert_eq!(init_result(&[1, 0, 0, 0]), 0);
    assert_eq!(init_result(&[2, 0, 0, 0]), 2);
    assert_eq!(init_result(&[1, 0, 0, 1]), 2);
}

#[test]
fn execute_arguments() {
    assert_eq!(check_execute_arguments(8, 1, 16, 20), Ok(()));
    assert_eq!(check_execute_arguments(0, 1, 16, 20), Err(1));
    assert_eq!(check_execute_arguments(8, 0, 16, 20), Err(1));
    assert_eq!(check_execute_arguments(8, -1, 16, 20), Err(1));
    assert_eq!(check_execute_arguments(8, 1, 0, 20), Err(1));
    assert_eq!(check_execute_arguments(8, 1, 16, 0), Err(1));
}

#[test]
fn host_codes_read_back() {
    assert_eq!(check_host_result(0), Ok(()));
    assert_eq!(check_host_result(7), Err(ExecError::HostError(ErrorCode::OutOfGas)));
    assert_eq!(check_host_result(3), Err(ExecError::HostError(ErrorCode::KeyTooLarge)));
    assert_eq!(check_host_result(11), Err(ExecError::HostError(ErrorCode::Internal)));
    assert_eq!(check_host_result(-1), Err(ExecError::HostError(ErrorCode::Internal)));
    assert_eq!(verify_result(0), Ok(true));
    assert_eq!(verify_result(8), Ok(false));
    assert_eq!(verify_result(9), Err(ExecError::HostError(ErrorCode::CryptoFailed)));
    assert_eq!(verify_result(1), Err(ExecError::HostError(ErrorCode::BadPointer)));
    assert_eq!(verify_result(99), Err(ExecError::HostError(ErrorCode::Internal)));
}

#[test]
fn context_from_the_host() {
    let bytes = encode_execution_context(&context());
    assert_eq!(context_from_host(64, bytes.len() as i32, &bytes).unwrap(), context());
    assert!(matches!(
        context_from_host(0, bytes.len() as i32, &bytes),
        Err(ExecError::SerializationError(_))
    ));
    assert!(matches!(context_from_host(64, 0, &bytes), Err(ExecError::SerializationError(_))));
    assert!(matches!(
        context_from_host(64, 3, &bytes[..3]),
        Err(ExecError::SerializationError(_))
    ));
}

#[test]
fn a_block_from_bytes_to_bytes() {
    let sk = ed25519_dalek::SigningKey::from_bytes(&[1u8; 32]);
    let sender = sk.verifying_key().to_bytes();
    let request = ExecutionRequest {
        api_version: API_VERSION,
        chain_id: b"test-chain".to_vec(),
        block_height: 1,
        block_time: 1_700_000_000,
        block_hash: ZERO_HASH,
        prev_state_root: ZERO_HASH,
        transactions: vec![encode_transfer_tx(&sender, 0, &[2u8; 32], 5, &sk), vec![1, 2]],
        limits: ExecutionLimits::default(),
        execution_seed: None,
    };
    let fresh_host = || {
        let mut committed = ByteMap::new();
        committed.insert(balance_key(&sender), 100u64.to_le_bytes().to_vec());
        MockHost::new(committed, context())
    };

    let mut host = fresh_host();
    let bytes = execute_request(&encode_execution_request(&request), &mut host).unwrap();
    let response = decode_execution_response(&bytes).unwrap();
    assert_eq!(response.status, ExecutionStatus::Success);
    assert_eq!(response.receipts.len(), 2);

    let mut direct_host = fresh_host();
    let direct = BlockExecutor::execute_block(&request, &mut direct_host);
    assert_eq!(bytes, encode_execution_response(&direct));
    assert_eq!(response, direct);

    let mut untouched = fresh_host();
    assert_eq!(execute_request(&[1, 2, 3], &mut untouched), Err(2));
    assert_eq!(untouched.gas_meter().consumed(), 0);
    assert!(untouched.overlay().is_empty());
}
