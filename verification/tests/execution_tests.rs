use bedrock::primitives::execution::{
    Event, EventAttribute, ExecutionContext, ExecutionLimits, ExecutionRequest, ExecutionResponse,
    ExecutionStatus, Receipt,
};
use bedrock::primitives::types::{API_VERSION, ZERO_HASH};

fn sample_request() -> ExecutionRequest {
    ExecutionRequest {
        api_version: API_VERSION,
        chain_id: b"bedrock-test".to_vec(),
        block_height: 1,
        block_time: 1_700_000_000,
        block_hash: ZERO_HASH,
        prev_state_root: ZERO_HASH,
        transactions: vec![b"tx1".to_vec(), b"tx2".to_vec()],
        limits: ExecutionLimits::default(),
        execution_seed: None,
    }
}

#[test]
fn test_execution_status_is_ok() {
    assert!(ExecutionStatus::Success.is_ok());
    assert!(!ExecutionStatus::OutOfGas.is_ok());
    assert!(!ExecutionStatus::InvalidBlock.is_ok());
    assert!(!ExecutionStatus::ExecutionError.is_ok());
}

#[test]
fn test_execution_status_from_u8() {
    assert_eq!(ExecutionStatus::from_u8(0), Some(ExecutionStatus::Success));
    assert_eq!(ExecutionStatus::from_u8(3), Some(ExecutionStatus::OutOfGas));
    assert_eq!(ExecutionStatus::from_u8(255), None);
}

#[test]
fn test_execution_response_failure() {
    let resp = ExecutionResponse::failure(API_VERSION, ExecutionStatus::OutOfGas, ZERO_HASH);
    assert_eq!(resp.status, ExecutionStatus::OutOfGas);
    assert_eq!(resp.new_state_root, ZERO_HASH);
    assert_eq!(resp.gas_used, 0);
    assert!(resp.receipts.is_empty());
    assert!(resp.events.is_empty());
}

#[test]
fn test_execution_context_from_request() {
    let req = sample_request();
    let ctx = ExecutionContext::from_request(&req);
    assert_eq!(ctx.chain_id, req.chain_id);
    assert_eq!(ctx.block_height, req.block_height);
    assert_eq!(ctx.block_time, req.block_time);
    assert_eq!(ctx.block_hash, req.block_hash);
    assert_eq!(ctx.gas_limit, req.limits.gas_limit);
    assert_eq!(ctx.max_events, req.limits.max_events);
    assert_eq!(ctx.api_version, req.api_version);
    assert_eq!(ctx.execution_seed, None);
}

#[test]
fn test_default_limits() {
    let limits = ExecutionLimits::default();
    assert_eq!(limits.gas_limit, 10_000_000);
    assert_eq!(limits.max_events, 1024);
    assert_eq!(limits.max_write_bytes, 4 * 1024 * 1024);
}

#[test]
fn test_receipt_fields() {
    let receipt = Receipt {
        tx_index: 0,
        success: true,
        gas_used: 500,
        result_code: 0,
        return_data: vec![1, 2, 3],
    };
    assert!(receipt.success);
    assert_eq!(receipt.gas_used, 500);
}

#[test]
fn test_event_with_attributes() {
    let event = Event {
        tx_index: 0,
        event_type: "transfer".into(),
        attributes: vec![
            EventAttribute { key: "from".into(), value: b"alice".to_vec() },
            EventAttribute { key: "to".into(), value: b"bob".to_vec() },
        ],
    };
    assert_eq!(event.attributes.len(), 2);
    assert_eq!(event.event_type, "transfer");
}

#[test]
fn status_numbers_are_stable() {
    let table = [
        (ExecutionStatus::Success, 0u8, "OK"),
        (ExecutionStatus::InvalidBlock, 1, "INVALID_BLOCK"),
        (ExecutionStatus::ExecutionError, 2, "EXECUTION_ERROR"),
        (ExecutionStatus::OutOfGas, 3, "OUT_OF_GAS"),
    ];
    for (status, number, name) in table {
        assert_eq!(status.as_u8(), number);
        assert_eq!(ExecutionStatus::from_u8(number), Some(status));
        assert_eq!(status.to_string(), name);
    }
    assert_eq!(ExecutionStatus::from_u8(4), None);
}

#[test]
fn context_takes_every_field_of_the_request() {
    let mut req = sample_request();
    req.execution_seed = Some([7u8; 32]);
    req.limits = ExecutionLimits { gas_limit: 9, max_events: 8, max_write_bytes: 7 };
    let ctx = ExecutionContext::from_request(&req);
    assert_eq!(ctx.max_write_bytes, 7);
    assert_eq!(ctx.max_events, 8);
    assert_eq!(ctx.gas_limit, 9);
    assert_eq!(ctx.execution_seed, Some([7u8; 32]));
    let copy = ctx.clone();
    assert_eq!(copy, ctx);
}

#[test]
fn clones_keep_content() {
    let event = Event {
        tx_index: 3,
        event_type: "t".into(),
        attributes: vec![EventAttribute { key: "k".into(), value: vec![1, 2] }],
    };
    assert_eq!(event.clone(), event);
    let receipt =
        Receipt { tx_index: 1, success: false, gas_used: 2, result_code: 7, return_data: vec![9] };
    assert_eq!(receipt.clone(), receipt);
}
