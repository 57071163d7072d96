use bedrock::hostapi::mem_store::MemStore;
use bedrock::hostapi::types::ExecutionConfig;
use bedrock::primitives::codec::encode_execution_context;
use bedrock::primitives::execution::{Event, ExecutionContext};
use bedrock::primitives::state::OverlayResult;
use bedrock::primitives::types::{API_VERSION, ZERO_HASH};
use bedrock::sandbox::host_impl::HostState;

fn test_context() -> ExecutionContext {
    ExecutionContext {
        chain_id: b"test".to_vec(),
        block_height: 1,
        block_time: 1_700_000_000,
        block_hash: ZERO_HASH,
        gas_limit: 10_000_000,
        max_events: 1024,
        max_write_bytes: 4 * 1024 * 1024,
        api_version: API_VERSION,
        execution_seed: None,
    }
}

fn test_host_state() -> HostState<MemStore> {
    HostState::new(MemStore::new(), test_context(), ExecutionConfig::default())
}

#[test]
fn test_state_get_from_overlay() {
    let mut state = test_host_state();
    state.state_set(b"key1", b"value1").unwrap();
    assert_eq!(state.state_get(b"key1").unwrap(), Some(b"value1".to_vec()));
}

#[test]
fn test_state_get_from_committed() {
    let mut store = MemStore::new();
    store.insert(b"key1".to_vec(), b"committed".to_vec());
    let state = HostState::new(store, test_context(), ExecutionConfig::default());
    assert_eq!(state.state_get(b"key1").unwrap(), Some(b"committed".to_vec()));
}

#[test]
fn test_state_overlay_shadows_committed() {
    let mut store = MemStore::new();
    store.insert(b"key1".to_vec(), b"old".to_vec());
    let mut state = HostState::new(store, test_context(), ExecutionConfig::default());
    state.state_set(b"key1", b"new").unwrap();
    assert_eq!(state.state_get(b"key1").unwrap(), Some(b"new".to_vec()));
}

#[test]
fn test_state_delete_masks_committed() {
    let mut store = MemStore::new();
    store.insert(b"key1".to_vec(), b"value".to_vec());
    let mut state = HostState::new(store, test_context(), ExecutionConfig::default());
    state.state_delete(b"key1").unwrap();
    assert_eq!(state.state_get(b"key1").unwrap(), None);
}

#[test]
fn test_state_set_key_too_large() {
    let mut state = test_host_state();
    let big_key = vec![0u8; 257];
    let err = state.state_set(&big_key, b"value").unwrap_err();
    assert_eq!(err.to_error_code(), 3);
}

#[test]
fn test_state_set_value_too_large() {
    let mut state = test_host_state();
    let big_val = vec![0u8; 65537];
    let err = state.state_set(b"key", &big_val).unwrap_err();
    assert_eq!(err.to_error_code(), 4);
}

#[test]
fn test_event_limit() {
    let ctx = test_context();
    let config = ExecutionConfig { max_events: 2, ..ExecutionConfig::default() };
    let mut state = HostState::new(MemStore::new(), ctx, config);
    let event = Event { tx_index: 0, event_type: "test".into(), attributes: vec![] };
    state.add_event(event.clone()).unwrap();
    state.add_event(event.clone()).unwrap();
    let err = state.add_event(event).unwrap_err();
    assert_eq!(err.to_error_code(), 6);
}

#[test]
fn test_log_limit_silently_drops() {
    let ctx = test_context();
    let config = ExecutionConfig { max_log_lines: 2, ..ExecutionConfig::default() };
    let mut state = HostState::new(MemStore::new(), ctx, config);
    state.add_log(2, "msg1".into()).unwrap();
    state.add_log(2, "msg2".into()).unwrap();
    state.add_log(2, "msg3".into()).unwrap();
    assert_eq!(state.logs.len(), 2);
}

#[test]
fn a_fresh_host_state() {
    let state = test_host_state();
    assert_eq!(state.gas_meter.limit(), 10_000_000);
    assert_eq!(state.gas_meter.consumed(), 0);
    assert!(state.overlay.is_empty());
    assert_eq!(state.encoded_context, encode_execution_context(&test_context()));
    assert_eq!(state.event_count, 0);
    assert_eq!((state.host_alloc.base, state.host_alloc.bump, state.host_alloc.capacity), (0, 0, 0));
    assert!(state.events.is_empty());
    assert!(state.logs.is_empty());
}

#[test]
fn empty_and_oversized_keys_are_refused() {
    let mut state = test_host_state();
    assert_eq!(state.state_set(b"", b"v").unwrap_err().to_error_code(), 3);
    assert_eq!(state.state_delete(b"").unwrap_err().to_error_code(), 3);
    assert_eq!(state.state_delete(&vec![0u8; 257]).unwrap_err().to_error_code(), 3);
    assert_eq!(state.state_get(&vec![0u8; 257]).unwrap_err().to_error_code(), 3);
    assert_eq!(state.state_get(&vec![0u8; 256]).unwrap(), None);
    state.state_set(&vec![0u8; 256], &vec![1u8; 65536]).unwrap();
    assert!(state.overlay.contains_key(&vec![0u8; 256]));
}

#[test]
fn the_write_limit_is_checked_after_the_write() {
    let config = ExecutionConfig { max_write_bytes: 10, ..ExecutionConfig::default() };
    let mut state = HostState::new(MemStore::new(), test_context(), config);
    state.state_set(b"key1", b"123456").unwrap(); // exactly 10
    let err = state.state_set(b"k", b"v").unwrap_err();
    assert_eq!(err.to_error_code(), 5);
    // the write that broke the limit stays in the overlay
    assert_eq!(state.overlay.get(b"k"), OverlayResult::Found(b"v".to_vec()));
    assert_eq!(state.overlay.total_write_bytes(), 12);
    // an overwrite that shrinks the total is accepted
    state.state_delete(b"k").unwrap();
    assert_eq!(state.overlay.total_write_bytes(), 11);
}

#[test]
fn every_event_attempt_is_counted() {
    let config = ExecutionConfig { max_events: 1, ..ExecutionConfig::default() };
    let mut state = HostState::new(MemStore::new(), test_context(), config);
    let event = Event { tx_index: 0, event_type: "t".into(), attributes: vec![] };
    state.add_event(event.clone()).unwrap();
    assert!(state.add_event(event.clone()).is_err());
    assert!(state.add_event(event.clone()).is_err());
    assert_eq!(state.event_count, 3);
    assert_eq!(state.events.len(), 1);
    state.event_count = u32::MAX;
    assert_eq!(state.add_event(event).unwrap_err().to_error_code(), 6);
    assert_eq!(state.event_count, u32::MAX);
}

#[test]
fn long_log_lines_are_dropped() {
    let config = ExecutionConfig { max_log_line_len: 4, ..ExecutionConfig::default() };
    let mut state = HostState::new(MemStore::new(), test_context(), config);
    state.add_log(1, "12345".into()).unwrap();
    assert_eq!(state.logs.len(), 0);
    state.add_log(1, "1234".into()).unwrap();
    // two characters, four bytes
    state.add_log(3, "éé".into()).unwrap();
    // three characters, six bytes
    state.add_log(3, "ééé".into()).unwrap();
    assert_eq!(state.logs.len(), 2);
    assert_eq!(state.logs[1].level, 3);
    assert_eq!(state.logs[1].message, "éé");
}
