use bedrock::engine::host::{HostInterface, MockHost};
use bedrock::primitives::bytemap::ByteMap;
use bedrock::primitives::error::{ErrorCode, ExecError};
use bedrock::primitives::execution::{Event, ExecutionContext};
use bedrock::primitives::state::OverlayResult;
use bedrock::primitives::types::{MAX_KEY_LEN, MAX_VALUE_LEN};

fn context_with(max_events: u32, max_write_bytes: u32) -> ExecutionContext {
    ExecutionContext {
        chain_id: b"test".to_vec(),
        block_height: 1,
        block_time: 0,
        block_hash: [0u8; 32],
        gas_limit: 10_000_000,
        max_events,
        max_write_bytes,
        api_version: 1,
        execution_seed: None,
    }
}

#[test]
fn test_mock_host_state_roundtrip() {
    let mut host = MockHost::with_defaults();

    assert_eq!(host.state_get(b"key1").unwrap(), None);

    host.state_set(b"key1", b"value1").unwrap();
    assert_eq!(host.state_get(b"key1").unwrap(), Some(b"value1".to_vec()));

    host.state_delete(b"key1").unwrap();
    assert_eq!(host.state_get(b"key1").unwrap(), None);
}

#[test]
fn test_mock_host_committed_state() {
    let mut committed = ByteMap::new();
    committed.insert(b"existing".to_vec(), b"old_val".to_vec());

    let mut host = MockHost::new(committed, context_with(1024, 4 * 1024 * 1024));

    assert_eq!(host.state_get(b"existing").unwrap(), Some(b"old_val".to_vec()));

    host.state_set(b"existing", b"new_val").unwrap();
    assert_eq!(host.state_get(b"existing").unwrap(), Some(b"new_val".to_vec()));
}

#[test]
fn test_mock_host_key_too_large() {
    let mut host = MockHost::with_defaults();
    let big_key = vec![0u8; MAX_KEY_LEN + 1];

    assert!(host.state_get(&big_key).is_err());
    assert!(host.state_set(&big_key, b"val").is_err());
    assert!(host.state_delete(&big_key).is_err());
}

#[test]
fn test_mock_host_value_too_large() {
    let mut host = MockHost::with_defaults();
    let big_value = vec![0u8; MAX_VALUE_LEN + 1];

    assert!(host.state_set(b"key", &big_value).is_err());
}

#[test]
fn test_mock_host_event_limit() {
    let mut host = MockHost::new(ByteMap::new(), context_with(2, 4 * 1024 * 1024));

    let event = Event { tx_index: 0, event_type: String::from("test"), attributes: Vec::new() };

    host.emit_event(event.clone()).unwrap();
    host.emit_event(event.clone()).unwrap();
    assert!(host.emit_event(event).is_err());
}

#[test]
fn test_mock_host_gas_remaining() {
    let host = MockHost::with_defaults();
    assert_eq!(host.gas_remaining().unwrap(), 10_000_000);
}

#[test]
fn test_mock_host_crypto() {
    let host = MockHost::with_defaults();

    let h = host.hash_blake3(b"hello").unwrap();
    assert_ne!(h, [0u8; 32]);

    let result = host.verify_ed25519(b"msg", &[0u8; 64], &[0xFF; 32]).unwrap();
    assert!(!result);
}

#[test]
fn test_mock_host_log() {
    let mut host = MockHost::with_defaults();
    host.log(2, "info message").unwrap();
    assert_eq!(host.logs().len(), 1);
    assert_eq!(host.logs()[0].message, "info message");
}

#[test]
fn size_limits_give_their_codes_at_the_boundary() {
    let mut host = MockHost::with_defaults();
    let key_256 = vec![1u8; 256];
    let key_257 = vec![1u8; 257];
    let value_max = vec![2u8; 65_536];
    let value_over = vec![2u8; 65_537];

    assert_eq!(host.state_get(&key_256).unwrap(), None);
    assert_eq!(
        host.state_get(&key_257).unwrap_err(),
        ExecError::HostError(ErrorCode::KeyTooLarge)
    );
    assert_eq!(
        host.state_set(&key_257, b"v").unwrap_err(),
        ExecError::HostError(ErrorCode::KeyTooLarge)
    );
    assert_eq!(
        host.state_delete(&key_257).unwrap_err(),
        ExecError::HostError(ErrorCode::KeyTooLarge)
    );
    assert_eq!(
        host.state_set(b"", b"v").unwrap_err(),
        ExecError::HostError(ErrorCode::KeyTooLarge)
    );
    assert_eq!(
        host.state_set(b"k", &value_over).unwrap_err(),
        ExecError::HostError(ErrorCode::ValueTooLarge)
    );
    host.state_set(&key_256, &value_max).unwrap();
    assert_eq!(host.state_get(&key_256).unwrap(), Some(value_max));
    // nothing but the accepted write reached the overlay
    assert_eq!(host.overlay().len(), 1);
    assert_eq!(host.overlay().total_write_bytes(), 256 + 65_536);
}

#[test]
fn write_limit_counts_projected_bytes() {
    let mut host = MockHost::new(ByteMap::new(), context_with(10, 20));
    host.state_set(b"key1", b"123456").unwrap(); // 10 bytes
    host.state_set(b"key2", b"123456").unwrap(); // 20 bytes
    assert_eq!(
        host.state_set(b"k", b"").unwrap_err(),
        ExecError::HostError(ErrorCode::WriteLimit)
    );
    assert_eq!(host.overlay().total_write_bytes(), 20);
    assert_eq!(host.overlay().get(b"k"), OverlayResult::NotInOverlay);
    // an overwrite is projected as if it were new
    assert_eq!(
        host.state_set(b"key1", b"1").unwrap_err(),
        ExecError::HostError(ErrorCode::WriteLimit)
    );
    assert_eq!(host.state_get(b"key1").unwrap(), Some(b"123456".to_vec()));
}

#[test]
fn overlay_layering_over_committed_state() {
    let mut committed = ByteMap::new();
    committed.insert(b"k".to_vec(), b"committed".to_vec());
    committed.insert(b"other".to_vec(), b"kept".to_vec());
    let mut host = MockHost::new(committed, context_with(10, 1000));

    assert_eq!(host.state_get(b"k").unwrap(), Some(b"committed".to_vec()));
    host.state_set(b"k", b"overlay").unwrap();
    assert_eq!(host.state_get(b"k").unwrap(), Some(b"overlay".to_vec()));
    host.state_delete(b"k").unwrap();
    assert_eq!(host.state_get(b"k").unwrap(), None);
    host.state_set(b"k", b"again").unwrap();
    assert_eq!(host.state_get(b"k").unwrap(), Some(b"again".to_vec()));
    assert_eq!(host.state_get(b"other").unwrap(), Some(b"kept".to_vec()));
    // committed state itself is untouched until commit
    assert_eq!(host.committed_state().get(b"k"), Some(&b"committed".to_vec()));
}

#[test]
fn commit_moves_the_overlay_into_committed_state() {
    let mut host = MockHost::with_defaults();
    host.set_committed(b"a".to_vec(), b"1".to_vec());
    host.set_committed(b"b".to_vec(), b"2".to_vec());
    host.state_set(b"a", b"new").unwrap();
    host.state_delete(b"b").unwrap();
    host.state_set(b"c", b"3").unwrap();
    host.commit();
    assert!(host.overlay().is_empty());
    assert_eq!(host.overlay().total_write_bytes(), 0);
    let committed = host.committed_state();
    assert_eq!(committed.len(), 2);
    assert_eq!(committed.get(b"a"), Some(&b"new".to_vec()));
    assert_eq!(committed.get(b"b"), None);
    assert_eq!(committed.get(b"c"), Some(&b"3".to_vec()));
    assert_eq!(host.state_get(b"a").unwrap(), Some(b"new".to_vec()));
}

#[test]
fn a_fresh_host_reflects_its_context() {
    let mut ctx = context_with(7, 9);
    ctx.gas_limit = 1234;
    let mut host = MockHost::new(ByteMap::new(), ctx.clone());
    assert_eq!(host.get_context().unwrap(), ctx);
    assert_eq!(host.gas_meter().limit(), 1234);
    assert_eq!(host.gas_meter().consumed(), 0);
    assert!(host.events().is_empty());
    assert!(host.logs().is_empty());
    host.gas_meter_mut().consume(234).unwrap();
    assert_eq!(host.gas_remaining().unwrap(), 1000);
    // host calls themselves do not charge the meter
    host.state_set(b"k", b"v").unwrap();
    let _ = host.state_get(b"k").unwrap();
    assert_eq!(host.gas_meter().consumed(), 234);
}
