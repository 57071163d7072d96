use bedrock::hostapi::error::HostError;
use bedrock::hostapi::mem_store::MemStore;
use bedrock::hostapi::state_store::StateStore;
use bedrock::hostapi::types::ExecutionConfig;
use bedrock::primitives::codec::{encode_execution_context, encode_single_event};
use bedrock::primitives::crypto::{hash_blake3, sign_ed25519};
use bedrock::primitives::execution::{Event, EventAttribute, ExecutionContext};
use bedrock::primitives::state::OverlayResult;
use bedrock::primitives::types::{API_VERSION, ZERO_HASH};
use bedrock::sandbox::host_impl::HostState;
use bedrock::sandbox::linker::{
    deliver, emit_event, gas_remaining, get_context, hash_blake3_call, host_free, log, state_delete,
    state_get, state_set, verify_ed25519_call, HostCallStep,
};
use bedrock::sandbox::memory::{read_i32, HostAllocator};

fn test_context() -> ExecutionContext {
    ExecutionContext {
        chain_id: b"test".to_vec(),
        block_height: 1,
        block_time: 1_700_000_000,
        block_hash: ZERO_HASH,
        gas_limit: 10_000_000,
        max_events: 1024,
        max_write_bytes: 4 * 1024 * 1024,
        api_version: API_VERSION,
        execution_seed: None,
    }
}

fn host(gas_limit: u64) -> HostState<MemStore> {
    let config = ExecutionConfig { gas_limit, ..ExecutionConfig::default() };
    let mut store = MemStore::new();
    store.insert(b"committed".to_vec(), b"old".to_vec());
    let mut state = HostState::new(store, test_context(), config);
    state.host_alloc = HostAllocator::new(1024, 64);
    state
}

fn memory_with(parts: &[(usize, &[u8])]) -> Vec<u8> {
    let mut mem = vec![0u8; 2048];
    for (at, bytes) in parts {
        mem[*at..*at + bytes.len()].copy_from_slice(bytes);
    }
    mem
}

#[test]
fn state_set_call_writes_the_overlay_and_charges() {
    let mut state = host(10_000);
    let mem = memory_with(&[(10, b"key"), (20, b"value")]);
    assert_eq!(state_set(&mut state, &mem, 10, 3, 20, 5), 0);
    assert_eq!(state.overlay.get(b"key"), OverlayResult::Found(b"value".to_vec()));
    assert_eq!(state.gas_meter.consumed(), 500 + 3 * 8);

    // bad pointers: code 1 and nothing charged
    assert_eq!(state_set(&mut state, &mem, -1, 3, 20, 5), 1);
    assert_eq!(state_set(&mut state, &mem, 10, 3, 2047, 2), 1);
    assert_eq!(state_set(&mut state, &mem, 10, -3, 20, 5), 1);
    assert_eq!(state.gas_meter.consumed(), 524);

    // an empty key is charged and then refused with code 3
    assert_eq!(state_set(&mut state, &mem, 10, 0, 20, 5), 3);
    assert_eq!(state.gas_meter.consumed(), 524 + 515);
}

#[test]
fn state_set_call_out_of_gas() {
    let mut state = host(523);
    let mem = memory_with(&[(10, b"key"), (20, b"value")]);
    assert_eq!(state_set(&mut state, &mem, 10, 3, 20, 5), 7);
    assert_eq!(state.gas_meter.consumed(), 0);
    assert!(state.overlay.is_empty());
}

#[test]
fn state_delete_call() {
    let mut state = host(10_000);
    let mem = memory_with(&[(10, b"committed")]);
    assert_eq!(state_delete(&mut state, &mem, 10, 9), 0);
    assert_eq!(state.overlay.get(b"committed"), OverlayResult::Deleted);
    assert_eq!(state.gas_meter.consumed(), 300 + 27);
    assert_eq!(state_delete(&mut state, &mem, 10, 0), 3);
    assert_eq!(state_delete(&mut state, &mem, 2040, 9), 1);
}

#[test]
fn state_get_call_miss_writes_zeroes() {
    let mut state = host(10_000);
    let mut mem = memory_with(&[(10, b"nokey"), (100, &[0xff; 8])]);
    let step = state_get(&mut state, &mut mem, 10, 5, 100, 104);
    assert!(matches!(step, HostCallStep::Done(0)));
    assert_eq!(&mem[100..108], &[0u8; 8]);
    assert_eq!(state.gas_meter.consumed(), 200 + 15);
    assert_eq!(state.host_alloc.bump, 0);
}

#[test]
fn state_get_call_hit_delivers_the_value() {
    let mut state = host(10_000);
    let mut mem = memory_with(&[(10, b"committed")]);
    let step = state_get(&mut state, &mut mem, 10, 9, 100, 104);
    let delivery = match step {
        HostCallStep::Deliver(d) => d,
        HostCallStep::Done(code) => panic!("ended with {}", code),
    };
    assert_eq!(delivery.data, b"old".to_vec());
    assert_eq!(delivery.ptr, 1024);
    assert_eq!(delivery.new_bump, 8);
    assert_eq!(delivery.new_capacity, 64);
    assert_eq!(delivery.grow_pages, 0);
    assert_eq!((delivery.out_ptr_ptr, delivery.out_len_ptr), (100, 104));
    // nothing is written or committed before delivery
    assert_eq!(state.host_alloc.bump, 0);
    assert_eq!(&mem[1024..1027], &[0, 0, 0]);

    assert_eq!(deliver(&mut state, &mut mem, &delivery), 0);
    assert_eq!(&mem[1024..1027], b"old");
    assert_eq!(read_i32(&mem, 100).unwrap(), 1024);
    assert_eq!(read_i32(&mem, 104).unwrap(), 3);
    assert_eq!(state.host_alloc.bump, 8);
    assert_eq!(state.host_alloc.capacity, 64);

    // the overlay is read first
    let set_mem = memory_with(&[(10, b"committed"), (30, b"fresh")]);
    assert_eq!(state_set(&mut state, &set_mem, 10, 9, 30, 5), 0);
    let step = state_get(&mut state, &mut mem, 10, 9, 100, 104);
    match step {
        HostCallStep::Deliver(d) => {
            assert_eq!(d.data, b"fresh".to_vec());
            assert_eq!(d.ptr, 1032);
        }
        HostCallStep::Done(code) => panic!("ended with {}", code),
    }
}

#[test]
fn state_get_call_errors() {
    let mut state = host(10_000);
    let mut mem = memory_with(&[(10, b"committed")]);
    assert!(matches!(state_get(&mut state, &mut mem, 10, 9, 2046, 104), HostCallStep::Done(1)));
    assert!(matches!(state_get(&mut state, &mut mem, 10, 9, 100, -4), HostCallStep::Done(1)));
    assert!(matches!(state_get(&mut state, &mut mem, 2040, 9, 100, 104), HostCallStep::Done(1)));
    assert_eq!(state.gas_meter.consumed(), 0);
    // a key above the limit is charged and refused with code 3
    let mut big = vec![0u8; 4096];
    assert!(matches!(state_get(&mut state, &mut big, 0, 257, 1000, 1004), HostCallStep::Done(3)));
    let mut poor = host(226);
    assert!(matches!(state_get(&mut poor, &mut mem, 10, 9, 100, 104), HostCallStep::Done(7)));
}

#[test]
fn delivery_that_needs_growth() {
    let mut state = host(10_000);
    state.host_alloc = HostAllocator::new(1024, 8);
    let mem = memory_with(&[]);
    let step = get_context(&mut state, &mem, 100, 104);
    let delivery = match step {
        HostCallStep::Deliver(d) => d,
        HostCallStep::Done(code) => panic!("ended with {}", code),
    };
    let encoded = encode_execution_context(&test_context());
    assert_eq!(delivery.data, encoded);
    assert_eq!(delivery.grow_pages, 1);
    assert_eq!(delivery.new_capacity, 8 + 65536);
    assert_eq!(state.gas_meter.consumed(), 50);

    // the runtime grows the memory, then delivers
    let mut grown = vec![0u8; 2048 + 65536];
    assert_eq!(deliver(&mut state, &mut grown, &delivery), 0);
    assert_eq!(&grown[1024..1024 + encoded.len()], &encoded[..]);
    assert_eq!(read_i32(&grown, 100).unwrap(), 1024);
    assert_eq!(read_i32(&grown, 104).unwrap(), encoded.len() as i32);
    assert_eq!(state.host_alloc.capacity, 8 + 65536);

    // without the growth the data has no place: code 10 and nothing changes
    let mut state = host(10_000);
    state.host_alloc = HostAllocator::new(2040, 8);
    let step = get_context(&mut state, &mem, 100, 104);
    let delivery = match step {
        HostCallStep::Deliver(d) => d,
        HostCallStep::Done(code) => panic!("ended with {}", code),
    };
    let mut small = vec![0u8; 2048];
    assert_eq!(deliver(&mut state, &mut small, &delivery), 10);
    assert_eq!(small, vec![0u8; 2048]);
    assert_eq!(state.host_alloc.bump, 0);
}

#[test]
fn get_context_call_errors() {
    let mut state = host(49);
    let mem = memory_with(&[]);
    assert!(matches!(get_context(&mut state, &mem, 100, 104), HostCallStep::Done(7)));
    assert!(matches!(get_context(&mut state, &mem, 2046, 104), HostCallStep::Done(1)));
    let mut state = host(100);
    state.host_alloc = HostAllocator { base: usize::MAX - 100, bump: 0, capacity: 0 };
    assert!(matches!(get_context(&mut state, &mem, 100, 104), HostCallStep::Done(10)));
}

#[test]
fn emit_event_call() {
    let mut state = host(10_000);
    let event = Event {
        tx_index: 3,
        event_type: "transfer".into(),
        attributes: vec![EventAttribute { key: "k".into(), value: vec![1] }],
    };
    let bytes = encode_single_event(&event);
    let mem = memory_with(&[(10, &bytes), (500, &[0xff; 4])]);
    assert_eq!(emit_event(&mut state, &mem, 10, bytes.len() as i32), 0);
    assert_eq!(state.events, vec![event]);
    assert_eq!(state.gas_meter.consumed(), 100 + 3 * bytes.len() as u64);
    // bytes that hold no event: code 2 after the charge
    assert_eq!(emit_event(&mut state, &mem, 500, 4), 2);
    assert_eq!(state.gas_meter.consumed(), 100 + 3 * bytes.len() as u64 + 112);
    assert_eq!(emit_event(&mut state, &mem, 2040, 20), 1);
    state.config.max_events = 1;
    assert_eq!(emit_event(&mut state, &mem, 10, bytes.len() as i32), 6);
    assert_eq!(state.events.len(), 1);
}

#[test]
fn log_call() {
    let mut state = host(10_000);
    let mem = memory_with(&[(10, b"hello"), (30, &[0xff, 0xfe])]);
    assert_eq!(log(&mut state, &mem, 2, 10, 5), 0);
    assert_eq!(state.logs.len(), 1);
    assert_eq!(state.logs[0].message, "hello");
    assert_eq!(state.logs[0].level, 2);
    assert_eq!(state.gas_meter.consumed(), 10 + 15);
    assert_eq!(log(&mut state, &mem, 2, 30, 2), 2);
    assert_eq!(log(&mut state, &mem, 2, 2047, 5), 1);
    assert_eq!(log(&mut state, &mem, -1, 10, 5), 0);
    assert_eq!(state.logs[1].level, u32::MAX);
    // a dropped line still gives code 0
    state.config.max_log_lines = 2;
    assert_eq!(log(&mut state, &mem, 2, 10, 5), 0);
    assert_eq!(state.logs.len(), 2);
}

#[test]
fn hash_blake3_call_writes_the_digest() {
    let mut state = host(10_000);
    let mut mem = memory_with(&[(10, b"abc")]);
    assert_eq!(hash_blake3_call(&mut state, &mut mem, 10, 3, 200, 32), 0);
    assert_eq!(&mem[200..232], &hash_blake3(b"abc"));
    assert_eq!(state.gas_meter.consumed(), 50 + 9);
    assert_eq!(hash_blake3_call(&mut state, &mut mem, 10, 3, 200, 31), 1);
    assert_eq!(hash_blake3_call(&mut state, &mut mem, 10, 3, 2020, 32), 1);
    assert_eq!(hash_blake3_call(&mut state, &mut mem, 2047, 3, 200, 32), 1);
    assert_eq!(state.gas_meter.consumed(), 59);
    let mut poor = host(58);
    assert_eq!(hash_blake3_call(&mut poor, &mut mem, 10, 3, 300, 32), 7);
    assert_eq!(&mem[300..332], &[0u8; 32]);
}

#[test]
fn verify_ed25519_call_codes() {
    let sk = ed25519_dalek::SigningKey::from_bytes(&[5u8; 32]);
    let pk = sk.verifying_key().to_bytes();
    let sig = sign_ed25519(b"message", &sk);
    let bad_key = (0u8..=255)
        .map(|b| [b; 32])
        .find(|k| ed25519_dalek::VerifyingKey::from_bytes(k).is_err())
        .expect("some byte pattern is no curve point");
    let mem = memory_with(&[(0, b"message"), (100, &sig), (200, &pk), (300, &bad_key)]);
    let mut state = host(10_000);
    assert_eq!(verify_ed25519_call(&mut state, &mem, 0, 7, 100, 64, 200, 32), 0);
    assert_eq!(state.gas_meter.consumed(), 2000);
    // another message: code 8
    assert_eq!(verify_ed25519_call(&mut state, &mem, 0, 6, 100, 64, 200, 32), 8);
    // a key that is no point: code 9
    assert_eq!(verify_ed25519_call(&mut state, &mem, 0, 7, 100, 64, 300, 32), 9);
    // wrong lengths and bad pointers: code 1, not charged
    let before = state.gas_meter.consumed();
    assert_eq!(verify_ed25519_call(&mut state, &mem, 0, 7, 100, 63, 200, 32), 1);
    assert_eq!(verify_ed25519_call(&mut state, &mem, 0, 7, 100, 64, 200, 33), 1);
    assert_eq!(verify_ed25519_call(&mut state, &mem, 0, 7, 2000, 64, 200, 32), 1);
    assert_eq!(state.gas_meter.consumed(), before);
    let mut poor = host(1999);
    assert_eq!(verify_ed25519_call(&mut poor, &mem, 0, 7, 100, 64, 200, 32), 7);
}

#[test]
fn gas_remaining_and_host_free_calls() {
    let mut state = host(1000);
    let mut mem = memory_with(&[]);
    assert_eq!(gas_remaining(&mut state, &mut mem, 16), 0);
    assert_eq!(&mem[16..24], &995u64.to_le_bytes());
    assert_eq!(gas_remaining(&mut state, &mut mem, 2041), 1);
    assert_eq!(host_free(&mut state, 5, 5), 0);
    assert_eq!(state.gas_meter.consumed(), 10);
    let mut poor = host(4);
    assert_eq!(gas_remaining(&mut poor, &mut mem, 32), 7);
    assert_eq!(host_free(&mut poor, 0, 0), 7);
    assert_eq!(&mem[32..40], &[0u8; 8]);
}

struct BrokenStore;

impl StateStore for BrokenStore {
    fn get(&self, _key: &[u8]) -> Result<Option<Vec<u8>>, HostError> {
        Err(HostError::Internal("disk unplugged".to_string()))
    }

    fn contains(&self, _key: &[u8]) -> Result<bool, HostError> {
        Err(HostError::Internal("disk unplugged".to_string()))
    }
}

#[test]
fn a_failing_store_gives_the_internal_code() {
    let mut state = HostState::new(BrokenStore, test_context(), ExecutionConfig::default());
    let mut mem = memory_with(&[(10, b"key")]);
    assert!(matches!(state_get(&mut state, &mut mem, 10, 3, 100, 104), HostCallStep::Done(10)));
    assert_eq!(state.gas_meter.consumed(), 209);
    // a key of the overlay never reaches the store
    let set_mem = memory_with(&[(10, b"key"), (30, b"v")]);
    assert_eq!(state_set(&mut state, &set_mem, 10, 3, 30, 1), 0);
    assert!(matches!(
        state_get(&mut state, &mut mem, 10, 3, 100, 104),
        HostCallStep::Deliver(_)
    ));
}
