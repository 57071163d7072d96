use bedrock::engine::host::{HostInterface, MockHost};
use bedrock::engine::transaction::{
    balance_key, decode_transaction, encode_transfer_tx, execute_transfer, nonce_key,
    process_transaction, read_balance, read_nonce, write_balance, write_nonce,
    TransactionPayload, MIN_TRANSFER_TX_SIZE, PAYLOAD_TRANSFER,
};
use bedrock::primitives::bytemap::ByteMap;
use bedrock::primitives::crypto::generate_keypair;
use bedrock::primitives::error::{ErrorCode, ExecError};
use bedrock::primitives::execution::ExecutionContext;
use bedrock::primitives::state::OverlayResult;
use bedrock::primitives::types::{u64_to_le_bytes, Address, API_VERSION};

fn test_context() -> ExecutionContext {
    ExecutionContext {
        chain_id: b"test".to_vec(),
        block_height: 1,
        block_time: 1_700_000_000,
        block_hash: [0u8; 32],
        gas_limit: 10_000_000,
        max_events: 1024,
        max_write_bytes: 4 * 1024 * 1024,
        api_version: API_VERSION,
        execution_seed: None,
    }
}

fn setup_host_with_balance(addr: &Address, balance: u64) -> MockHost {
    let mut committed = ByteMap::new();
    let key = balance_key(addr);
    committed.insert(key, u64_to_le_bytes(balance).to_vec());
    MockHost::new(committed, test_context())
}

fn fixed_key(seed: u8) -> (Address, ed25519_dalek::SigningKey) {
    let sk = ed25519_dalek::SigningKey::from_bytes(&[seed; 32]);
    (sk.verifying_key().to_bytes(), sk)
}

#[test]
fn test_decode_transfer_roundtrip() {
    let (vk, sk) = generate_keypair();
    let sender = *vk.as_bytes();
    let to = [2u8; 32];
    let raw = encode_transfer_tx(&sender, 0, &to, 1000, &sk);

    let decoded = decode_transaction(&raw).unwrap();
    assert_eq!(decoded.sender, sender);
    assert_eq!(decoded.nonce, 0);
    assert_eq!(decoded.public_key, *vk.as_bytes());
    match decoded.payload {
        TransactionPayload::Transfer { to: decoded_to, amount } => {
            assert_eq!(decoded_to, to);
            assert_eq!(amount, 1000);
        }
    }
}

#[test]
fn test_decode_too_short() {
    let raw = vec![0u8; 10];
    assert!(decode_transaction(&raw).is_err());
}

#[test]
fn test_decode_unknown_payload_type() {
    let mut raw = vec![0u8; MIN_TRANSFER_TX_SIZE];
    raw[40] = 0xFF;
    assert!(decode_transaction(&raw).is_err());
}

#[test]
fn test_process_valid_transfer() {
    let (vk, sk) = generate_keypair();
    let sender = *vk.as_bytes();
    let to = [2u8; 32];

    let mut host = setup_host_with_balance(&sender, 5000);
    let raw = encode_transfer_tx(&sender, 0, &to, 1000, &sk);
    let decoded = decode_transaction(&raw).unwrap();

    let receipt = process_transaction(0, &decoded, &mut host);

    assert!(receipt.success);
    assert_eq!(receipt.tx_index, 0);
    assert!(receipt.gas_used > 0);

    assert_eq!(read_balance(&host, &sender).unwrap(), 4000);
    assert_eq!(read_balance(&host, &to).unwrap(), 1000);
    assert_eq!(read_nonce(&host, &sender).unwrap(), 1);
}

#[test]
fn test_process_invalid_signature() {
    let (vk, _sk) = generate_keypair();
    let sender = *vk.as_bytes();
    let to = [2u8; 32];

    let mut host = setup_host_with_balance(&sender, 5000);

    let mut signed_data = Vec::new();
    signed_data.extend_from_slice(&sender);
    signed_data.extend_from_slice(&u64_to_le_bytes(0));
    signed_data.push(PAYLOAD_TRANSFER);
    signed_data.extend_from_slice(&to);
    signed_data.extend_from_slice(&u64_to_le_bytes(1000));

    let mut raw = signed_data;
    raw.extend_from_slice(vk.as_bytes());
    raw.extend_from_slice(&[0u8; 64]);

    let decoded = decode_transaction(&raw).unwrap();
    let receipt = process_transaction(0, &decoded, &mut host);

    assert!(!receipt.success);
    assert_eq!(receipt.result_code, 8);
}

#[test]
fn test_process_nonce_mismatch() {
    let (vk, sk) = generate_keypair();
    let sender = *vk.as_bytes();
    let to = [2u8; 32];

    let mut host = setup_host_with_balance(&sender, 5000);

    let raw = encode_transfer_tx(&sender, 1, &to, 1000, &sk);
    let decoded = decode_transaction(&raw).unwrap();

    let receipt = process_transaction(0, &decoded, &mut host);

    assert!(!receipt.success);
}

#[test]
fn test_process_insufficient_balance() {
    let (vk, sk) = generate_keypair();
    let sender = *vk.as_bytes();
    let to = [2u8; 32];

    let mut host = setup_host_with_balance(&sender, 500);

    let raw = encode_transfer_tx(&sender, 0, &to, 1000, &sk);
    let decoded = decode_transaction(&raw).unwrap();

    let receipt = process_transaction(0, &decoded, &mut host);

    assert!(!receipt.success);
    assert_eq!(read_balance(&host, &sender).unwrap(), 500);
}

#[test]
fn test_process_out_of_gas() {
    let (vk, sk) = generate_keypair();
    let sender = *vk.as_bytes();
    let to = [2u8; 32];

    let ctx = ExecutionContext { gas_limit: 100, ..test_context() };
    let mut committed = ByteMap::new();
    committed.insert(balance_key(&sender), u64_to_le_bytes(5000).to_vec());
    let mut host = MockHost::new(committed, ctx);

    let raw = encode_transfer_tx(&sender, 0, &to, 1000, &sk);
    let decoded = decode_transaction(&raw).unwrap();

    let receipt = process_transaction(0, &decoded, &mut host);

    assert!(!receipt.success);
    assert_eq!(receipt.result_code, 7);
}

#[test]
fn test_sequential_nonces() {
    let (vk, sk) = generate_keypair();
    let sender = *vk.as_bytes();
    let to = [2u8; 32];

    let mut host = setup_host_with_balance(&sender, 10_000);

    let raw0 = encode_transfer_tx(&sender, 0, &to, 100, &sk);
    let decoded0 = decode_transaction(&raw0).unwrap();
    let receipt0 = process_transaction(0, &decoded0, &mut host);
    assert!(receipt0.success);

    let raw1 = encode_transfer_tx(&sender, 1, &to, 200, &sk);
    let decoded1 = decode_transaction(&raw1).unwrap();
    let receipt1 = process_transaction(1, &decoded1, &mut host);
    assert!(receipt1.success);

    assert_eq!(read_balance(&host, &sender).unwrap(), 9700);
    assert_eq!(read_balance(&host, &to).unwrap(), 300);
    assert_eq!(read_nonce(&host, &sender).unwrap(), 2);
}

#[test]
fn test_balance_key_format() {
    let addr = [0xAB; 32];
    let key = balance_key(&addr);
    assert!(key.starts_with(b"acct/"));
    assert!(key.ends_with(b"/balance"));
}

#[test]
fn test_nonce_key_format() {
    let addr = [0xAB; 32];
    let key = nonce_key(&addr);
    assert!(key.starts_with(b"acct/"));
    assert!(key.ends_with(b"/nonce"));
}

#[test]
fn account_keys_are_exact() {
    let addr = [0x5A; 32];
    let mut expected = b"acct/".to_vec();
    expected.extend_from_slice(&addr);
    expected.extend_from_slice(b"/balance");
    assert_eq!(balance_key(&addr), expected);
    assert_eq!(balance_key(&addr).len(), 45);
    let mut expected = b"acct/".to_vec();
    expected.extend_from_slice(&addr);
    expected.extend_from_slice(b"/nonce");
    assert_eq!(nonce_key(&addr), expected);
    assert_eq!(nonce_key(&addr).len(), 43);
}

#[test]
fn wire_layout_of_a_transfer() {
    let (sender, sk) = fixed_key(1);
    let to = [9u8; 32];
    let raw = encode_transfer_tx(&sender, 0x0102, &to, 3000, &sk);
    assert_eq!(raw.len(), 177);
    assert_eq!(MIN_TRANSFER_TX_SIZE, 177);
    assert_eq!(&raw[0..32], &sender);
    assert_eq!(&raw[32..40], &[2, 1, 0, 0, 0, 0, 0, 0]);
    assert_eq!(raw[40], 0x01);
    assert_eq!(&raw[41..73], &to);
    assert_eq!(&raw[73..81], &[0xb8, 0x0b, 0, 0, 0, 0, 0, 0]);
    assert_eq!(&raw[81..113], &sk.verifying_key().to_bytes());
    assert_eq!(sender, sk.verifying_key().to_bytes());

    let decoded = decode_transaction(&raw).unwrap();
    assert_eq!(decoded.signed_data, raw[..81].to_vec());
    assert_eq!(decoded.signature.to_vec(), raw[113..177].to_vec());
    assert_eq!(decoded.nonce, 0x0102);

    // bytes after the signature are ignored
    let mut longer = raw.clone();
    longer.extend_from_slice(&[1, 2, 3]);
    assert_eq!(decode_transaction(&longer).unwrap(), decoded);
    // one byte short is refused
    assert!(matches!(
        decode_transaction(&raw[..176]),
        Err(ExecError::SerializationError(_))
    ));
}

#[test]
fn gas_of_a_transfer_is_exact() {
    let (sender, sk) = fixed_key(1);
    let to = [2u8; 32];
    let mut host = setup_host_with_balance(&sender, 10_000);
    let raw = encode_transfer_tx(&sender, 0, &to, 3000, &sk);
    let decoded = decode_transaction(&raw).unwrap();
    let receipt = process_transaction(5, &decoded, &mut host);
    assert!(receipt.success);
    assert_eq!(receipt.tx_index, 5);
    assert_eq!(receipt.result_code, 0);
    assert_eq!(receipt.return_data, Vec::<u8>::new());
    // verify 2000, nonce read 329, two balance reads 335 each,
    // two balance writes 659 each, nonce write 653
    assert_eq!(receipt.gas_used, 2000 + 329 + 335 + 335 + 659 + 659 + 653);
    assert_eq!(host.gas_meter().consumed(), 4970);

    let events = host.events();
    assert_eq!(events.len(), 1);
    assert_eq!(events[0].tx_index, 5);
    assert_eq!(events[0].event_type, "transfer");
    assert_eq!(events[0].attributes.len(), 3);
    assert_eq!(events[0].attributes[0].key, "sender");
    assert_eq!(events[0].attributes[0].value, sender.to_vec());
    assert_eq!(events[0].attributes[1].key, "recipient");
    assert_eq!(events[0].attributes[1].value, to.to_vec());
    assert_eq!(events[0].attributes[2].key, "amount");
    assert_eq!(events[0].attributes[2].value, 3000u64.to_le_bytes().to_vec());
}

#[test]
fn failures_report_their_codes_and_the_gas_spent() {
    let (sender, sk) = fixed_key(1);
    let to = [2u8; 32];

    // nonce mismatch: code 1 after the signature check and the nonce read
    let mut host = setup_host_with_balance(&sender, 5000);
    let decoded = decode_transaction(&encode_transfer_tx(&sender, 1, &to, 10, &sk)).unwrap();
    let receipt = process_transaction(0, &decoded, &mut host);
    assert_eq!((receipt.success, receipt.result_code, receipt.gas_used), (false, 1, 2329));
    assert!(host.overlay().is_empty());
    assert!(host.events().is_empty());

    // insufficient balance: code 1 after the sender's balance read
    let mut host = setup_host_with_balance(&sender, 5);
    let decoded = decode_transaction(&encode_transfer_tx(&sender, 0, &to, 10, &sk)).unwrap();
    let receipt = process_transaction(0, &decoded, &mut host);
    assert_eq!((receipt.success, receipt.result_code, receipt.gas_used), (false, 1, 2664));
    assert!(host.overlay().is_empty());

    // recipient overflow: code 1 after both balance reads
    let mut host = setup_host_with_balance(&sender, 5000);
    host.set_committed(balance_key(&to), u64_to_le_bytes(u64::MAX).to_vec());
    let decoded = decode_transaction(&encode_transfer_tx(&sender, 0, &to, 10, &sk)).unwrap();
    let receipt = process_transaction(0, &decoded, &mut host);
    assert_eq!((receipt.success, receipt.result_code, receipt.gas_used), (false, 1, 2999));

    // corrupt balance: code 2
    let mut host = setup_host_with_balance(&sender, 5000);
    host.set_committed(balance_key(&sender), vec![1, 2, 3]);
    let decoded = decode_transaction(&encode_transfer_tx(&sender, 0, &to, 10, &sk)).unwrap();
    let receipt = process_transaction(0, &decoded, &mut host);
    assert_eq!((receipt.success, receipt.result_code), (false, 2));

    // invalid signature: code 8 and only the verification is charged
    let mut host = setup_host_with_balance(&sender, 5000);
    let mut raw = encode_transfer_tx(&sender, 0, &to, 10, &sk);
    raw[176] ^= 1;
    let decoded = decode_transaction(&raw).unwrap();
    let receipt = process_transaction(0, &decoded, &mut host);
    assert_eq!((receipt.success, receipt.result_code, receipt.gas_used), (false, 8, 2000));

    // out of gas before anything: code 7, nothing consumed
    let ctx = ExecutionContext { gas_limit: 1999, ..test_context() };
    let mut host = MockHost::new(ByteMap::new(), ctx);
    let decoded = decode_transaction(&encode_transfer_tx(&sender, 0, &to, 10, &sk)).unwrap();
    let receipt = process_transaction(0, &decoded, &mut host);
    assert_eq!((receipt.success, receipt.result_code, receipt.gas_used), (false, 7, 0));
}

#[test]
fn a_failure_between_the_writes_leaves_the_first_write() {
    let (sender, sk) = fixed_key(1);
    let to = [2u8; 32];
    // gas for everything up to and including the sender's balance write
    let limit = 2000 + 329 + 335 + 335 + 659;
    let ctx = ExecutionContext { gas_limit: limit, ..test_context() };
    let mut committed = ByteMap::new();
    committed.insert(balance_key(&sender), u64_to_le_bytes(100).to_vec());
    let mut host = MockHost::new(committed, ctx);
    let decoded = decode_transaction(&encode_transfer_tx(&sender, 0, &to, 30, &sk)).unwrap();
    let receipt = process_transaction(0, &decoded, &mut host);
    assert_eq!((receipt.success, receipt.result_code, receipt.gas_used), (false, 7, limit));
    assert_eq!(read_balance(&host, &sender).unwrap(), 70);
    assert_eq!(read_balance(&host, &to).unwrap(), 0);
    assert_eq!(read_nonce(&host, &sender).unwrap(), 0);
    assert!(host.events().is_empty());
}

#[test]
fn a_transfer_to_oneself_credits_the_amount() {
    let (sender, sk) = fixed_key(1);
    let mut host = setup_host_with_balance(&sender, 100);
    let decoded = decode_transaction(&encode_transfer_tx(&sender, 0, &sender, 30, &sk)).unwrap();
    let receipt = process_transaction(0, &decoded, &mut host);
    assert!(receipt.success);
    // the recipient's balance is written last, from the balance read before the debit
    assert_eq!(read_balance(&host, &sender).unwrap(), 130);
}

#[test]
fn nonce_wraps_after_the_largest_value() {
    let (sender, sk) = fixed_key(1);
    let to = [2u8; 32];
    let mut host = setup_host_with_balance(&sender, 100);
    host.set_committed(nonce_key(&sender), u64_to_le_bytes(u64::MAX).to_vec());
    let decoded =
        decode_transaction(&encode_transfer_tx(&sender, u64::MAX, &to, 1, &sk)).unwrap();
    let receipt = process_transaction(0, &decoded, &mut host);
    assert!(receipt.success);
    assert_eq!(read_nonce(&host, &sender).unwrap(), 0);
}

#[test]
fn nonce_and_balances_after_success() {
    let (sender, sk) = fixed_key(3);
    let to = [2u8; 32];
    let mut host = setup_host_with_balance(&sender, 10_000);
    host.set_committed(nonce_key(&sender), u64_to_le_bytes(41).to_vec());
    host.set_committed(balance_key(&to), u64_to_le_bytes(5).to_vec());
    let other = [7u8; 32];
    host.set_committed(balance_key(&other), u64_to_le_bytes(77).to_vec());
    let before =
        read_balance(&host, &sender).unwrap() + read_balance(&host, &to).unwrap()
            + read_balance(&host, &other).unwrap();

    let decoded = decode_transaction(&encode_transfer_tx(&sender, 41, &to, 3000, &sk)).unwrap();
    let receipt = process_transaction(0, &decoded, &mut host);
    assert!(receipt.success);

    assert_eq!(
        host.overlay().get(&nonce_key(&sender)),
        OverlayResult::Found(42u64.to_le_bytes().to_vec())
    );
    assert_eq!(read_nonce(&host, &sender).unwrap(), 42);
    assert_eq!(read_balance(&host, &sender).unwrap(), 7000);
    assert_eq!(read_balance(&host, &to).unwrap(), 3005);
    assert_eq!(read_balance(&host, &other).unwrap(), 77);
    let after = read_balance(&host, &sender).unwrap() + read_balance(&host, &to).unwrap()
        + read_balance(&host, &other).unwrap();
    assert_eq!(before, after);
    assert_eq!(host.overlay().len(), 3);
}

#[test]
fn balance_and_nonce_helpers() {
    let mut host = MockHost::with_defaults();
    let addr = [4u8; 32];
    assert_eq!(read_balance(&host, &addr).unwrap(), 0);
    assert_eq!(read_nonce(&host, &addr).unwrap(), 0);
    write_balance(&mut host, &addr, 12).unwrap();
    write_nonce(&mut host, &addr, 3).unwrap();
    assert_eq!(read_balance(&host, &addr).unwrap(), 12);
    assert_eq!(read_nonce(&host, &addr).unwrap(), 3);
    assert_eq!(host.state_get(&balance_key(&addr)).unwrap(), Some(12u64.to_le_bytes().to_vec()));

    let to = [5u8; 32];
    let events = execute_transfer(1, &addr, &to, 2, &mut host).unwrap();
    assert_eq!(events.len(), 1);
    assert_eq!(read_balance(&host, &addr).unwrap(), 10);
    assert_eq!(read_balance(&host, &to).unwrap(), 2);
    assert!(host.events().is_empty());
    let err = execute_transfer(1, &addr, &to, 11, &mut host).unwrap_err();
    assert!(matches!(err, ExecError::InvalidBlock(_)));
    assert!(matches!(
        ExecError::HostError(ErrorCode::SigInvalid),
        ExecError::HostError(ErrorCode::SigInvalid)
    ));
}

#[test]
fn errors_carry_their_messages() {
    match decode_transaction(&[0u8; 10]) {
        Err(ExecError::SerializationError(msg)) => assert_eq!(msg, "transaction too short"),
        _ => panic!("a short transaction must be refused"),
    }

    let (sender, sk) = fixed_key(7);
    let to = [2u8; 32];
    let mut host = setup_host_with_balance(&sender, 100);
    match execute_transfer(0, &sender, &to, 500, &mut host) {
        Err(ExecError::InvalidBlock(msg)) => {
            assert_eq!(msg, "insufficient balance: have 100, need 500")
        }
        _ => panic!("the balance is too low"),
    }

    let mut host = setup_host_with_balance(&sender, 100);
    write_balance(&mut host, &to, u64::MAX).unwrap();
    match execute_transfer(0, &sender, &to, 1, &mut host) {
        Err(ExecError::InvalidBlock(msg)) => assert_eq!(msg, "recipient balance overflow"),
        _ => panic!("the recipient's balance would overflow"),
    }

    let mut host = setup_host_with_balance(&sender, 100);
    write_nonce(&mut host, &sender, 12).unwrap();
    let raw = encode_transfer_tx(&sender, 18_446_744_073_709_551_615, &to, 1, &sk);
    let decoded = decode_transaction(&raw).unwrap();
    match bedrock::engine::transaction::process_transaction_inner(0, &decoded, &mut host) {
        Err(ExecError::InvalidBlock(msg)) => {
            assert_eq!(msg, "nonce mismatch: expected 12, got 18446744073709551615")
        }
        _ => panic!("the nonce does not match"),
    }
}
