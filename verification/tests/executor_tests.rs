use bedrock::engine::executor::{compute_state_root, BlockExecutor};
use bedrock::engine::host::{HostInterface, MockHost};
use bedrock::engine::transaction::{
    balance_key, encode_transfer_tx, nonce_key, read_balance, read_nonce,
};
use bedrock::primitives::bytemap::ByteMap;
use bedrock::primitives::codec::encode_execution_response;
use bedrock::primitives::crypto::generate_keypair;
use bedrock::primitives::execution::{
    ExecutionContext, ExecutionLimits, ExecutionRequest, ExecutionStatus,
};
use bedrock::primitives::merkle::SparseMerkleTree;
use bedrock::primitives::state::OverlayResult;
use bedrock::primitives::types::{u64_to_le_bytes, Address, API_VERSION, ZERO_HASH};

fn test_context() -> ExecutionContext {
    ExecutionContext {
        chain_id: b"test-chain".to_vec(),
        block_height: 1,
        block_time: 1_700_000_000,
        block_hash: ZERO_HASH,
        gas_limit: 10_000_000,
        max_events: 1024,
        max_write_bytes: 4 * 1024 * 1024,
        api_version: API_VERSION,
        execution_seed: None,
    }
}

fn make_request(transactions: Vec<Vec<u8>>) -> ExecutionRequest {
    ExecutionRequest {
        api_version: API_VERSION,
        chain_id: b"test-chain".to_vec(),
        block_height: 1,
        block_time: 1_700_000_000,
        block_hash: ZERO_HASH,
        prev_state_root: ZERO_HASH,
        transactions,
        limits: ExecutionLimits::default(),
        execution_seed: None,
    }
}

fn setup_funded_host(addr: &Address, balance: u64) -> MockHost {
    let mut committed = ByteMap::new();
    let mut key = Vec::new();
    key.extend_from_slice(b"acct/");
    key.extend_from_slice(addr);
    key.extend_from_slice(b"/balance");
    committed.insert(key, balance.to_le_bytes().to_vec());
    MockHost::new(committed, test_context())
}

fn funded_host_with_gas(addr: &Address, balance: u64, gas_limit: u64) -> MockHost {
    let mut committed = ByteMap::new();
    committed.insert(balance_key(addr), balance.to_le_bytes().to_vec());
    MockHost::new(committed, ExecutionContext { gas_limit, ..test_context() })
}

fn fixed_key(seed: u8) -> (Address, ed25519_dalek::SigningKey) {
    let sk = ed25519_dalek::SigningKey::from_bytes(&[seed; 32]);
    (sk.verifying_key().to_bytes(), sk)
}

#[test]
fn executor_test_execute_empty_block() {
    let request = make_request(Vec::new());
    let mut host = MockHost::new(ByteMap::new(), test_context());

    let response = BlockExecutor::execute_block(&request, &mut host);

    assert_eq!(response.status, ExecutionStatus::Success);
    assert_eq!(response.new_state_root, ZERO_HASH);
    assert!(response.receipts.is_empty());
    assert_eq!(response.gas_used, 0);
}

#[test]
fn test_execute_invalid_api_version() {
    let mut request = make_request(Vec::new());
    request.api_version = 999;
    let mut host = MockHost::new(ByteMap::new(), test_context());

    let response = BlockExecutor::execute_block(&request, &mut host);

    assert_eq!(response.status, ExecutionStatus::InvalidBlock);
    assert_eq!(response.new_state_root, ZERO_HASH);
    assert_eq!(response.gas_used, 0);
}

#[test]
fn test_execute_zero_block_height() {
    let mut request = make_request(Vec::new());
    request.block_height = 0;
    let mut host = MockHost::new(ByteMap::new(), test_context());

    let response = BlockExecutor::execute_block(&request, &mut host);

    assert_eq!(response.status, ExecutionStatus::InvalidBlock);
}

#[test]
fn test_execute_valid_transfer() {
    let (vk, sk) = generate_keypair();
    let sender = *vk.as_bytes();
    let to = [2u8; 32];

    let mut host = setup_funded_host(&sender, 5000);
    let raw_tx = encode_transfer_tx(&sender, 0, &to, 1000, &sk);
    let request = make_request(vec![raw_tx]);

    let response = BlockExecutor::execute_block(&request, &mut host);

    assert_eq!(response.status, ExecutionStatus::Success);
    assert_eq!(response.receipts.len(), 1);
    assert!(response.receipts[0].success);
    assert!(response.gas_used > 0);
    assert_ne!(response.new_state_root, ZERO_HASH);
}

#[test]
fn test_execute_invalid_signature_receipt() {
    let (vk, _sk) = generate_keypair();
    let sender = *vk.as_bytes();
    let to = [2u8; 32];

    let mut host = setup_funded_host(&sender, 5000);

    let mut raw = Vec::new();
    raw.extend_from_slice(&sender);
    raw.extend_from_slice(&0u64.to_le_bytes());
    raw.push(0x01);
    raw.extend_from_slice(&to);
    raw.extend_from_slice(&1000u64.to_le_bytes());
    raw.extend_from_slice(vk.as_bytes());
    raw.extend_from_slice(&[0u8; 64]);

    let request = make_request(vec![raw]);
    let response = BlockExecutor::execute_block(&request, &mut host);

    assert_eq!(response.status, ExecutionStatus::Success);
    assert_eq!(response.receipts.len(), 1);
    assert!(!response.receipts[0].success);
    assert_eq!(response.receipts[0].result_code, 8);
}

#[test]
fn executor_test_execute_malformed_transaction() {
    let mut host = MockHost::new(ByteMap::new(), test_context());
    let request = make_request(vec![vec![0u8; 10]]);

    let response = BlockExecutor::execute_block(&request, &mut host);

    assert_eq!(response.status, ExecutionStatus::Success);
    assert_eq!(response.receipts.len(), 1);
    assert!(!response.receipts[0].success);
    assert_eq!(response.receipts[0].result_code, 2);
}

#[test]
fn test_gas_accounting_sum() {
    let (vk, sk) = generate_keypair();
    let sender = *vk.as_bytes();
    let to = [2u8; 32];

    let mut host = setup_funded_host(&sender, 100_000);

    let raw_tx0 = encode_transfer_tx(&sender, 0, &to, 100, &sk);
    let raw_tx1 = encode_transfer_tx(&sender, 1, &to, 200, &sk);
    let request = make_request(vec![raw_tx0, raw_tx1]);

    let response = BlockExecutor::execute_block(&request, &mut host);

    assert_eq!(response.status, ExecutionStatus::Success);
    assert_eq!(response.receipts.len(), 2);

    let receipt_gas: u64 = response.receipts.iter().map(|r| r.gas_used).sum();
    assert_eq!(receipt_gas, response.gas_used);
}

#[test]
fn test_execute_block_gas_exceeded() {
    let (vk, sk) = generate_keypair();
    let sender = *vk.as_bytes();
    let to = [2u8; 32];

    let ctx = ExecutionContext { gas_limit: 3000, ..test_context() };
    let mut committed = ByteMap::new();
    let mut key = Vec::new();
    key.extend_from_slice(b"acct/");
    key.extend_from_slice(&sender);
    key.extend_from_slice(b"/balance");
    committed.insert(key, 100_000u64.to_le_bytes().to_vec());
    let mut host = MockHost::new(committed, ctx);

    let raw_tx0 = encode_transfer_tx(&sender, 0, &to, 100, &sk);
    let raw_tx1 = encode_transfer_tx(&sender, 1, &to, 200, &sk);
    let mut request = make_request(vec![raw_tx0, raw_tx1]);
    request.limits.gas_limit = 3000;

    let response = BlockExecutor::execute_block(&request, &mut host);

    let has_gas_failure = response.status == ExecutionStatus::OutOfGas
        || response.receipts.iter().any(|r| !r.success && r.result_code == 7);
    assert!(has_gas_failure);
}

#[test]
fn executor_test_determinism_same_input_same_output() {
    let (vk, sk) = generate_keypair();
    let sender = *vk.as_bytes();
    let to = [2u8; 32];

    let raw_tx = encode_transfer_tx(&sender, 0, &to, 1000, &sk);

    let response1 = {
        let mut host = setup_funded_host(&sender, 5000);
        BlockExecutor::execute_block(&make_request(vec![raw_tx.clone()]), &mut host)
    };

    let response2 = {
        let mut host = setup_funded_host(&sender, 5000);
        BlockExecutor::execute_block(&make_request(vec![raw_tx]), &mut host)
    };

    assert_eq!(response1.status, response2.status);
    assert_eq!(response1.new_state_root, response2.new_state_root);
    assert_eq!(response1.gas_used, response2.gas_used);
    assert_eq!(response1.receipts.len(), response2.receipts.len());
    for (r1, r2) in response1.receipts.iter().zip(response2.receipts.iter()) {
        assert_eq!(r1.success, r2.success);
        assert_eq!(r1.gas_used, r2.gas_used);
    }
}

#[test]
fn test_cumulative_state_within_block() {
    let (vk, sk) = generate_keypair();
    let sender = *vk.as_bytes();
    let to = [2u8; 32];

    let mut host = setup_funded_host(&sender, 10_000);

    let raw_tx0 = encode_transfer_tx(&sender, 0, &to, 3000, &sk);
    let raw_tx1 = encode_transfer_tx(&sender, 1, &to, 2000, &sk);
    let request = make_request(vec![raw_tx0, raw_tx1]);

    let response = BlockExecutor::execute_block(&request, &mut host);

    assert_eq!(response.status, ExecutionStatus::Success);
    assert_eq!(response.receipts.len(), 2);
    assert!(response.receipts[0].success);
    assert!(response.receipts[1].success);
}

#[test]
fn test_execute_empty_chain_id() {
    let mut request = make_request(Vec::new());
    request.chain_id = Vec::new();
    let mut host = MockHost::new(ByteMap::new(), test_context());

    let response = BlockExecutor::execute_block(&request, &mut host);
    assert_eq!(response.status, ExecutionStatus::InvalidBlock);
}

#[test]
fn test_execute_zero_gas_limit() {
    let mut request = make_request(Vec::new());
    request.limits.gas_limit = 0;
    let mut host = MockHost::new(ByteMap::new(), test_context());

    let response = BlockExecutor::execute_block(&request, &mut host);
    assert_eq!(response.status, ExecutionStatus::InvalidBlock);
}

#[test]
fn empty_block_end_to_end() {
    let request = make_request(Vec::new());
    let mut host = MockHost::new(ByteMap::new(), test_context());
    let response = BlockExecutor::execute_block(&request, &mut host);
    assert_eq!(response.api_version, API_VERSION);
    assert_eq!(response.status, ExecutionStatus::Success);
    assert_eq!(response.gas_used, 0);
    assert_eq!(response.new_state_root, [0u8; 32]);
    assert!(response.receipts.is_empty());
    assert!(response.events.is_empty());
    assert!(response.logs.is_empty());
}

#[test]
fn single_valid_transfer_end_to_end() {
    let (sender, sk) = fixed_key(1);
    let (recipient, _) = fixed_key(2);
    let mut host = setup_funded_host(&sender, 10_000);
    let request = make_request(vec![encode_transfer_tx(&sender, 0, &recipient, 3000, &sk)]);
    let response = BlockExecutor::execute_block(&request, &mut host);

    assert_eq!(response.status, ExecutionStatus::Success);
    assert_eq!(response.receipts.len(), 1);
    let receipt = &response.receipts[0];
    assert_eq!((receipt.tx_index, receipt.success, receipt.result_code), (0, true, 0));
    assert_eq!(receipt.gas_used, 4970);
    assert_eq!(response.gas_used, 4970);

    let overlay = host.overlay();
    assert_eq!(overlay.len(), 3);
    assert_eq!(
        overlay.get(&balance_key(&sender)),
        OverlayResult::Found(7000u64.to_le_bytes().to_vec())
    );
    assert_eq!(
        overlay.get(&balance_key(&recipient)),
        OverlayResult::Found(3000u64.to_le_bytes().to_vec())
    );
    assert_eq!(
        overlay.get(&nonce_key(&sender)),
        OverlayResult::Found(1u64.to_le_bytes().to_vec())
    );

    assert_eq!(response.events.len(), 1);
    let event = &response.events[0];
    assert_eq!(event.event_type, "transfer");
    assert_eq!(event.tx_index, 0);
    assert_eq!(event.attributes[0].value, sender.to_vec());
    assert_eq!(event.attributes[1].value, recipient.to_vec());
    assert_eq!(event.attributes[2].value, 3000u64.to_le_bytes().to_vec());

    let mut tree = SparseMerkleTree::new();
    tree.insert(&balance_key(&sender), &u64_to_le_bytes(7000));
    tree.insert(&balance_key(&recipient), &u64_to_le_bytes(3000));
    tree.insert(&nonce_key(&sender), &u64_to_le_bytes(1));
    assert_eq!(response.new_state_root, tree.root());
    assert_eq!(compute_state_root(&ZERO_HASH, &host), tree.root());
}

#[test]
fn invalid_signature_end_to_end() {
    let (sender, _sk) = fixed_key(1);
    let to = [2u8; 32];
    let mut host = setup_funded_host(&sender, 5000);
    let mut raw = Vec::new();
    raw.extend_from_slice(&sender);
    raw.extend_from_slice(&0u64.to_le_bytes());
    raw.push(0x01);
    raw.extend_from_slice(&to);
    raw.extend_from_slice(&1000u64.to_le_bytes());
    raw.extend_from_slice(&sender);
    raw.extend_from_slice(&[0u8; 64]);
    let response = BlockExecutor::execute_block(&make_request(vec![raw]), &mut host);
    assert_eq!(response.status, ExecutionStatus::Success);
    assert_eq!(response.receipts.len(), 1);
    assert!(!response.receipts[0].success);
    assert_eq!(response.receipts[0].result_code, 8);
    assert_eq!(read_balance(&host, &sender).unwrap(), 5000);
    assert_eq!(read_balance(&host, &to).unwrap(), 0);
    assert_eq!(read_nonce(&host, &sender).unwrap(), 0);
    assert!(host.overlay().is_empty());
    assert_eq!(response.new_state_root, ZERO_HASH);
    assert!(response.events.is_empty());
}

#[test]
fn malformed_transaction_among_valid_ones() {
    let (sender, sk) = fixed_key(1);
    let to = [2u8; 32];
    let mut host = setup_funded_host(&sender, 5000);
    let valid = encode_transfer_tx(&sender, 0, &to, 10, &sk);
    let request = make_request(vec![valid, b"not-a-tx".to_vec()]);
    let response = BlockExecutor::execute_block(&request, &mut host);
    assert_eq!(response.status, ExecutionStatus::Success);
    assert_eq!(response.receipts.len(), 2);
    assert!(response.receipts[0].success);
    assert_eq!(response.receipts[0].tx_index, 0);
    let bad = &response.receipts[1];
    assert_eq!((bad.tx_index, bad.success, bad.result_code, bad.gas_used), (1, false, 2, 0));
    assert_eq!(response.gas_used, 4970);
}

#[test]
fn block_gas_exhaustion_end_to_end() {
    let (sender, sk) = fixed_key(1);
    let to = [2u8; 32];
    // exactly the gas of one transfer: the counter reaches its limit
    let mut host = funded_host_with_gas(&sender, 100_000, 4970);
    let mut request = make_request(vec![
        encode_transfer_tx(&sender, 0, &to, 100, &sk),
        encode_transfer_tx(&sender, 1, &to, 200, &sk),
    ]);
    request.limits.gas_limit = 4970;
    request.prev_state_root = [0x42; 32];
    let response = BlockExecutor::execute_block(&request, &mut host);
    assert_eq!(response.status, ExecutionStatus::OutOfGas);
    assert_eq!(response.new_state_root, [0x42; 32]);
    assert!(response.events.is_empty());
    assert_eq!(response.receipts.len(), 1);
    assert!(response.receipts[0].success);
    assert_eq!(response.receipts[0].gas_used, 4970);
    assert_eq!(response.gas_used, 4970);
}

#[test]
fn gas_short_of_the_limit_fails_transactions_and_not_the_block() {
    let (sender, sk) = fixed_key(1);
    let to = [2u8; 32];
    let mut host = funded_host_with_gas(&sender, 100_000, 3000);
    let request = make_request(vec![
        encode_transfer_tx(&sender, 0, &to, 100, &sk),
        encode_transfer_tx(&sender, 1, &to, 200, &sk),
    ]);
    let response = BlockExecutor::execute_block(&request, &mut host);
    assert_eq!(response.status, ExecutionStatus::Success);
    assert_eq!(response.receipts.len(), 2);
    assert_eq!(
        (response.receipts[0].success, response.receipts[0].result_code),
        (false, 7)
    );
    assert_eq!(response.receipts[0].gas_used, 2999);
    assert_eq!(
        (response.receipts[1].success, response.receipts[1].result_code),
        (false, 7)
    );
    assert_eq!(response.receipts[1].gas_used, 0);
    assert_eq!(response.gas_used, 2999);
    assert_eq!(response.new_state_root, ZERO_HASH);
}

#[test]
fn determinism_over_five_runs() {
    let (sender, sk) = fixed_key(1);
    let (to, _) = fixed_key(2);
    let request = make_request(vec![
        encode_transfer_tx(&sender, 0, &to, 3000, &sk),
        b"garbage".to_vec(),
        encode_transfer_tx(&sender, 1, &to, 10, &sk),
        encode_transfer_tx(&sender, 5, &to, 10, &sk),
    ]);
    let mut first: Option<Vec<u8>> = None;
    for _ in 0..5 {
        let mut host = setup_funded_host(&sender, 10_000);
        let response = BlockExecutor::execute_block(&request, &mut host);
        let bytes = encode_execution_response(&response);
        match &first {
            None => first = Some(bytes),
            Some(expected) => assert_eq!(&bytes, expected),
        }
    }
}

#[test]
fn receipts_sum_to_block_gas_with_failures_mixed_in() {
    let (sender, sk) = fixed_key(1);
    let to = [2u8; 32];
    let mut host = setup_funded_host(&sender, 1_000);
    let request = make_request(vec![
        encode_transfer_tx(&sender, 0, &to, 100, &sk),
        vec![0u8; 3],
        encode_transfer_tx(&sender, 9, &to, 100, &sk),
        encode_transfer_tx(&sender, 1, &to, 5_000, &sk),
        encode_transfer_tx(&sender, 1, &to, 100, &sk),
    ]);
    let response = BlockExecutor::execute_block(&request, &mut host);
    assert_eq!(response.status, ExecutionStatus::Success);
    let flags: Vec<bool> = response.receipts.iter().map(|r| r.success).collect();
    assert_eq!(flags, vec![true, false, false, false, true]);
    let indices: Vec<u32> = response.receipts.iter().map(|r| r.tx_index).collect();
    assert_eq!(indices, vec![0, 1, 2, 3, 4]);
    let sum: u64 = response.receipts.iter().map(|r| r.gas_used).sum();
    assert_eq!(sum, response.gas_used);
    assert_eq!(response.gas_used, host.gas_meter().consumed());
    assert_eq!(response.events.len(), 2);
    assert_eq!(response.events[1].tx_index, 4);
}

#[test]
fn tokens_are_conserved_over_a_block_of_transfers() {
    let (alice, alice_sk) = fixed_key(1);
    let (bob, bob_sk) = fixed_key(2);
    let (carol, _) = fixed_key(3);
    let mut committed = ByteMap::new();
    committed.insert(balance_key(&alice), 10_000u64.to_le_bytes().to_vec());
    committed.insert(balance_key(&bob), 500u64.to_le_bytes().to_vec());
    let mut host = MockHost::new(committed, test_context());
    let request = make_request(vec![
        encode_transfer_tx(&alice, 0, &bob, 3000, &alice_sk),
        encode_transfer_tx(&bob, 0, &carol, 3500, &bob_sk),
        encode_transfer_tx(&alice, 1, &carol, 1, &alice_sk),
    ]);
    let response = BlockExecutor::execute_block(&request, &mut host);
    assert_eq!(response.status, ExecutionStatus::Success);
    assert!(response.receipts.iter().all(|r| r.success));
    let balances = [
        read_balance(&host, &alice).unwrap(),
        read_balance(&host, &bob).unwrap(),
        read_balance(&host, &carol).unwrap(),
    ];
    assert_eq!(balances, [6999, 0, 3501]);
    assert_eq!(balances.iter().sum::<u64>(), 10_500);
    assert_eq!(read_nonce(&host, &alice).unwrap(), 2);
    assert_eq!(read_nonce(&host, &bob).unwrap(), 1);
}

#[test]
fn tokens_are_conserved_when_transactions_fail_before_writing() {
    let (alice, alice_sk) = fixed_key(1);
    let (bob, bob_sk) = fixed_key(2);
    let mut committed = ByteMap::new();
    committed.insert(balance_key(&alice), 1_000u64.to_le_bytes().to_vec());
    committed.insert(balance_key(&bob), 40u64.to_le_bytes().to_vec());
    let mut host = MockHost::new(committed, test_context());
    let request = make_request(vec![
        encode_transfer_tx(&alice, 0, &bob, 250, &alice_sk),
        // a stale nonce, a balance that is too low, bytes that do not decode
        encode_transfer_tx(&alice, 0, &bob, 1, &alice_sk),
        encode_transfer_tx(&bob, 0, &alice, 291, &bob_sk),
        vec![0xAB; 7],
        encode_transfer_tx(&bob, 0, &alice, 0, &bob_sk),
    ]);
    let response = BlockExecutor::execute_block(&request, &mut host);
    assert_eq!(response.status, ExecutionStatus::Success);
    let outcomes: Vec<bool> = response.receipts.iter().map(|r| r.success).collect();
    assert_eq!(outcomes, vec![true, false, false, false, true]);
    let codes: Vec<u32> = response.receipts.iter().map(|r| r.result_code).collect();
    assert_eq!(codes, vec![0, 1, 1, 2, 0]);
    assert_eq!(read_balance(&host, &alice).unwrap(), 750);
    assert_eq!(read_balance(&host, &bob).unwrap(), 290);
    assert_eq!(read_nonce(&host, &alice).unwrap(), 1);
    assert_eq!(read_nonce(&host, &bob).unwrap(), 1);
}

#[test]
fn a_block_without_writes_keeps_the_previous_root() {
    let mut request = make_request(vec![vec![1, 2, 3], vec![]]);
    request.prev_state_root = [0x99; 32];
    let mut host = MockHost::new(ByteMap::new(), test_context());
    let response = BlockExecutor::execute_block(&request, &mut host);
    assert_eq!(response.status, ExecutionStatus::Success);
    assert_eq!(response.new_state_root, [0x99; 32]);
    assert_eq!(response.receipts.len(), 2);
    assert_eq!(compute_state_root(&[0x99; 32], &host), [0x99; 32]);
}

#[test]
fn deletes_are_left_out_of_the_root() {
    let mut host = MockHost::new(ByteMap::new(), test_context());
    host.state_set(b"a", b"1").unwrap();
    host.state_set(b"b", b"2").unwrap();
    host.state_delete(b"b").unwrap();
    host.state_delete(b"c").unwrap();
    let mut tree = SparseMerkleTree::new();
    tree.insert(b"a", b"1");
    assert_eq!(compute_state_root(&[5u8; 32], &host), tree.root());

    // only deletes: the overlay is not empty and commits to the empty set
    let mut host = MockHost::new(ByteMap::new(), test_context());
    host.state_delete(b"c").unwrap();
    assert_eq!(compute_state_root(&[5u8; 32], &host), ZERO_HASH);
}

#[test]
fn an_invalid_request_leaves_the_host_untouched() {
    let (sender, sk) = fixed_key(1);
    let mut request = make_request(vec![encode_transfer_tx(&sender, 0, &[2u8; 32], 1, &sk)]);
    request.api_version = 2;
    request.prev_state_root = [7u8; 32];
    let mut host = setup_funded_host(&sender, 100);
    let response = BlockExecutor::execute_block(&request, &mut host);
    assert_eq!(response.api_version, 2);
    assert_eq!(response.status, ExecutionStatus::InvalidBlock);
    assert_eq!(response.new_state_root, [7u8; 32]);
    assert_eq!(response.gas_used, 0);
    assert!(response.receipts.is_empty());
    assert!(response.events.is_empty());
    assert_eq!(host.gas_meter().consumed(), 0);
    assert!(host.overlay().is_empty());
}
