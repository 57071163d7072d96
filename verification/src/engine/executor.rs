//! The block executor: validate the request, run the transactions in
//! order, and commit to the resulting state.
//!
//! A transaction that fails gives a failed receipt and the block goes on.
//! A block whose gas is used up ends with status `OutOfGas`, the previous
//! state root and no events; the receipts collected so far are kept.

use vstd::prelude::*;
use crate::engine::host::{HostInterface, HostModel};
use crate::engine::transaction::{
    decode_transaction, host_advanced, lemma_process_transaction_advances, process_transaction,
    spec_decode_transaction, spec_process_transaction,
};
use crate::engine::validation::{request_valid, validate_request};
use crate::primitives::codec::ser_response;
use crate::primitives::error::ExecError;
use crate::primitives::execution::{
    clone_events, clone_logs, EventView, ExecutionRequest, ExecutionRequestView,
    ExecutionResponse, ExecutionResponseView, ExecutionStatus, Receipt, ReceiptView,
};
use crate::primitives::merkle::{merkle_root, SparseMerkleTree};
use crate::primitives::state::OverlayState;
use crate::primitives::types;
use crate::primitives::types::copy_hash;

verus! {

/// The receipt of a transaction that could not be decoded: no gas, result
/// code 2.
pub open spec fn decode_failure_receipt(tx_index: u32) -> ReceiptView {
    ReceiptView { tx_index, success: false, gas_used: 0, result_code: 2, return_data: Seq::empty() }
}

/// Running the transactions from position `i` on: the host afterwards, the
/// receipts, and whether the block's gas was used up. After each processed
/// transaction the run stops if the gas counter has reached its limit.
pub open spec fn run_from(m: HostModel, txs: Seq<Seq<u8>>, i: int) -> (
    HostModel,
    Seq<ReceiptView>,
    bool,
)
    decreases txs.len() - i,
{
    if i < 0 || i >= txs.len() {
        (m, Seq::empty(), false)
    } else {
        match spec_decode_transaction(txs[i]) {
            None => {
                let rest = run_from(m, txs, i + 1);
                (rest.0, seq![decode_failure_receipt(i as u32)] + rest.1, rest.2)
            },
            Some(tx) => {
                let (m1, receipt) = spec_process_transaction(m, i as u32, tx);
                if m1.gas.is_exhausted() {
                    (m1, seq![receipt], true)
                } else {
                    let rest = run_from(m1, txs, i + 1);
                    (rest.0, seq![receipt] + rest.1, rest.2)
                }
            },
        }
    }
}

/// The receipts collected so far, followed by the rest of a run.
pub open spec fn continue_run(done: Seq<ReceiptView>, rest: (HostModel, Seq<ReceiptView>, bool)) -> (
    HostModel,
    Seq<ReceiptView>,
    bool,
) {
    (rest.0, done + rest.1, rest.2)
}

/// The state root after a block: the previous root when nothing was
/// written, else the Merkle root over the keys that the overlay sets.
pub open spec fn state_root_after(prev_state_root: Seq<u8>, overlay: OverlayState) -> Seq<u8> {
    if overlay.writes == Map::<Seq<u8>, Option<Seq<u8>>>::empty() {
        prev_state_root
    } else {
        merkle_root(overlay.live())
    }
}

/// The execution of a block: the host afterwards and the response.
pub open spec fn spec_execute_block(req: ExecutionRequestView, m: HostModel) -> (
    HostModel,
    ExecutionResponseView,
) {
    if !request_valid(req) {
        (
            m,
            ExecutionResponseView::failure(
                req.api_version,
                ExecutionStatus::InvalidBlock,
                req.prev_state_root,
            ),
        )
    } else {
        let (m1, receipts, exceeded) = run_from(m, req.transactions, 0);
        if exceeded {
            (
                m1,
                ExecutionResponseView {
                    api_version: req.api_version,
                    status: ExecutionStatus::OutOfGas,
                    new_state_root: req.prev_state_root,
                    gas_used: m1.gas.consumed,
                    receipts,
                    events: Seq::empty(),
                    logs: m1.logs,
                },
            )
        } else {
            (
                m1,
                ExecutionResponseView {
                    api_version: req.api_version,
                    status: ExecutionStatus::Success,
                    new_state_root: state_root_after(req.prev_state_root, m1.overlay),
                    gas_used: m1.gas.consumed,
                    receipts,
                    events: m1.events,
                    logs: m1.logs,
                },
            )
        }
    }
}

/// The sum of the gas reported by receipts.
pub open spec fn total_gas(receipts: Seq<ReceiptView>) -> int
    decreases receipts.len(),
{
    if receipts.len() == 0 {
        0
    } else {
        receipts[0].gas_used + total_gas(receipts.skip(1))
    }
}

proof fn lemma_total_gas_cons(first: ReceiptView, rest: Seq<ReceiptView>)
    ensures
        total_gas(seq![first] + rest) == first.gas_used + total_gas(rest),
{
    assert((seq![first] + rest).skip(1) =~= rest);
}

proof fn lemma_run_accounts_for_gas(m: HostModel, txs: Seq<Seq<u8>>, i: int)
    requires
        0 <= i,
    ensures
        host_advanced(m, run_from(m, txs, i).0),
        total_gas(run_from(m, txs, i).1) == run_from(m, txs, i).0.gas.consumed - m.gas.consumed,
    decreases txs.len() - i,
{
    if i < txs.len() {
        match spec_decode_transaction(txs[i]) {
            None => {
                lemma_run_accounts_for_gas(m, txs, i + 1);
                lemma_total_gas_cons(decode_failure_receipt(i as u32), run_from(m, txs, i + 1).1);
            },
            Some(tx) => {
                lemma_process_transaction_advances(m, i as u32, tx);
                let (m1, receipt) = spec_process_transaction(m, i as u32, tx);
                if m1.gas.is_exhausted() {
                    lemma_total_gas_cons(receipt, Seq::empty());
                    assert(seq![receipt] + Seq::<ReceiptView>::empty() =~= seq![receipt]);
                } else {
                    lemma_run_accounts_for_gas(m1, txs, i + 1);
                    lemma_total_gas_cons(receipt, run_from(m1, txs, i + 1).1);
                }
            },
        }
    }
}

/// Gas conservation: for every block that ran, the receipts' gas sums to
/// the gas that the block consumed; with a fresh gas counter that is the
/// response's `gas_used`.
pub proof fn lemma_gas_conservation(req: ExecutionRequestView, m: HostModel)
    requires
        request_valid(req),
    ensures
        total_gas(spec_execute_block(req, m).1.receipts) == spec_execute_block(req, m).1.gas_used
            - m.gas.consumed,
        m.gas.consumed == 0 ==> total_gas(spec_execute_block(req, m).1.receipts)
            == spec_execute_block(req, m).1.gas_used,
{
    lemma_run_accounts_for_gas(m, req.transactions, 0);
}

/// Determinism: the response is a function of the request and of the
/// host's state. Equal requests on hosts in equal states give equal
/// responses, byte for byte.
pub proof fn lemma_execution_deterministic(
    req1: ExecutionRequest,
    req2: ExecutionRequest,
    host1: HostModel,
    host2: HostModel,
)
    requires
        req1@ == req2@,
        host1 == host2,
    ensures
        spec_execute_block(req1@, host1).1 == spec_execute_block(req2@, host2).1,
        ser_response(spec_execute_block(req1@, host1).1) == ser_response(
            spec_execute_block(req2@, host2).1,
        ),
        spec_execute_block(req1@, host1).0 == spec_execute_block(req2@, host2).0,
{
}

/// A block that leaves the overlay empty keeps the previous state root.
pub proof fn lemma_no_writes_keep_root(req: ExecutionRequestView, m: HostModel)
    requires
        spec_execute_block(req, m).0.overlay.writes == Map::<Seq<u8>, Option<Seq<u8>>>::empty(),
    ensures
        spec_execute_block(req, m).1.new_state_root == req.prev_state_root,
{
}

/// A block that does not end with status `Success` keeps the previous state
/// root and reports no events. In particular a block that runs out of gas
/// does.
pub proof fn lemma_failed_block_is_atomic(req: ExecutionRequestView, m: HostModel)
    requires
        spec_execute_block(req, m).1.status != ExecutionStatus::Success,
    ensures
        spec_execute_block(req, m).1.new_state_root == req.prev_state_root,
        spec_execute_block(req, m).1.events == Seq::<EventView>::empty(),
{
}

/// A request that fails validation is answered with status `InvalidBlock`,
/// no gas, no receipts, and an untouched host.
pub proof fn lemma_invalid_request_rejected(req: ExecutionRequestView, m: HostModel)
    requires
        !request_valid(req),
    ensures
        spec_execute_block(req, m).0 == m,
        spec_execute_block(req, m).1 == ExecutionResponseView::failure(
            req.api_version,
            ExecutionStatus::InvalidBlock,
            req.prev_state_root,
        ),
{
}

/// The state root after the block: the previous root when the overlay is
/// empty, else the root of a fresh tree over the overlay's writes.
pub fn compute_state_root<H: HostInterface>(prev_state_root: &types::Hash, host: &H) -> (root:
    types::Hash)
    ensures
        root@ == state_root_after(prev_state_root@, host.model().overlay),
{
    let overlay = host.overlay();
    if overlay.is_empty() {
        return copy_hash(prev_state_root);
    }
    let writes = overlay.writes();
    let mut tree = SparseMerkleTree::new();
    tree.apply_writes(writes);
    assert(tree@ =~= overlay@.live());
    tree.root()
}

/// The block executor. It holds no state: everything a block touches is in
/// the host.
pub struct BlockExecutor;

impl BlockExecutor {
    /// Executes a block against `host` and returns the response. The
    /// response and the host's final state are functions of the request
    /// and of the host's state before the call.
    pub fn execute_block<H: HostInterface>(request: &ExecutionRequest, host: &mut H) -> (response:
        ExecutionResponse)
        ensures
            (final(host).model(), response@) == spec_execute_block(request@, old(host).model()),
    {
        match validate_request(request) {
            Ok(_) => {},
            Err(err) => {
                let status = match err {
                    ExecError::InvalidApiVersion { .. } => ExecutionStatus::InvalidBlock,
                    ExecError::InvalidBlock(_) => ExecutionStatus::InvalidBlock,
                    _ => ExecutionStatus::ExecutionError,
                };
                return ExecutionResponse::failure(
                    request.api_version,
                    status,
                    copy_hash(&request.prev_state_root),
                );
            },
        }
        let ghost txs = request@.transactions;
        let ghost start = host.model();
        let n = request.transactions.len();
        let mut receipts: Vec<Receipt> = Vec::new();
        let mut block_gas_exceeded = false;
        let mut idx: usize = 0;
        proof {
            assert(receipts.deep_view() =~= Seq::<ReceiptView>::empty());
            assert(Seq::<ReceiptView>::empty() + run_from(start, txs, 0).1 =~= run_from(
                start,
                txs,
                0,
            ).1);
        }
        while idx < n && !block_gas_exceeded
            invariant
                idx <= n,
                n == request.transactions@.len(),
                txs == request@.transactions,
                txs.len() == n,
                block_gas_exceeded ==> run_from(start, txs, 0) == (
                    host.model(),
                    receipts.deep_view(),
                    true,
                ),
                !block_gas_exceeded ==> run_from(start, txs, 0) == continue_run(
                    receipts.deep_view(),
                    run_from(host.model(), txs, idx as int),
                ),
            decreases n - idx, if block_gas_exceeded { 0int } else { 1int },
        {
            let tx_index = idx as u32;
            let raw_tx = &request.transactions[idx];
            let ghost before = host.model();
            let ghost done = receipts.deep_view();
            assert(txs[idx as int] == raw_tx@);
            match decode_transaction(raw_tx.as_slice()) {
                Err(_err) => {
                    receipts.push(
                        Receipt {
                            tx_index,
                            success: false,
                            gas_used: 0,
                            result_code: 2,
                            return_data: Vec::new(),
                        },
                    );
                    proof {
                        let rest = run_from(before, txs, idx + 1);
                        assert(receipts.deep_view() =~= done.push(decode_failure_receipt(tx_index)));
                        assert(done + (seq![decode_failure_receipt(tx_index)] + rest.1)
                            =~= receipts.deep_view() + rest.1);
                    }
                    idx += 1;
                },
                Ok(decoded) => {
                    let receipt = process_transaction(tx_index, &decoded, host);
                    let exhausted = host.gas_meter().is_exhausted();
                    let ghost receipt_view = receipt@;
                    receipts.push(receipt);
                    proof {
                        assert(receipts.deep_view() =~= done.push(receipt_view));
                        if exhausted {
                            assert(done + seq![receipt_view] =~= receipts.deep_view());
                        } else {
                            let rest = run_from(host.model(), txs, idx + 1);
                            assert(done + (seq![receipt_view] + rest.1) =~= receipts.deep_view()
                                + rest.1);
                        }
                    }
                    if exhausted {
                        block_gas_exceeded = true;
                    } else {
                        idx += 1;
                    }
                },
            }
        }
        proof {
            if !block_gas_exceeded {
                assert(receipts.deep_view() + Seq::<ReceiptView>::empty() =~= receipts.deep_view());
            }
        }
        if block_gas_exceeded {
            let resp = ExecutionResponse {
                api_version: request.api_version,
                status: ExecutionStatus::OutOfGas,
                new_state_root: copy_hash(&request.prev_state_root),
                gas_used: host.gas_meter().consumed(),
                receipts,
                events: Vec::new(),
                logs: clone_logs(host.logs()),
            };
            assert(resp.events.deep_view() =~= Seq::<EventView>::empty());
            return resp;
        }
        let new_state_root = compute_state_root(&request.prev_state_root, host);
        ExecutionResponse {
            api_version: request.api_version,
            status: ExecutionStatus::Success,
            new_state_root,
            gas_used: host.gas_meter().consumed(),
            receipts,
            events: clone_events(host.events()),
            logs: clone_logs(host.logs()),
        }
    }
}

} // verus!
