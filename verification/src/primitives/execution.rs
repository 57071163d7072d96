//! Values that cross the execution boundary: request, response, receipts,
//! events, log lines and the context handed to the guest.

use vstd::prelude::*;
use crate::primitives::types;
use crate::primitives::types::{copy_hash, BlockHeight};

verus! {

/// Per-block resource limits.
#[derive(Debug, Clone, Copy, PartialEq, Eq, Structural)]
pub struct ExecutionLimits {
    /// Gas available to the block.
    pub gas_limit: u64,
    /// Most events the block may emit.
    pub max_events: u32,
    /// Most bytes the block may write to state.
    pub max_write_bytes: u32,
}

impl Default for ExecutionLimits {
    fn default() -> (r: Self)
        ensures
            r == (ExecutionLimits {
                gas_limit: 10_000_000,
                max_events: 1024,
                max_write_bytes: 4_194_304,
            }),
    {
        ExecutionLimits { gas_limit: 10_000_000, max_events: 1024, max_write_bytes: 4_194_304 }
    }
}

/// What the host submits for one block.
#[derive(Debug, Clone, PartialEq, Eq)]
pub struct ExecutionRequest {
    /// API version of the caller.
    pub api_version: u32,
    /// Chain identifier.
    pub chain_id: Vec<u8>,
    /// Height of the block.
    pub block_height: BlockHeight,
    /// Logical block time.
    pub block_time: u64,
    /// Hash of the block.
    pub block_hash: types::Hash,
    /// State root before the block.
    pub prev_state_root: types::Hash,
    /// Raw transactions, in execution order.
    pub transactions: Vec<Vec<u8>>,
    /// Resource limits.
    pub limits: ExecutionLimits,
    /// Optional deterministic seed.
    pub execution_seed: Option<types::Hash>,
}

/// Mathematical content of an [`ExecutionRequest`].
pub struct ExecutionRequestView {
    pub api_version: u32,
    pub chain_id: Seq<u8>,
    pub block_height: u64,
    pub block_time: u64,
    pub block_hash: Seq<u8>,
    pub prev_state_root: Seq<u8>,
    pub transactions: Seq<Seq<u8>>,
    pub limits: ExecutionLimits,
    pub execution_seed: Option<Seq<u8>>,
}

/// The byte strings held by a list of vectors.
pub open spec fn byte_strings(v: Seq<Vec<u8>>) -> Seq<Seq<u8>> {
    Seq::new(v.len(), |i: int| v[i]@)
}

/// The bytes of an optional hash.
pub open spec fn opt_hash_view(h: Option<types::Hash>) -> Option<Seq<u8>> {
    match h {
        Some(x) => Some(x@),
        None => None,
    }
}

impl View for ExecutionRequest {
    type V = ExecutionRequestView;

    open spec fn view(&self) -> ExecutionRequestView {
        ExecutionRequestView {
            api_version: self.api_version,
            chain_id: self.chain_id@,
            block_height: self.block_height,
            block_time: self.block_time,
            block_hash: self.block_hash@,
            prev_state_root: self.prev_state_root@,
            transactions: byte_strings(self.transactions@),
            limits: self.limits,
            execution_seed: opt_hash_view(self.execution_seed),
        }
    }
}

/// Block-level outcome. The numbers are part of the wire format.
#[derive(Debug, Clone, Copy, PartialEq, Eq, Hash, Structural)]
pub enum ExecutionStatus {
    /// The block executed.
    Success,
    /// The request was invalid.
    InvalidBlock,
    /// Execution hit a runtime error.
    ExecutionError,
    /// The block's gas was used up.
    OutOfGas,
}

impl ExecutionStatus {
    /// The wire number of each status.
    pub open spec fn spec_as_u8(self) -> u8 {
        match self {
            ExecutionStatus::Success => 0,
            ExecutionStatus::InvalidBlock => 1,
            ExecutionStatus::ExecutionError => 2,
            ExecutionStatus::OutOfGas => 3,
        }
    }

    /// The status bound to a wire number, if any.
    pub open spec fn spec_from_u8(v: u8) -> Option<ExecutionStatus> {
        if v == 0 {
            Some(ExecutionStatus::Success)
        } else if v == 1 {
            Some(ExecutionStatus::InvalidBlock)
        } else if v == 2 {
            Some(ExecutionStatus::ExecutionError)
        } else if v == 3 {
            Some(ExecutionStatus::OutOfGas)
        } else {
            None
        }
    }

    /// The display name of each status.
    pub open spec fn spec_name(self) -> Seq<char> {
        match self {
            ExecutionStatus::Success => "OK"@,
            ExecutionStatus::InvalidBlock => "INVALID_BLOCK"@,
            ExecutionStatus::ExecutionError => "EXECUTION_ERROR"@,
            ExecutionStatus::OutOfGas => "OUT_OF_GAS"@,
        }
    }

    /// Whether the block executed.
    pub fn is_ok(self) -> (r: bool)
        ensures
            r == (self == ExecutionStatus::Success),
    {
        match self {
            ExecutionStatus::Success => true,
            _ => false,
        }
    }

    /// The status of a wire number.
    pub fn from_u8(v: u8) -> (r: Option<ExecutionStatus>)
        ensures
            r == Self::spec_from_u8(v),
            r is Some <==> v <= 3,
            r matches Some(s) ==> s.spec_as_u8() == v,
    {
        match v {
            0 => Some(ExecutionStatus::Success),
            1 => Some(ExecutionStatus::InvalidBlock),
            2 => Some(ExecutionStatus::ExecutionError),
            3 => Some(ExecutionStatus::OutOfGas),
            _ => None,
        }
    }

    /// The wire number of this status.
    pub fn as_u8(self) -> (r: u8)
        ensures
            r == self.spec_as_u8(),
            r <= 3,
    {
        match self {
            ExecutionStatus::Success => 0,
            ExecutionStatus::InvalidBlock => 1,
            ExecutionStatus::ExecutionError => 2,
            ExecutionStatus::OutOfGas => 3,
        }
    }

    /// The display name of this status.
    pub fn to_string(&self) -> (s: String)
        ensures
            s@ == self.spec_name(),
    {
        match self {
            ExecutionStatus::Success => "OK".to_owned(),
            ExecutionStatus::InvalidBlock => "INVALID_BLOCK".to_owned(),
            ExecutionStatus::ExecutionError => "EXECUTION_ERROR".to_owned(),
            ExecutionStatus::OutOfGas => "OUT_OF_GAS".to_owned(),
        }
    }
}

/// Every status converts to its number and back.
pub proof fn lemma_status_numbers(a: ExecutionStatus, b: ExecutionStatus)
    ensures
        ExecutionStatus::spec_from_u8(a.spec_as_u8()) == Some(a),
        a.spec_as_u8() == b.spec_as_u8() ==> a == b,
{
}

/// Outcome of one transaction.
#[derive(Debug, PartialEq, Eq)]
pub struct Receipt {
    /// Position of the transaction in the block.
    pub tx_index: u32,
    /// Whether it succeeded.
    pub success: bool,
    /// Gas it consumed.
    pub gas_used: u64,
    /// Result code: 0 on success, an error code otherwise.
    pub result_code: u32,
    /// Optional return data.
    pub return_data: Vec<u8>,
}

/// Mathematical content of a [`Receipt`].
pub struct ReceiptView {
    pub tx_index: u32,
    pub success: bool,
    pub gas_used: u64,
    pub result_code: u32,
    pub return_data: Seq<u8>,
}

impl View for Receipt {
    type V = ReceiptView;

    open spec fn view(&self) -> ReceiptView {
        ReceiptView {
            tx_index: self.tx_index,
            success: self.success,
            gas_used: self.gas_used,
            result_code: self.result_code,
            return_data: self.return_data@,
        }
    }
}

impl DeepView for Receipt {
    type V = ReceiptView;

    open spec fn deep_view(&self) -> ReceiptView {
        self@
    }
}

impl Clone for Receipt {
    fn clone(&self) -> (r: Self)
        ensures
            r@ == self@,
    {
        Receipt {
            tx_index: self.tx_index,
            success: self.success,
            gas_used: self.gas_used,
            result_code: self.result_code,
            return_data: self.return_data.clone(),
        }
    }
}

/// One key-value attribute of an event.
#[derive(Debug, PartialEq, Eq)]
pub struct EventAttribute {
    /// Attribute key.
    pub key: String,
    /// Attribute value.
    pub value: Vec<u8>,
}

/// Mathematical content of an [`EventAttribute`].
pub struct EventAttributeView {
    pub key: Seq<char>,
    pub value: Seq<u8>,
}

impl View for EventAttribute {
    type V = EventAttributeView;

    open spec fn view(&self) -> EventAttributeView {
        EventAttributeView { key: self.key@, value: self.value@ }
    }
}

impl DeepView for EventAttribute {
    type V = EventAttributeView;

    open spec fn deep_view(&self) -> EventAttributeView {
        self@
    }
}

impl Clone for EventAttribute {
    fn clone(&self) -> (r: Self)
        ensures
            r@ == self@,
    {
        EventAttribute { key: self.key.clone(), value: self.value.clone() }
    }
}

/// An event emitted by a transaction.
#[derive(Debug, PartialEq, Eq)]
pub struct Event {
    /// Position of the emitting transaction.
    pub tx_index: u32,
    /// Event type.
    pub event_type: String,
    /// Attributes, in order.
    pub attributes: Vec<EventAttribute>,
}

/// Mathematical content of an [`Event`].
pub struct EventView {
    pub tx_index: u32,
    pub event_type: Seq<char>,
    pub attributes: Seq<EventAttributeView>,
}

impl View for Event {
    type V = EventView;

    open spec fn view(&self) -> EventView {
        EventView {
            tx_index: self.tx_index,
            event_type: self.event_type@,
            attributes: self.attributes.deep_view(),
        }
    }
}

impl DeepView for Event {
    type V = EventView;

    open spec fn deep_view(&self) -> EventView {
        self@
    }
}

impl Clone for Event {
    fn clone(&self) -> (r: Self)
        ensures
            r@ == self@,
    {
        let mut attributes: Vec<EventAttribute> = Vec::new();
        let mut i: usize = 0;
        while i < self.attributes.len()
            invariant
                i <= self.attributes@.len(),
                attributes@.len() == i,
                forall|j: int| 0 <= j < i ==> attributes@[j]@ == self.attributes@[j]@,
            decreases self.attributes@.len() - i,
        {
            attributes.push(self.attributes[i].clone());
            i += 1;
        }
        assert(attributes.deep_view() =~= self.attributes.deep_view());
        Event { tx_index: self.tx_index, event_type: self.event_type.clone(), attributes }
    }
}

/// A debug log line. Not consensus-critical.
#[derive(Debug, PartialEq, Eq)]
pub struct LogLine {
    /// Level: 0 trace, 1 debug, 2 info, 3 warn, 4 error.
    pub level: u32,
    /// Message.
    pub message: String,
}

/// Mathematical content of a [`LogLine`].
pub struct LogLineView {
    pub level: u32,
    pub message: Seq<char>,
}

impl View for LogLine {
    type V = LogLineView;

    open spec fn view(&self) -> LogLineView {
        LogLineView { level: self.level, message: self.message@ }
    }
}

impl DeepView for LogLine {
    type V = LogLineView;

    open spec fn deep_view(&self) -> LogLineView {
        self@
    }
}

impl Clone for LogLine {
    fn clone(&self) -> (r: Self)
        ensures
            r@ == self@,
    {
        LogLine { level: self.level, message: self.message.clone() }
    }
}

/// What the engine returns for one block.
#[derive(Debug, Clone, PartialEq, Eq)]
pub struct ExecutionResponse {
    /// API version, echoed.
    pub api_version: u32,
    /// Block-level status.
    pub status: ExecutionStatus,
    /// State root after the block.
    pub new_state_root: types::Hash,
    /// Gas consumed by the block.
    pub gas_used: u64,
    /// One receipt per transaction attempted.
    pub receipts: Vec<Receipt>,
    /// Events emitted.
    pub events: Vec<Event>,
    /// Debug logs.
    pub logs: Vec<LogLine>,
}

/// Mathematical content of an [`ExecutionResponse`].
pub struct ExecutionResponseView {
    pub api_version: u32,
    pub status: ExecutionStatus,
    pub new_state_root: Seq<u8>,
    pub gas_used: u64,
    pub receipts: Seq<ReceiptView>,
    pub events: Seq<EventView>,
    pub logs: Seq<LogLineView>,
}

impl View for ExecutionResponse {
    type V = ExecutionResponseView;

    open spec fn view(&self) -> ExecutionResponseView {
        ExecutionResponseView {
            api_version: self.api_version,
            status: self.status,
            new_state_root: self.new_state_root@,
            gas_used: self.gas_used,
            receipts: self.receipts.deep_view(),
            events: self.events.deep_view(),
            logs: self.logs.deep_view(),
        }
    }
}

impl ExecutionResponseView {
    /// The response of a block that failed before anything ran.
    pub open spec fn failure(
        api_version: u32,
        status: ExecutionStatus,
        prev_state_root: Seq<u8>,
    ) -> ExecutionResponseView {
        ExecutionResponseView {
            api_version,
            status,
            new_state_root: prev_state_root,
            gas_used: 0,
            receipts: Seq::empty(),
            events: Seq::empty(),
            logs: Seq::empty(),
        }
    }
}

impl ExecutionResponse {
    /// A response that reports `status` and leaves the state root unchanged.
    pub fn failure(api_version: u32, status: ExecutionStatus, prev_state_root: types::Hash) -> (r:
        ExecutionResponse)
        ensures
            r@ == ExecutionResponseView::failure(api_version, status, prev_state_root@),
    {
        let r = ExecutionResponse {
            api_version,
            status,
            new_state_root: prev_state_root,
            gas_used: 0,
            receipts: Vec::new(),
            events: Vec::new(),
            logs: Vec::new(),
        };
        assert(r.receipts.deep_view() =~= Seq::empty());
        assert(r.events.deep_view() =~= Seq::empty());
        assert(r.logs.deep_view() =~= Seq::empty());
        r
    }
}

/// Block context as the guest sees it.
#[derive(Debug, PartialEq, Eq)]
pub struct ExecutionContext {
    /// Chain identifier.
    pub chain_id: Vec<u8>,
    /// Height of the block.
    pub block_height: BlockHeight,
    /// Logical block time.
    pub block_time: u64,
    /// Hash of the block.
    pub block_hash: types::Hash,
    /// Gas available to the block.
    pub gas_limit: u64,
    /// Most events the block may emit.
    pub max_events: u32,
    /// Most bytes the block may write.
    pub max_write_bytes: u32,
    /// API version.
    pub api_version: u32,
    /// Optional deterministic seed.
    pub execution_seed: Option<types::Hash>,
}

/// Mathematical content of an [`ExecutionContext`].
pub struct ExecutionContextView {
    pub chain_id: Seq<u8>,
    pub block_height: u64,
    pub block_time: u64,
    pub block_hash: Seq<u8>,
    pub gas_limit: u64,
    pub max_events: u32,
    pub max_write_bytes: u32,
    pub api_version: u32,
    pub execution_seed: Option<Seq<u8>>,
}

impl View for ExecutionContext {
    type V = ExecutionContextView;

    open spec fn view(&self) -> ExecutionContextView {
        ExecutionContextView {
            chain_id: self.chain_id@,
            block_height: self.block_height,
            block_time: self.block_time,
            block_hash: self.block_hash@,
            gas_limit: self.gas_limit,
            max_events: self.max_events,
            max_write_bytes: self.max_write_bytes,
            api_version: self.api_version,
            execution_seed: opt_hash_view(self.execution_seed),
        }
    }
}

impl ExecutionContextView {
    /// The context that a request determines.
    pub open spec fn from_request(req: ExecutionRequestView) -> ExecutionContextView {
        ExecutionContextView {
            chain_id: req.chain_id,
            block_height: req.block_height,
            block_time: req.block_time,
            block_hash: req.block_hash,
            gas_limit: req.limits.gas_limit,
            max_events: req.limits.max_events,
            max_write_bytes: req.limits.max_write_bytes,
            api_version: req.api_version,
            execution_seed: req.execution_seed,
        }
    }
}

/// Copies an optional hash.
pub fn copy_opt_hash(h: &Option<types::Hash>) -> (r: Option<types::Hash>)
    ensures
        opt_hash_view(r) == opt_hash_view(*h),
{
    match h {
        Some(x) => Some(copy_hash(x)),
        None => None,
    }
}

impl Clone for ExecutionContext {
    fn clone(&self) -> (r: Self)
        ensures
            r@ == self@,
    {
        ExecutionContext {
            chain_id: self.chain_id.clone(),
            block_height: self.block_height,
            block_time: self.block_time,
            block_hash: copy_hash(&self.block_hash),
            gas_limit: self.gas_limit,
            max_events: self.max_events,
            max_write_bytes: self.max_write_bytes,
            api_version: self.api_version,
            execution_seed: copy_opt_hash(&self.execution_seed),
        }
    }
}

impl ExecutionContext {
    /// The context of the block that `req` describes.
    pub fn from_request(req: &ExecutionRequest) -> (ctx: ExecutionContext)
        ensures
            ctx@ == ExecutionContextView::from_request(req@),
    {
        ExecutionContext {
            chain_id: req.chain_id.clone(),
            block_height: req.block_height,
            block_time: req.block_time,
            block_hash: copy_hash(&req.block_hash),
            gas_limit: req.limits.gas_limit,
            max_events: req.limits.max_events,
            max_write_bytes: req.limits.max_write_bytes,
            api_version: req.api_version,
            execution_seed: copy_opt_hash(&req.execution_seed),
        }
    }
}

/// The contents of a list of events.
pub open spec fn events_view(s: Seq<Event>) -> Seq<EventView> {
    Seq::new(s.len(), |i: int| s[i]@)
}

/// The contents of a list of log lines.
pub open spec fn logs_view(s: Seq<LogLine>) -> Seq<LogLineView> {
    Seq::new(s.len(), |i: int| s[i]@)
}

/// The contents of a list of receipts.
pub open spec fn receipts_view(s: Seq<Receipt>) -> Seq<ReceiptView> {
    Seq::new(s.len(), |i: int| s[i]@)
}

/// Copies a list of events.
pub fn clone_events(events: &[Event]) -> (out: Vec<Event>)
    ensures
        out.deep_view() == events_view(events@),
        events_view(out@) == events_view(events@),
{
    let mut out: Vec<Event> = Vec::new();
    let mut i: usize = 0;
    while i < events.len()
        invariant
            i <= events@.len(),
            out@.len() == i,
            forall|j: int| 0 <= j < i ==> out@[j]@ == events@[j]@,
        decreases events@.len() - i,
    {
        out.push(events[i].clone());
        i += 1;
    }
    assert(out.deep_view() =~= events_view(events@));
    assert(events_view(out@) =~= events_view(events@));
    out
}

/// Copies a list of log lines.
pub fn clone_logs(logs: &[LogLine]) -> (out: Vec<LogLine>)
    ensures
        out.deep_view() == logs_view(logs@),
        logs_view(out@) == logs_view(logs@),
{
    let mut out: Vec<LogLine> = Vec::new();
    let mut i: usize = 0;
    while i < logs.len()
        invariant
            i <= logs@.len(),
            out@.len() == i,
            forall|j: int| 0 <= j < i ==> out@[j]@ == logs@[j]@,
        decreases logs@.len() - i,
    {
        out.push(logs[i].clone());
        i += 1;
    }
    assert(out.deep_view() =~= logs_view(logs@));
    assert(logs_view(out@) =~= logs_view(logs@));
    out
}

} // verus!
