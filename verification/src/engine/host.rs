//! The host capability contract and an in-memory host.
//!
//! A host serves one block. Its observable state is a [`HostModel`]:
//! committed key-value state, the write overlay, the gas counter, the
//! events and log lines collected so far, and the block's limits. Every
//! method of [`HostInterface`] is specified as a function on that model.

use vstd::prelude::*;
use vstd::slice::slice_to_vec;
use crate::primitives::bytemap::ByteMap;
use crate::primitives::crypto;
use crate::primitives::crypto::{blake3_digest, signature_accepted};
use crate::primitives::error::{ErrorCode, ExecError, ExecErrorView, ExecResult};
use crate::primitives::execution::{
    events_view, logs_view, Event, EventView, ExecutionContext, ExecutionContextView, LogLine,
    LogLineView,
};
use crate::primitives::gas::{GasMeter, GasState};
use crate::primitives::merkle::{apply_writes_to, apply_writes_to_entries, value_bytes};
use crate::primitives::state::{sat_add, OverlayResult, OverlayState, StateOverlay};
use crate::primitives::types;
use crate::primitives::types::{API_VERSION, MAX_KEY_LEN, MAX_VALUE_LEN, ZERO_HASH};

verus! {

/// The observable state of a host during one block.
pub struct HostModel {
    /// Committed state; read-only during the block.
    pub committed: Map<Seq<u8>, Seq<u8>>,
    /// Pending writes of the block.
    pub overlay: OverlayState,
    /// The gas counter.
    pub gas: GasState,
    /// The block context.
    pub context: ExecutionContextView,
    /// Events emitted so far.
    pub events: Seq<EventView>,
    /// Log lines written so far.
    pub logs: Seq<LogLineView>,
    /// Most events the block may emit.
    pub max_events: u32,
    /// Most bytes the block may write.
    pub max_write_bytes: u32,
}

impl HostModel {
    /// The same host with another gas counter.
    pub open spec fn with_gas(self, gas: GasState) -> HostModel {
        HostModel { gas, ..self }
    }

    /// The same host with another overlay.
    pub open spec fn with_overlay(self, overlay: OverlayState) -> HostModel {
        HostModel { overlay, ..self }
    }

    /// A layered read: the overlay first, then committed state. A key of
    /// more than 256 bytes is refused.
    pub open spec fn state_get(self, key: Seq<u8>) -> Result<Option<Seq<u8>>, ExecErrorView> {
        if key.len() > MAX_KEY_LEN {
            Err(ExecErrorView::HostError(ErrorCode::KeyTooLarge))
        } else {
            Ok(self.overlay.read_through(self.committed, key))
        }
    }

    /// Why a write of `value` under `key` is refused, if it is: the key is
    /// empty or longer than 256 bytes, the value is longer than 65 536
    /// bytes, or the bytes written so far plus this key and value exceed
    /// the block's write limit.
    pub open spec fn state_set_error(self, key: Seq<u8>, value: Seq<u8>) -> Option<ErrorCode> {
        if key.len() == 0 || key.len() > MAX_KEY_LEN {
            Some(ErrorCode::KeyTooLarge)
        } else if value.len() > MAX_VALUE_LEN {
            Some(ErrorCode::ValueTooLarge)
        } else if sat_add(self.overlay.total_write_bytes, (key.len() + value.len()) as int)
            > self.max_write_bytes {
            Some(ErrorCode::WriteLimit)
        } else {
            None
        }
    }

    /// The host after `state_set`: the overlay takes the write, or nothing
    /// changes when the write is refused.
    pub open spec fn state_set(self, key: Seq<u8>, value: Seq<u8>) -> (HostModel, Result<
        (),
        ExecErrorView,
    >) {
        match self.state_set_error(key, value) {
            Some(code) => (self, Err(ExecErrorView::HostError(code))),
            None => (self.with_overlay(self.overlay.set(key, value)), Ok(())),
        }
    }

    /// The host after `state_delete`: the overlay takes the tombstone, or
    /// nothing changes when the key is longer than 256 bytes.
    pub open spec fn state_delete(self, key: Seq<u8>) -> (HostModel, Result<(), ExecErrorView>) {
        if key.len() > MAX_KEY_LEN {
            (self, Err(ExecErrorView::HostError(ErrorCode::KeyTooLarge)))
        } else {
            (self.with_overlay(self.overlay.delete(key)), Ok(()))
        }
    }

    /// The host after `emit_event`: the event is appended, or refused once
    /// the block has emitted `max_events` events.
    pub open spec fn emit_event(self, event: EventView) -> (HostModel, Result<(), ExecErrorView>) {
        if self.events.len() >= self.max_events {
            (self, Err(ExecErrorView::HostError(ErrorCode::EventLimit)))
        } else {
            (HostModel { events: self.events.push(event), ..self }, Ok(()))
        }
    }

    /// The host after `log`.
    pub open spec fn log(self, level: u32, message: Seq<char>) -> HostModel {
        HostModel { logs: self.logs.push(LogLineView { level, message }), ..self }
    }

    /// The host after a gas charge, and whether the charge succeeded.
    pub open spec fn charge(self, amount: u64) -> (HostModel, Result<(), ExecErrorView>) {
        if self.gas.can_charge(amount) {
            (self.with_gas(self.gas.charge(amount)), Ok(()))
        } else {
            (
                self,
                Err(
                    ExecErrorView::OutOfGas {
                        limit: self.gas.limit,
                        used: self.gas.attempted(amount),
                    },
                ),
            )
        }
    }

    /// A fresh host for a block: nothing written, nothing consumed.
    pub open spec fn fresh(
        committed: Map<Seq<u8>, Seq<u8>>,
        context: ExecutionContextView,
    ) -> HostModel {
        HostModel {
            committed,
            overlay: OverlayState::empty(),
            gas: GasState { limit: context.gas_limit, consumed: 0 },
            context,
            events: Seq::empty(),
            logs: Seq::empty(),
            max_events: context.max_events,
            max_write_bytes: context.max_write_bytes,
        }
    }
}

/// The content of the result of a read.
pub open spec fn read_result_view(r: ExecResult<Option<Vec<u8>>>) -> Result<
    Option<Seq<u8>>,
    ExecErrorView,
> {
    match r {
        Ok(Some(v)) => Ok(Some(v@)),
        Ok(None) => Ok(None),
        Err(e) => Err(e@),
    }
}

/// The content of the result of a call that returns nothing.
pub open spec fn unit_result_view(r: ExecResult<()>) -> Result<(), ExecErrorView> {
    match r {
        Ok(_) => Ok(()),
        Err(e) => Err(e@),
    }
}

/// After a successful `state_set` a read of the key returns the value
/// written, and after a successful `state_delete` it returns nothing,
/// whatever committed state holds for the key. Without a write the read
/// returns the committed value.
pub proof fn lemma_host_read_layering(m: HostModel, key: Seq<u8>, value: Seq<u8>)
    requires
        key.len() <= MAX_KEY_LEN,
    ensures
        m.state_set(key, value).1 is Ok ==> m.state_set(key, value).0.state_get(key) == Ok::<
            Option<Seq<u8>>,
            ExecErrorView,
        >(Some(value)),
        m.state_delete(key).0.state_get(key) == Ok::<Option<Seq<u8>>, ExecErrorView>(None),
        !m.overlay.writes.contains_key(key) && m.committed.contains_key(key) ==> m.state_get(key)
            == Ok::<Option<Seq<u8>>, ExecErrorView>(Some(m.committed[key])),
{
}

/// A write or delete of one key leaves the reads of every other key as
/// they were.
pub proof fn lemma_host_write_frames(m: HostModel, key: Seq<u8>, value: Seq<u8>, other: Seq<u8>)
    requires
        other != key,
    ensures
        m.state_set(key, value).0.state_get(other) == m.state_get(other),
        m.state_delete(key).0.state_get(other) == m.state_get(other),
{
}

/// What the engine may ask of its host. Each method is specified on the
/// host's [`HostModel`].
pub trait HostInterface {
    /// The observable state of the host: some fixed function of the
    /// host, which an implementation may state.
    open spec fn model(&self) -> HostModel {
        (arbitrary::<spec_fn(&Self) -> HostModel>())(self)
    }

    /// Reads a key: the overlay first, then committed state.
    fn state_get(&self, key: &[u8]) -> (r: ExecResult<Option<Vec<u8>>>)
        ensures
            read_result_view(r) == self.model().state_get(key@),
    ;

    /// Writes a key to the overlay, within the size and write limits.
    fn state_set(&mut self, key: &[u8], value: &[u8]) -> (r: ExecResult<()>)
        ensures
            (final(self).model(), unit_result_view(r)) == old(self).model().state_set(key@, value@),
    ;

    /// Records a delete of a key in the overlay.
    fn state_delete(&mut self, key: &[u8]) -> (r: ExecResult<()>)
        ensures
            (final(self).model(), unit_result_view(r)) == old(self).model().state_delete(key@),
    ;

    /// Emits an event, within the event limit.
    fn emit_event(&mut self, event: Event) -> (r: ExecResult<()>)
        ensures
            (final(self).model(), unit_result_view(r)) == old(self).model().emit_event(event@),
    ;

    /// Writes a log line. Never fails.
    fn log(&mut self, level: u32, message: &str) -> (r: ExecResult<()>)
        ensures
            r is Ok,
            final(self).model() == old(self).model().log(level, message@),
    ;

    /// BLAKE3 of `data`.
    fn hash_blake3(&self, data: &[u8]) -> (r: ExecResult<types::Hash>)
        ensures
            r matches Ok(h) && h@ == blake3_digest(data@),
    ;

    /// Ed25519 verification.
    fn verify_ed25519(&self, message: &[u8], signature: &[u8; 64], public_key: &[u8; 32]) -> (r:
        ExecResult<bool>)
        ensures
            r matches Ok(valid) && valid == signature_accepted(message@, signature@, public_key@),
    ;

    /// Gas left before the limit.
    fn gas_remaining(&self) -> (r: ExecResult<u64>)
        ensures
            r matches Ok(n) && n == self.model().gas.remaining(),
    ;

    /// The block context.
    fn get_context(&self) -> (r: ExecResult<ExecutionContext>)
        ensures
            r matches Ok(ctx) && ctx@ == self.model().context,
    ;

    /// The gas meter.
    fn gas_meter(&self) -> (r: &GasMeter)
        ensures
            r@ == self.model().gas,
    ;

    /// The gas meter, to charge it. Nothing but the gas counter changes.
    fn gas_meter_mut(&mut self) -> (r: &mut GasMeter)
        ensures
            r@ == old(self).model().gas,
            final(self).model() == old(self).model().with_gas(final(r)@),
    ;

    /// The write overlay.
    fn overlay(&self) -> (r: &StateOverlay)
        ensures
            r@ == self.model().overlay,
    ;

    /// The events emitted so far.
    fn events(&self) -> (r: &[Event])
        ensures
            events_view(r@) == self.model().events,
    ;

    /// The log lines written so far.
    fn logs(&self) -> (r: &[LogLine])
        ensures
            logs_view(r@) == self.model().logs,
    ;
}

/// An in-memory host: committed state in a map, writes in an overlay.
pub struct MockHost {
    committed: ByteMap<Vec<u8>>,
    overlay: StateOverlay,
    gas_meter: GasMeter,
    context: ExecutionContext,
    events: Vec<Event>,
    logs: Vec<LogLine>,
    max_events: u32,
    max_write_bytes: u32,
}

impl MockHost {
    /// The committed key-value state.
    pub closed spec fn committed_view(&self) -> Map<Seq<u8>, Seq<u8>> {
        self.committed@.map_values(value_bytes())
    }

    /// A host for one block over `committed`, with the limits of `context`.
    pub fn new(committed: ByteMap<Vec<u8>>, context: ExecutionContext) -> (host: MockHost)
        ensures
            host.model() == HostModel::fresh(committed@.map_values(value_bytes()), context@),
    {
        let gas_limit = context.gas_limit;
        let max_events = context.max_events;
        let max_write_bytes = context.max_write_bytes;
        let host = MockHost {
            committed,
            overlay: StateOverlay::new(),
            gas_meter: GasMeter::new(gas_limit),
            context,
            events: Vec::new(),
            logs: Vec::new(),
            max_events,
            max_write_bytes,
        };
        assert(events_view(host.events@) =~= Seq::empty());
        assert(logs_view(host.logs@) =~= Seq::empty());
        host
    }

    /// A host over empty state with the default limits: 10 000 000 gas,
    /// 1024 events, 4 MiB of writes.
    pub fn with_defaults() -> (host: MockHost)
        ensures
            host.model().committed == Map::<Seq<u8>, Seq<u8>>::empty(),
            host.model().overlay == OverlayState::empty(),
            host.model().gas == (GasState { limit: 10_000_000, consumed: 0 }),
            host.model().events == Seq::<EventView>::empty(),
            host.model().logs == Seq::<LogLineView>::empty(),
            host.model().max_events == 1024,
            host.model().max_write_bytes == 4_194_304,
            host.model().context == (ExecutionContextView {
                chain_id: seq![116u8, 101u8, 115u8, 116u8, 45u8, 99u8, 104u8, 97u8, 105u8, 110u8],
                block_height: 1,
                block_time: 1_700_000_000,
                block_hash: ZERO_HASH@,
                gas_limit: 10_000_000,
                max_events: 1024,
                max_write_bytes: 4_194_304,
                api_version: API_VERSION,
                execution_seed: None,
            }),
    {
        let mut chain_id: Vec<u8> = Vec::new();
        chain_id.push(116);
        chain_id.push(101);
        chain_id.push(115);
        chain_id.push(116);
        chain_id.push(45);
        chain_id.push(99);
        chain_id.push(104);
        chain_id.push(97);
        chain_id.push(105);
        chain_id.push(110);
        let context = ExecutionContext {
            chain_id,
            block_height: 1,
            block_time: 1_700_000_000,
            block_hash: ZERO_HASH,
            gas_limit: 10_000_000,
            max_events: 1024,
            max_write_bytes: 4_194_304,
            api_version: API_VERSION,
            execution_seed: None,
        };
        assert(context@.chain_id =~= seq![
            116u8,
            101u8,
            115u8,
            116u8,
            45u8,
            99u8,
            104u8,
            97u8,
            105u8,
            110u8,
        ]);
        let committed: ByteMap<Vec<u8>> = ByteMap::new();
        assert(committed@.map_values(value_bytes()) =~= Map::<Seq<u8>, Seq<u8>>::empty());
        MockHost::new(committed, context)
    }

    /// Stores a committed value, as state before the block.
    pub fn set_committed(&mut self, key: Vec<u8>, value: Vec<u8>)
        ensures
            final(self).model() == (HostModel {
                committed: old(self).model().committed.insert(key@, value@),
                ..old(self).model()
            }),
    {
        self.committed.insert(key, value);
        assert(self.committed@.map_values(value_bytes()) =~= old(self).model().committed.insert(
            key@,
            value@,
        ));
    }

    /// Moves the overlay's writes into committed state and empties the
    /// overlay.
    pub fn commit(&mut self)
        ensures
            final(self).model() == (HostModel {
                committed: apply_writes_to(
                    old(self).model().committed,
                    old(self).model().overlay.writes,
                ),
                overlay: OverlayState::empty(),
                ..old(self).model()
            }),
    {
        let mut taken = StateOverlay::new();
        core::mem::swap(&mut self.overlay, &mut taken);
        let writes = taken.drain();
        apply_writes_to_entries(&mut self.committed, &writes);
    }

    /// The committed state.
    pub fn committed_state(&self) -> (c: &ByteMap<Vec<u8>>)
        ensures
            c@.map_values(value_bytes()) == self.model().committed,
    {
        &self.committed
    }
}

impl HostInterface for MockHost {
    closed spec fn model(&self) -> HostModel {
        HostModel {
            committed: self.committed_view(),
            overlay: self.overlay@,
            gas: self.gas_meter@,
            context: self.context@,
            events: events_view(self.events@),
            logs: logs_view(self.logs@),
            max_events: self.max_events,
            max_write_bytes: self.max_write_bytes,
        }
    }

    fn state_get(&self, key: &[u8]) -> (r: ExecResult<Option<Vec<u8>>>) {
        if key.len() > MAX_KEY_LEN {
            return Err(ExecError::HostError(ErrorCode::KeyTooLarge));
        }
        match self.overlay.get(key) {
            OverlayResult::Found(value) => Ok(Some(value)),
            OverlayResult::Deleted => Ok(None),
            OverlayResult::NotInOverlay => {
                match self.committed.get(key) {
                    Some(v) => Ok(Some(v.clone())),
                    None => Ok(None),
                }
            },
        }
    }

    fn state_set(&mut self, key: &[u8], value: &[u8]) -> (r: ExecResult<()>) {
        if key.len() == 0 || key.len() > MAX_KEY_LEN {
            return Err(ExecError::HostError(ErrorCode::KeyTooLarge));
        }
        if value.len() > MAX_VALUE_LEN {
            return Err(ExecError::HostError(ErrorCode::ValueTooLarge));
        }
        let projected = self.overlay.total_write_bytes().saturating_add(
            (key.len() + value.len()) as u64,
        );
        if projected > self.max_write_bytes as u64 {
            return Err(ExecError::HostError(ErrorCode::WriteLimit));
        }
        self.overlay.set(slice_to_vec(key), slice_to_vec(value));
        Ok(())
    }

    fn state_delete(&mut self, key: &[u8]) -> (r: ExecResult<()>) {
        if key.len() > MAX_KEY_LEN {
            return Err(ExecError::HostError(ErrorCode::KeyTooLarge));
        }
        self.overlay.delete(slice_to_vec(key));
        Ok(())
    }

    fn emit_event(&mut self, event: Event) -> (r: ExecResult<()>) {
        if self.events.len() >= self.max_events as usize {
            return Err(ExecError::HostError(ErrorCode::EventLimit));
        }
        self.events.push(event);
        assert(events_view(self.events@) =~= events_view(old(self).events@).push(event@));
        Ok(())
    }

    fn log(&mut self, level: u32, message: &str) -> (r: ExecResult<()>) {
        self.logs.push(LogLine { level, message: message.to_owned() });
        assert(logs_view(self.logs@) =~= logs_view(old(self).logs@).push(
            LogLineView { level, message: message@ },
        ));
        Ok(())
    }

    fn hash_blake3(&self, data: &[u8]) -> (r: ExecResult<types::Hash>) {
        Ok(crypto::hash_blake3(data))
    }

    fn verify_ed25519(&self, message: &[u8], signature: &[u8; 64], public_key: &[u8; 32]) -> (r:
        ExecResult<bool>) {
        Ok(crypto::verify_ed25519(message, signature, public_key))
    }

    fn gas_remaining(&self) -> (r: ExecResult<u64>) {
        Ok(self.gas_meter.remaining())
    }

    fn get_context(&self) -> (r: ExecResult<ExecutionContext>) {
        Ok(self.context.clone())
    }

    fn gas_meter(&self) -> (r: &GasMeter) {
        &self.gas_meter
    }

    fn gas_meter_mut(&mut self) -> (r: &mut GasMeter) {
        &mut self.gas_meter
    }

    fn overlay(&self) -> (r: &StateOverlay) {
        &self.overlay
    }

    fn events(&self) -> (r: &[Event]) {
        self.events.as_slice()
    }

    fn logs(&self) -> (r: &[LogLine]) {
        self.logs.as_slice()
    }
}

} // verus!
