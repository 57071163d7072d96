//! The host state of one block execution: gas meter, overlay, committed
//! store, events, logs and the allocator of the host's memory region.

use vstd::prelude::*;
use vstd::slice::slice_to_vec;
use vstd::utf8::encode_utf8;
use crate::hostapi::error::{HostError, HostErrorView};
use crate::hostapi::gas_meter::HostGasMeter;
use crate::hostapi::state_store::{lookup_view, StateStore};
use crate::hostapi::types::ExecutionConfig;
use crate::primitives::codec::{encode_execution_context, ser_context};
use crate::primitives::error::ErrorCode;
use crate::primitives::execution::{
    events_view, logs_view, Event, EventView, ExecutionContext, ExecutionContextView, LogLine,
    LogLineView,
};
use crate::primitives::gas::GasState;
use crate::primitives::state::{OverlayResult, OverlayResultView, OverlayState, StateOverlay};
use crate::sandbox::memory::HostAllocator;

verus! {

/// The state that a block execution keeps on the host side.
pub struct HostState<S: StateStore> {
    /// The authoritative gas meter.
    pub gas_meter: HostGasMeter,
    /// Pending writes.
    pub overlay: StateOverlay,
    /// Committed state; read-only during the block.
    pub state_store: S,
    /// The block context.
    pub context: ExecutionContext,
    /// The encoded block context, as `get_context` hands it out.
    pub encoded_context: Vec<u8>,
    /// The limits of the execution.
    pub config: ExecutionConfig,
    /// Events emitted so far.
    pub events: Vec<Event>,
    /// Log lines kept so far.
    pub logs: Vec<LogLine>,
    /// Events attempted so far, kept or refused.
    pub event_count: u32,
    /// The allocator of the host's region in guest memory.
    pub host_alloc: HostAllocator,
}

/// The observable state of a [`HostState`].
pub struct HostStateModel {
    /// What a lookup in committed state returns.
    pub committed: spec_fn(Seq<u8>) -> Result<Option<Seq<u8>>, HostErrorView>,
    pub overlay: OverlayState,
    pub gas: GasState,
    pub context: ExecutionContextView,
    pub encoded_context: Seq<u8>,
    pub config: ExecutionConfig,
    pub events: Seq<EventView>,
    pub logs: Seq<LogLineView>,
    pub event_count: u32,
    pub alloc: HostAllocator,
}

impl HostStateModel {
    /// The host after a gas charge, and whether the charge succeeded.
    pub open spec fn charge(self, amount: u64) -> (HostStateModel, Result<(), HostErrorView>) {
        if self.gas.can_charge(amount) {
            (HostStateModel { gas: self.gas.charge(amount), ..self }, Ok(()))
        } else {
            (self, Err(HostErrorView::Code(ErrorCode::OutOfGas)))
        }
    }

    /// A layered read: the overlay's value, nothing for a deleted key, the
    /// store's answer for an untouched key. A key longer than the
    /// configured maximum is refused.
    pub open spec fn state_get(self, key: Seq<u8>) -> Result<Option<Seq<u8>>, HostErrorView> {
        if key.len() > self.config.max_key_len {
            Err(HostErrorView::Code(ErrorCode::KeyTooLarge))
        } else {
            match self.overlay.get(key) {
                OverlayResultView::Found(v) => Ok(Some(v)),
                OverlayResultView::Deleted => Ok(None),
                OverlayResultView::NotInOverlay => (self.committed)(key),
            }
        }
    }

    /// The host after `state_set`. A key that is empty or too long and a
    /// value that is too long are refused before anything is written. The
    /// write limit is checked after the write: a write that passes it
    /// stays in the overlay and is answered with write-limit.
    pub open spec fn state_set(self, key: Seq<u8>, value: Seq<u8>) -> (HostStateModel, Result<
        (),
        HostErrorView,
    >) {
        if key.len() > self.config.max_key_len {
            (self, Err(HostErrorView::Code(ErrorCode::KeyTooLarge)))
        } else if value.len() > self.config.max_value_len {
            (self, Err(HostErrorView::Code(ErrorCode::ValueTooLarge)))
        } else if key.len() == 0 {
            (self, Err(HostErrorView::Code(ErrorCode::KeyTooLarge)))
        } else {
            let written = HostStateModel { overlay: self.overlay.set(key, value), ..self };
            if written.overlay.total_write_bytes > self.config.max_write_bytes {
                (written, Err(HostErrorView::Code(ErrorCode::WriteLimit)))
            } else {
                (written, Ok(()))
            }
        }
    }

    /// The host after `state_delete`. A key that is empty or too long is
    /// refused.
    pub open spec fn state_delete(self, key: Seq<u8>) -> (HostStateModel, Result<
        (),
        HostErrorView,
    >) {
        if key.len() > self.config.max_key_len || key.len() == 0 {
            (self, Err(HostErrorView::Code(ErrorCode::KeyTooLarge)))
        } else {
            (HostStateModel { overlay: self.overlay.delete(key), ..self }, Ok(()))
        }
    }

    /// The count of events attempted, after one more; it stops at
    /// `u32::MAX`.
    pub open spec fn next_event_count(self) -> u32 {
        if self.event_count == u32::MAX {
            u32::MAX
        } else {
            (self.event_count + 1) as u32
        }
    }

    /// The host after `add_event`: every attempt is counted, and the event
    /// is kept unless the count has passed `max_events`.
    pub open spec fn add_event(self, event: EventView) -> (HostStateModel, Result<
        (),
        HostErrorView,
    >) {
        if self.event_count == u32::MAX || self.next_event_count() > self.config.max_events {
            (
                HostStateModel { event_count: self.next_event_count(), ..self },
                Err(HostErrorView::Code(ErrorCode::EventLimit)),
            )
        } else {
            (
                HostStateModel {
                    event_count: self.next_event_count(),
                    events: self.events.push(event),
                    ..self
                },
                Ok(()),
            )
        }
    }

    /// The host after `add_log`: a line longer than `max_log_line_len`
    /// bytes, and any line once `max_log_lines` lines are kept, is dropped.
    pub open spec fn add_log(self, level: u32, message: Seq<char>) -> HostStateModel {
        if encode_utf8(message).len() > self.config.max_log_line_len {
            self
        } else if self.logs.len() >= self.config.max_log_lines {
            self
        } else {
            HostStateModel { logs: self.logs.push(LogLineView { level, message }), ..self }
        }
    }
}

/// The content of the result of a call that returns nothing.
pub open spec fn host_unit_view(r: Result<(), HostError>) -> Result<(), HostErrorView> {
    match r {
        Ok(_) => Ok(()),
        Err(e) => Err(e@),
    }
}

impl<S: StateStore> HostState<S> {
    /// The observable state.
    pub open spec fn model(&self) -> HostStateModel {
        HostStateModel {
            committed: |key: Seq<u8>| self.state_store.lookup(key),
            overlay: self.overlay@,
            gas: self.gas_meter@,
            context: self.context@,
            encoded_context: self.encoded_context@,
            config: self.config,
            events: events_view(self.events@),
            logs: logs_view(self.logs@),
            event_count: self.event_count,
            alloc: self.host_alloc,
        }
    }

    /// The host state of a fresh execution: nothing consumed, written,
    /// emitted or logged, and an allocator that is set once the guest's
    /// memory is known.
    pub fn new(state_store: S, context: ExecutionContext, config: ExecutionConfig) -> (state:
        HostState<S>)
        ensures
            state.state_store == state_store,
            state.model().overlay == OverlayState::empty(),
            state.model().gas == (GasState { limit: config.gas_limit, consumed: 0 }),
            state.model().context == context@,
            state.model().encoded_context == ser_context(context@),
            state.model().config == config,
            state.model().events == Seq::<EventView>::empty(),
            state.model().logs == Seq::<LogLineView>::empty(),
            state.model().event_count == 0,
            state.model().alloc == (HostAllocator { base: 0, bump: 0, capacity: 0 }),
    {
        let gas_meter = HostGasMeter::new(config.gas_limit);
        let encoded_context = encode_execution_context(&context);
        let state = HostState {
            gas_meter,
            overlay: StateOverlay::new(),
            state_store,
            context,
            encoded_context,
            config,
            events: Vec::new(),
            logs: Vec::new(),
            event_count: 0,
            host_alloc: HostAllocator::new(0, 0),
        };
        state
    }

    /// Reads a key: the overlay first, then the committed store.
    pub fn state_get(&self, key: &[u8]) -> (r: Result<Option<Vec<u8>>, HostError>)
        ensures
            lookup_view(r) == self.model().state_get(key@),
    {
        if key.len() > self.config.max_key_len {
            return Err(HostError::key_too_large());
        }
        match self.overlay.get(key) {
            OverlayResult::Found(v) => Ok(Some(v)),
            OverlayResult::Deleted => Ok(None),
            OverlayResult::NotInOverlay => self.state_store.get(key),
        }
    }

    /// Writes a key to the overlay, within the size and write limits.
    pub fn state_set(&mut self, key: &[u8], value: &[u8]) -> (r: Result<(), HostError>)
        ensures
            (final(self).model(), host_unit_view(r)) == old(self).model().state_set(key@, value@),
    {
        if key.len() > self.config.max_key_len {
            return Err(HostError::key_too_large());
        }
        if value.len() > self.config.max_value_len {
            return Err(HostError::value_too_large());
        }
        if key.len() == 0 {
            return Err(HostError::key_too_large());
        }
        self.overlay.set(slice_to_vec(key), slice_to_vec(value));
        if self.overlay.total_write_bytes() > self.config.max_write_bytes as u64 {
            return Err(HostError::write_limit());
        }
        Ok(())
    }

    /// Records a delete of a key in the overlay.
    pub fn state_delete(&mut self, key: &[u8]) -> (r: Result<(), HostError>)
        ensures
            (final(self).model(), host_unit_view(r)) == old(self).model().state_delete(key@),
    {
        if key.len() > self.config.max_key_len {
            return Err(HostError::key_too_large());
        }
        if key.len() == 0 {
            return Err(HostError::key_too_large());
        }
        self.overlay.delete(slice_to_vec(key));
        Ok(())
    }

    /// Records an emitted event, within the event limit.
    pub fn add_event(&mut self, event: Event) -> (r: Result<(), HostError>)
        ensures
            (final(self).model(), host_unit_view(r)) == old(self).model().add_event(event@),
    {
        let next = match self.event_count.checked_add(1) {
            Some(v) => v,
            None => {
                return Err(HostError::event_limit());
            },
        };
        self.event_count = next;
        if self.event_count > self.config.max_events {
            return Err(HostError::event_limit());
        }
        self.events.push(event);
        assert(events_view(self.events@) =~= events_view(old(self).events@).push(event@));
        Ok(())
    }

    /// Records a log line, unless it is too long or the log is full. Never
    /// fails.
    pub fn add_log(&mut self, level: u32, message: String) -> (r: Result<(), HostError>)
        ensures
            r is Ok,
            final(self).model() == old(self).model().add_log(level, message@),
    {
        let line_len = message.as_str().as_bytes().len();
        if line_len > self.config.max_log_line_len {
            return Ok(());
        }
        if self.logs.len() >= self.config.max_log_lines as usize {
            return Ok(());
        }
        self.logs.push(LogLine { level, message });
        assert(logs_view(self.logs@) =~= logs_view(old(self).logs@).push(
            LogLineView { level, message: message@ },
        ));
        Ok(())
    }
}

} // verus!
