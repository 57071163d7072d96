//! The protocol of one block execution in the sandbox, as a state
//! machine.
//!
//! The runtime owns the guest instance and does what the machine asks:
//! grow guest memory, call an export of the guest, or finish. After each
//! action it reports what happened, and the machine decides the next
//! action. The order is: reserve the host's region behind the guest's
//! memory, write the API version and call `init`, write the request and
//! the two response slots and call `execute_block`, read the response
//! where the guest left it, call `free`, and decode the response.

use vstd::prelude::*;
use vstd::bytes::spec_u32_to_le_bytes;
use crate::hostapi::state_store::StateStore;
use crate::primitives::execution::{ExecutionResponse, ExecutionResponseView};
use crate::primitives::types::{u32_to_le_bytes, zero_bytes, API_VERSION};
use crate::sandbox::error::{SandboxError, SandboxErrorView};
use crate::sandbox::host_impl::{HostState, HostStateModel};
use crate::sandbox::memory::HOST_ALLOC_PAGES;
use crate::sandbox::runtime::{
    check_execute, check_init, classify_trap, decode_response, host_region, plan_write,
    read_response, response_len_ptr, spec_decode_response, spec_host_region, spec_plan_write,
    spec_read_response, spec_write_planned, trap_error, write_planned, WritePlan,
};

verus! {

/// Where a block execution stands.
#[derive(Debug, Clone, Copy, PartialEq, Eq, Structural)]
pub enum Phase {
    /// Nothing has happened yet.
    Start,
    /// Guest memory is growing by the host's region.
    RegionGrowth,
    /// Guest memory is growing for the API version.
    VersionGrowth,
    /// The guest's `init` is running.
    Init,
    /// Guest memory is growing for the request.
    RequestGrowth,
    /// Guest memory is growing for the response slots.
    SlotsGrowth,
    /// The guest's `execute_block` is running.
    Execute,
    /// The guest's `free` is running.
    Free,
    /// The execution is over.
    Finished,
}

/// The state of a block execution between two actions.
#[derive(Debug)]
pub struct BlockRun {
    /// Where the execution stands.
    pub phase: Phase,
    /// The encoded request.
    pub request: Vec<u8>,
    /// Pages of the guest's own memory, before the host's region.
    pub guest_pages: u64,
    /// The write that waits for guest memory to grow.
    pub plan: Option<WritePlan>,
    /// Where the request was written.
    pub req_ptr: i32,
    /// Where the guest leaves the response pointer.
    pub resp_ptr_ptr: i32,
    /// Where the guest leaves the response length.
    pub resp_len_ptr: i32,
    /// The response bytes, once read.
    pub response: Vec<u8>,
}

/// Mathematical content of a [`BlockRun`].
pub struct BlockRunView {
    pub phase: Phase,
    pub request: Seq<u8>,
    pub guest_pages: u64,
    pub plan: Option<WritePlan>,
    pub req_ptr: i32,
    pub resp_ptr_ptr: i32,
    pub resp_len_ptr: i32,
    pub response: Seq<u8>,
}

impl View for BlockRun {
    type V = BlockRunView;

    open spec fn view(&self) -> BlockRunView {
        BlockRunView {
            phase: self.phase,
            request: self.request@,
            guest_pages: self.guest_pages,
            plan: self.plan,
            req_ptr: self.req_ptr,
            resp_ptr_ptr: self.resp_ptr_ptr,
            resp_len_ptr: self.resp_len_ptr,
            response: self.response@,
        }
    }
}

/// What the runtime reports after an action.
#[derive(Debug)]
pub enum GuestEvent {
    /// The guest was instantiated; its memory has this many pages.
    Instantiated { memory_pages: u64 },
    /// Guest memory has grown as asked.
    Grown,
    /// Guest memory could not grow.
    GrowFailed,
    /// The call into the guest returned this value.
    Returned(i32),
    /// The call into the guest ended with this engine error.
    Trapped(String),
}

/// Mathematical content of a [`GuestEvent`].
pub enum GuestEventView {
    Instantiated { memory_pages: u64 },
    Grown,
    GrowFailed,
    Returned(i32),
    Trapped(Seq<char>),
}

impl View for GuestEvent {
    type V = GuestEventView;

    open spec fn view(&self) -> GuestEventView {
        match *self {
            GuestEvent::Instantiated { memory_pages } => GuestEventView::Instantiated {
                memory_pages,
            },
            GuestEvent::Grown => GuestEventView::Grown,
            GuestEvent::GrowFailed => GuestEventView::GrowFailed,
            GuestEvent::Returned(code) => GuestEventView::Returned(code),
            GuestEvent::Trapped(message) => GuestEventView::Trapped(message@),
        }
    }
}

/// What the runtime is to do next.
#[derive(Debug)]
pub enum HostAction {
    /// Grow guest memory by this many pages.
    Grow(u64),
    /// Call the guest's `init`.
    CallInit { version_ptr: i32, version_len: i32 },
    /// Call the guest's `execute_block`.
    CallExecute { req_ptr: i32, req_len: i32, resp_ptr_ptr: i32, resp_len_ptr: i32 },
    /// Call the guest's `free`.
    CallFree { ptr: i32, len: i32 },
    /// The execution is over with this result.
    Finish(Result<ExecutionResponse, SandboxError>),
}

/// Mathematical content of a [`HostAction`].
pub enum HostActionView {
    Grow(u64),
    CallInit { version_ptr: i32, version_len: i32 },
    CallExecute { req_ptr: i32, req_len: i32, resp_ptr_ptr: i32, resp_len_ptr: i32 },
    CallFree { ptr: i32, len: i32 },
    Finish(Result<ExecutionResponseView, SandboxErrorView>),
}

impl View for HostAction {
    type V = HostActionView;

    open spec fn view(&self) -> HostActionView {
        match *self {
            HostAction::Grow(pages) => HostActionView::Grow(pages),
            HostAction::CallInit { version_ptr, version_len } => HostActionView::CallInit {
                version_ptr,
                version_len,
            },
            HostAction::CallExecute {
                req_ptr,
                req_len,
                resp_ptr_ptr,
                resp_len_ptr,
            } => HostActionView::CallExecute { req_ptr, req_len, resp_ptr_ptr, resp_len_ptr },
            HostAction::CallFree { ptr, len } => HostActionView::CallFree { ptr, len },
            HostAction::Finish(Ok(response)) => HostActionView::Finish(Ok(response@)),
            HostAction::Finish(Err(e)) => HostActionView::Finish(Err(e@)),
        }
    }
}

/// A step of the machine: the run, the host state and guest memory after
/// it, and the action.
pub type Step = (BlockRunView, HostStateModel, Seq<u8>, HostActionView);

/// The run ends with an error.
pub open spec fn failing(run: BlockRunView, m: HostStateModel, mem: Seq<u8>, e: SandboxErrorView) -> Step {
    (BlockRunView { phase: Phase::Finished, ..run }, m, mem, HostActionView::Finish(Err(e)))
}

/// The run waits in `phase` for guest memory to grow for `plan`.
pub open spec fn waiting(
    run: BlockRunView,
    m: HostStateModel,
    mem: Seq<u8>,
    phase: Phase,
    plan: WritePlan,
) -> Step {
    (
        BlockRunView { phase, plan: Some(plan), ..run },
        m,
        mem,
        HostActionView::Grow(plan.grow_pages),
    )
}

/// The outcome of placing bytes in the host's region.
pub enum Placing {
    /// The bytes are written at this pointer.
    Placed(i32),
    /// Guest memory must grow for this plan first.
    Grow(WritePlan),
    /// The bytes have no place.
    Failed(SandboxError),
}

/// Mathematical content of a [`Placing`].
pub enum PlacingView {
    Placed(i32),
    Grow(WritePlan),
    Failed(SandboxErrorView),
}

impl View for Placing {
    type V = PlacingView;

    open spec fn view(&self) -> PlacingView {
        match *self {
            Placing::Placed(ptr) => PlacingView::Placed(ptr),
            Placing::Grow(plan) => PlacingView::Grow(plan),
            Placing::Failed(e) => PlacingView::Failed(e@),
        }
    }
}

/// Placing `data`: written at once when the region has room, deferred to
/// after a growth of guest memory when it has not.
#[verifier::opaque]
pub open spec fn spec_place(m: HostStateModel, mem: Seq<u8>, data: Seq<u8>) -> (
    HostStateModel,
    Seq<u8>,
    PlacingView,
) {
    match spec_plan_write(m.alloc, data.len()) {
        Err(e) => (m, mem, PlacingView::Failed(e)),
        Ok(Some(plan)) => if plan.grow_pages > 0 {
            (m, mem, PlacingView::Grow(plan))
        } else {
            spec_finish_place(m, mem, data, Some(plan))
        },
        Ok(None) => spec_finish_place(m, mem, data, None),
    }
}

/// Writing `data` at the place of a plan.
#[verifier::opaque]
pub open spec fn spec_finish_place(
    m: HostStateModel,
    mem: Seq<u8>,
    data: Seq<u8>,
    plan: Option<WritePlan>,
) -> (HostStateModel, Seq<u8>, PlacingView) {
    let (m1, mem1, written) = spec_write_planned(m, mem, data, plan);
    match written {
        Ok(ptr) => (m1, mem1, PlacingView::Placed(ptr)),
        Err(e) => (m1, mem1, PlacingView::Failed(e)),
    }
}

fn finish_place<S: StateStore>(
    state: &mut HostState<S>,
    mem: &mut [u8],
    data: &[u8],
    plan: Option<WritePlan>,
) -> (placing: Placing)
    ensures
        (final(state).model(), final(mem)@, placing@) == spec_finish_place(
            old(state).model(),
            old(mem)@,
            data@,
            plan,
        ),
{
    proof {
        reveal(spec_finish_place);
    }
    match write_planned(state, mem, data, plan) {
        Ok(ptr) => Placing::Placed(ptr),
        Err(e) => Placing::Failed(e),
    }
}

fn place<S: StateStore>(state: &mut HostState<S>, mem: &mut [u8], data: &[u8]) -> (placing: Placing)
    ensures
        (final(state).model(), final(mem)@, placing@) == spec_place(
            old(state).model(),
            old(mem)@,
            data@,
        ),
{
    proof {
        reveal(spec_place);
    }
    match plan_write(state, data.len()) {
        Err(e) => Placing::Failed(e),
        Ok(Some(plan)) => {
            if plan.grow_pages > 0 {
                Placing::Grow(plan)
            } else {
                finish_place(state, mem, data, Some(plan))
            }
        },
        Ok(None) => finish_place(state, mem, data, None),
    }
}

/// The bytes of the API version as the guest's `init` reads them.
pub open spec fn version_bytes() -> Seq<u8> {
    spec_u32_to_le_bytes(API_VERSION)
}

/// After the response slots are placed: `execute_block` is called with the
/// request and the two slots, four bytes apart.
pub open spec fn after_slots(run: BlockRunView, m: HostStateModel, mem: Seq<u8>, placing: PlacingView) -> Step {
    match placing {
        PlacingView::Failed(e) => failing(run, m, mem, e),
        PlacingView::Grow(plan) => waiting(run, m, mem, Phase::SlotsGrowth, plan),
        PlacingView::Placed(ptr) => if ptr + 4 <= i32::MAX {
            (
                BlockRunView {
                    phase: Phase::Execute,
                    resp_ptr_ptr: ptr,
                    resp_len_ptr: (ptr + 4) as i32,
                    ..run
                },
                m,
                mem,
                HostActionView::CallExecute {
                    req_ptr: run.req_ptr,
                    req_len: run.request.len() as i32,
                    resp_ptr_ptr: ptr,
                    resp_len_ptr: (ptr + 4) as i32,
                },
            )
        } else {
            failing(run, m, mem, SandboxErrorView::MemoryError)
        },
    }
}

/// After the request is placed: the eight bytes of the response slots are
/// placed next.
pub open spec fn after_request(run: BlockRunView, m: HostStateModel, mem: Seq<u8>, placing: PlacingView) -> Step {
    match placing {
        PlacingView::Failed(e) => failing(run, m, mem, e),
        PlacingView::Grow(plan) => waiting(run, m, mem, Phase::RequestGrowth, plan),
        PlacingView::Placed(ptr) => {
            let run1 = BlockRunView { req_ptr: ptr, ..run };
            let (m1, mem1, slots) = spec_place(m, mem, zero_bytes(8));
            after_slots(run1, m1, mem1, slots)
        },
    }
}

/// After the API version is placed: `init` is called with it.
pub open spec fn after_version(run: BlockRunView, m: HostStateModel, mem: Seq<u8>, placing: PlacingView) -> Step {
    match placing {
        PlacingView::Failed(e) => failing(run, m, mem, e),
        PlacingView::Grow(plan) => waiting(run, m, mem, Phase::VersionGrowth, plan),
        PlacingView::Placed(ptr) => (
            BlockRunView { phase: Phase::Init, ..run },
            m,
            mem,
            HostActionView::CallInit { version_ptr: ptr, version_len: 4 },
        ),
    }
}

/// After `execute_block` returned zero: the response is read where the
/// guest left it, and `free` is called for it.
pub open spec fn after_execute(run: BlockRunView, m: HostStateModel, mem: Seq<u8>) -> Step {
    match spec_read_response(mem, run.resp_ptr_ptr, run.resp_len_ptr) {
        Err(e) => failing(run, m, mem, e),
        Ok((ptr, len, bytes)) => (
            BlockRunView { phase: Phase::Free, response: bytes, ..run },
            m,
            mem,
            HostActionView::CallFree { ptr, len },
        ),
    }
}

/// The machine: what the run does on an event.
///
/// An event that the phase does not expect ends the run with an engine
/// error. Whatever `free` does, the response is decoded afterwards.
pub open spec fn spec_advance(
    run: BlockRunView,
    m: HostStateModel,
    mem: Seq<u8>,
    event: GuestEventView,
) -> Step {
    match (run.phase, event) {
        (Phase::Start, GuestEventView::Instantiated { memory_pages }) => (
            BlockRunView { phase: Phase::RegionGrowth, guest_pages: memory_pages, ..run },
            m,
            mem,
            HostActionView::Grow(HOST_ALLOC_PAGES),
        ),
        (Phase::RegionGrowth, GuestEventView::Grown) => match spec_host_region(run.guest_pages) {
            Err(e) => failing(run, m, mem, e),
            Ok(alloc) => {
                let m1 = HostStateModel { alloc, ..m };
                let (m2, mem2, placing) = spec_place(m1, mem, version_bytes());
                after_version(run, m2, mem2, placing)
            },
        },
        (Phase::VersionGrowth, GuestEventView::Grown) => {
            let (m1, mem1, placing) = spec_finish_place(m, mem, version_bytes(), run.plan);
            after_version(run, m1, mem1, placing)
        },
        (Phase::Init, GuestEventView::Returned(code)) => if code != 0 {
            failing(run, m, mem, SandboxErrorView::InitFailed(code))
        } else {
            let (m1, mem1, placing) = spec_place(m, mem, run.request);
            after_request(run, m1, mem1, placing)
        },
        (Phase::RequestGrowth, GuestEventView::Grown) => {
            let (m1, mem1, placing) = spec_finish_place(m, mem, run.request, run.plan);
            after_request(run, m1, mem1, placing)
        },
        (Phase::SlotsGrowth, GuestEventView::Grown) => {
            let (m1, mem1, placing) = spec_finish_place(m, mem, zero_bytes(8), run.plan);
            after_slots(run, m1, mem1, placing)
        },
        (Phase::Execute, GuestEventView::Returned(code)) => if code != 0 {
            failing(run, m, mem, SandboxErrorView::ExecutionFailed(code))
        } else {
            after_execute(run, m, mem)
        },
        (Phase::Init, GuestEventView::Trapped(message)) => failing(
            run,
            m,
            mem,
            trap_error(message),
        ),
        (Phase::Execute, GuestEventView::Trapped(message)) => failing(
            run,
            m,
            mem,
            trap_error(message),
        ),
        (Phase::RegionGrowth, GuestEventView::GrowFailed) => failing(
            run,
            m,
            mem,
            SandboxErrorView::MemoryError,
        ),
        (Phase::VersionGrowth, GuestEventView::GrowFailed) => failing(
            run,
            m,
            mem,
            SandboxErrorView::MemoryError,
        ),
        (Phase::RequestGrowth, GuestEventView::GrowFailed) => failing(
            run,
            m,
            mem,
            SandboxErrorView::MemoryError,
        ),
        (Phase::SlotsGrowth, GuestEventView::GrowFailed) => failing(
            run,
            m,
            mem,
            SandboxErrorView::MemoryError,
        ),
        (Phase::Free, _) => (
            BlockRunView { phase: Phase::Finished, ..run },
            m,
            mem,
            HostActionView::Finish(spec_decode_response(run.response)),
        ),
        _ => failing(run, m, mem, SandboxErrorView::Wasmtime),
    }
}

/// How far a phase is into the protocol.
pub open spec fn phase_rank(phase: Phase) -> nat {
    match phase {
        Phase::Start => 0,
        Phase::RegionGrowth => 1,
        Phase::VersionGrowth => 2,
        Phase::Init => 3,
        Phase::RequestGrowth => 4,
        Phase::SlotsGrowth => 5,
        Phase::Execute => 6,
        Phase::Free => 7,
        Phase::Finished => 8,
    }
}

proof fn lemma_finish_place_places(
    m: HostStateModel,
    mem: Seq<u8>,
    data: Seq<u8>,
    plan: Option<WritePlan>,
)
    ensures
        !(spec_finish_place(m, mem, data, plan).2 is Grow),
{
    reveal(spec_finish_place);
}

proof fn lemma_after_slots(run: BlockRunView, m: HostStateModel, mem: Seq<u8>, placing: PlacingView)
    ensures
        phase_rank(after_slots(run, m, mem, placing).0.phase) >= 5,
        !(placing is Grow) ==> phase_rank(after_slots(run, m, mem, placing).0.phase) >= 6,
        after_slots(run, m, mem, placing).0.phase == Phase::Finished <==> after_slots(
            run,
            m,
            mem,
            placing,
        ).3 is Finish,
        after_slots(run, m, mem, placing).0.request == run.request,
{
}

proof fn lemma_after_request(run: BlockRunView, m: HostStateModel, mem: Seq<u8>, placing: PlacingView)
    ensures
        phase_rank(after_request(run, m, mem, placing).0.phase) >= 4,
        !(placing is Grow) ==> phase_rank(after_request(run, m, mem, placing).0.phase) >= 5,
        after_request(run, m, mem, placing).0.phase == Phase::Finished <==> after_request(
            run,
            m,
            mem,
            placing,
        ).3 is Finish,
        after_request(run, m, mem, placing).0.request == run.request,
{
    match placing {
        PlacingView::Placed(ptr) => {
            let run1 = BlockRunView { req_ptr: ptr, ..run };
            let (m1, mem1, slots) = spec_place(m, mem, zero_bytes(8));
            lemma_after_slots(run1, m1, mem1, slots);
        },
        _ => {},
    }
}

proof fn lemma_after_version(run: BlockRunView, m: HostStateModel, mem: Seq<u8>, placing: PlacingView)
    ensures
        phase_rank(after_version(run, m, mem, placing).0.phase) >= 2,
        !(placing is Grow) ==> phase_rank(after_version(run, m, mem, placing).0.phase) >= 3,
        after_version(run, m, mem, placing).0.phase == Phase::Finished <==> after_version(
            run,
            m,
            mem,
            placing,
        ).3 is Finish,
        after_version(run, m, mem, placing).0.request == run.request,
{
}

/// The protocol only moves forward: every step of a run that is not over
/// reaches a later phase, and the run is over exactly when the action is
/// to finish. So a run takes at most eight steps. The request is not
/// touched, and after `free` the response read before is decoded.
pub proof fn lemma_protocol_progress(
    run: BlockRunView,
    m: HostStateModel,
    mem: Seq<u8>,
    event: GuestEventView,
)
    ensures
        run.phase != Phase::Finished ==> phase_rank(spec_advance(run, m, mem, event).0.phase)
            > phase_rank(run.phase),
        spec_advance(run, m, mem, event).0.phase == Phase::Finished <==> spec_advance(
            run,
            m,
            mem,
            event,
        ).3 is Finish,
        spec_advance(run, m, mem, event).0.request == run.request,
        run.phase == Phase::Free ==> spec_advance(run, m, mem, event).3 == HostActionView::Finish(
            spec_decode_response(run.response),
        ),
{
    match (run.phase, event) {
        (Phase::RegionGrowth, GuestEventView::Grown) => {
            match spec_host_region(run.guest_pages) {
                Err(e) => {},
                Ok(alloc) => {
                    let m1 = HostStateModel { alloc, ..m };
                    let (m2, mem2, placing) = spec_place(m1, mem, version_bytes());
                    lemma_after_version(run, m2, mem2, placing);
                },
            }
        },
        (Phase::VersionGrowth, GuestEventView::Grown) => {
            let (m1, mem1, placing) = spec_finish_place(m, mem, version_bytes(), run.plan);
            lemma_finish_place_places(m, mem, version_bytes(), run.plan);
            lemma_after_version(run, m1, mem1, placing);
        },
        (Phase::Init, GuestEventView::Returned(code)) => {
            let (m1, mem1, placing) = spec_place(m, mem, run.request);
            lemma_after_request(run, m1, mem1, placing);
        },
        (Phase::RequestGrowth, GuestEventView::Grown) => {
            let (m1, mem1, placing) = spec_finish_place(m, mem, run.request, run.plan);
            lemma_finish_place_places(m, mem, run.request, run.plan);
            lemma_after_request(run, m1, mem1, placing);
        },
        (Phase::SlotsGrowth, GuestEventView::Grown) => {
            let (m1, mem1, placing) = spec_finish_place(m, mem, zero_bytes(8), run.plan);
            lemma_finish_place_places(m, mem, zero_bytes(8), run.plan);
            lemma_after_slots(run, m1, mem1, placing);
        },
        _ => {},
    }
}

impl BlockRun {
    /// A run for the encoded request, before anything has happened.
    pub fn new(request: Vec<u8>) -> (run: BlockRun)
        ensures
            run@ == (BlockRunView {
                phase: Phase::Start,
                request: request@,
                guest_pages: 0,
                plan: None,
                req_ptr: 0,
                resp_ptr_ptr: 0,
                resp_len_ptr: 0,
                response: Seq::empty(),
            }),
    {
        BlockRun {
            phase: Phase::Start,
            request,
            guest_pages: 0,
            plan: None,
            req_ptr: 0,
            resp_ptr_ptr: 0,
            resp_len_ptr: 0,
            response: Vec::new(),
        }
    }

    fn fail(&mut self, e: SandboxError) -> (action: HostAction)
        ensures
            *final(self) == (BlockRun { phase: Phase::Finished, ..*old(self) }),
            action == HostAction::Finish(Err(e)),
    {
        self.phase = Phase::Finished;
        HostAction::Finish(Err(e))
    }

    fn wait(&mut self, phase: Phase, plan: WritePlan) -> (action: HostAction)
        ensures
            *final(self) == (BlockRun { phase, plan: Some(plan), ..*old(self) }),
            action == HostAction::Grow(plan.grow_pages),
    {
        self.phase = phase;
        self.plan = Some(plan);
        HostAction::Grow(plan.grow_pages)
    }

    fn slots_placed(&mut self, placing: Placing) -> (action: HostAction)
        ensures
            forall|m: HostStateModel, mem: Seq<u8>|
                #![trigger after_slots(old(self)@, m, mem, placing@)]
                (final(self)@, m, mem, action@) == after_slots(old(self)@, m, mem, placing@),
    {
        match placing {
            Placing::Failed(e) => self.fail(e),
            Placing::Grow(plan) => self.wait(Phase::SlotsGrowth, plan),
            Placing::Placed(ptr) => {
                match response_len_ptr(ptr) {
                    Err(e) => self.fail(e),
                    Ok(len_ptr) => {
                        self.phase = Phase::Execute;
                        self.resp_ptr_ptr = ptr;
                        self.resp_len_ptr = len_ptr;
                        HostAction::CallExecute {
                            req_ptr: self.req_ptr,
                            req_len: self.request.len() as i32,
                            resp_ptr_ptr: ptr,
                            resp_len_ptr: len_ptr,
                        }
                    },
                }
            },
        }
    }

    fn request_placed<S: StateStore>(
        &mut self,
        state: &mut HostState<S>,
        mem: &mut [u8],
        placing: Placing,
    ) -> (action: HostAction)
        ensures
            (final(self)@, final(state).model(), final(mem)@, action@) == after_request(
                old(self)@,
                old(state).model(),
                old(mem)@,
                placing@,
            ),
    {
        match placing {
            Placing::Failed(e) => self.fail(e),
            Placing::Grow(plan) => self.wait(Phase::RequestGrowth, plan),
            Placing::Placed(ptr) => {
                self.req_ptr = ptr;
                let slots = [0u8; 8];
                assert(slots@ =~= zero_bytes(8));
                let placing = place(state, mem, slots.as_slice());
                let ghost before = self@;
                let action = self.slots_placed(placing);
                assert((self@, state.model(), mem@, action@) == after_slots(
                    before,
                    state.model(),
                    mem@,
                    placing@,
                ));
                action
            },
        }
    }

    fn version_placed(&mut self, placing: Placing) -> (action: HostAction)
        ensures
            forall|m: HostStateModel, mem: Seq<u8>|
                #![trigger after_version(old(self)@, m, mem, placing@)]
                (final(self)@, m, mem, action@) == after_version(old(self)@, m, mem, placing@),
    {
        match placing {
            Placing::Failed(e) => self.fail(e),
            Placing::Grow(plan) => self.wait(Phase::VersionGrowth, plan),
            Placing::Placed(ptr) => {
                self.phase = Phase::Init;
                HostAction::CallInit { version_ptr: ptr, version_len: 4 }
            },
        }
    }

    /// Takes an event from the runtime and decides the next action.
    pub fn advance<S: StateStore>(
        &mut self,
        state: &mut HostState<S>,
        mem: &mut [u8],
        event: GuestEvent,
    ) -> (action: HostAction)
        ensures
            (final(self)@, final(state).model(), final(mem)@, action@) == spec_advance(
                old(self)@,
                old(state).model(),
                old(mem)@,
                event@,
            ),
    {
        let version = u32_to_le_bytes(API_VERSION);
        match (self.phase, event) {
            (Phase::Start, GuestEvent::Instantiated { memory_pages }) => {
                self.phase = Phase::RegionGrowth;
                self.guest_pages = memory_pages;
                HostAction::Grow(HOST_ALLOC_PAGES)
            },
            (Phase::RegionGrowth, GuestEvent::Grown) => {
                match host_region(self.guest_pages) {
                    Err(e) => self.fail(e),
                    Ok(alloc) => {
                        state.host_alloc = alloc;
                        let placing = place(state, mem, version.as_slice());
                                let ghost before = self@;
                                let action = self.version_placed(placing);
                                assert((self@, state.model(), mem@, action@) == after_version(
                                    before,
                                    state.model(),
                                    mem@,
                                    placing@,
                                ));
                                action
                    },
                }
            },
            (Phase::VersionGrowth, GuestEvent::Grown) => {
                let placing = finish_place(state, mem, version.as_slice(), self.plan);
                let ghost before = self@;
                let action = self.version_placed(placing);
                assert((self@, state.model(), mem@, action@) == after_version(
                    before,
                    state.model(),
                    mem@,
                    placing@,
                ));
                action
            },
            (Phase::Init, GuestEvent::Returned(code)) => {
                match check_init(code) {
                    Err(e) => self.fail(e),
                    Ok(_) => {
                        let placing = place(state, mem, self.request.as_slice());
                        self.request_placed(state, mem, placing)
                    },
                }
            },
            (Phase::RequestGrowth, GuestEvent::Grown) => {
                let placing = finish_place(state, mem, self.request.as_slice(), self.plan);
                self.request_placed(state, mem, placing)
            },
            (Phase::SlotsGrowth, GuestEvent::Grown) => {
                let slots = [0u8; 8];
                assert(slots@ =~= zero_bytes(8));
                let placing = finish_place(state, mem, slots.as_slice(), self.plan);
                let ghost before = self@;
                let action = self.slots_placed(placing);
                assert((self@, state.model(), mem@, action@) == after_slots(
                    before,
                    state.model(),
                    mem@,
                    placing@,
                ));
                action
            },
            (Phase::Execute, GuestEvent::Returned(code)) => {
                match check_execute(code) {
                    Err(e) => self.fail(e),
                    Ok(_) => {
                        match read_response(mem, self.resp_ptr_ptr, self.resp_len_ptr) {
                            Err(e) => self.fail(e),
                            Ok((ptr, len, bytes)) => {
                                self.phase = Phase::Free;
                                self.response = bytes;
                                HostAction::CallFree { ptr, len }
                            },
                        }
                    },
                }
            },
            (Phase::Init, GuestEvent::Trapped(message)) => {
                let e = classify_trap(message);
                self.fail(e)
            },
            (Phase::Execute, GuestEvent::Trapped(message)) => {
                let e = classify_trap(message);
                self.fail(e)
            },
            (Phase::RegionGrowth, GuestEvent::GrowFailed) => self.fail(
                SandboxError::memory("initial grow"),
            ),
            (Phase::VersionGrowth, GuestEvent::GrowFailed) => self.fail(
                SandboxError::memory("alloc grow"),
            ),
            (Phase::RequestGrowth, GuestEvent::GrowFailed) => self.fail(
                SandboxError::memory("alloc grow"),
            ),
            (Phase::SlotsGrowth, GuestEvent::GrowFailed) => self.fail(
                SandboxError::memory("alloc grow"),
            ),
            (Phase::Free, _) => {
                self.phase = Phase::Finished;
                HostAction::Finish(decode_response(self.response.as_slice()))
            },
            _ => self.fail(SandboxError::Wasmtime("unexpected event".to_owned())),
        }
    }
}

} // verus!
