//! The decode path: completions are collected, a request is checked, its
//! buffers are prepared, and its instruction stream is handed to the hardware.

use crate::arith::{ceil_div, div_ceil_u64, round_up_usize, rounded_up};
use crate::avd::backend::{
    addr_plus, finish_ops, finished, frame_of, granule_of, output_in_range, output_kept, output_prepared,
    session_claimed, session_of, session_of_is_first, AvdBackendSession, AvdBackendState,
    AvdPendingDecode, AvdReferenceOutput, AvdSessionWorkspace, BackendView, PendingInfo,
    Held, SessionView, VideoAbi, VideoDecodeRequest, VideoDecodedFrame, WorkspaceInfo, claimed,
    completed_without, first_free, fresh_session, pending_without,
    AVD_DECODE_POLL_LIMIT, AVD_DMA_GRANULE, AVD_MAPPED_INPUT_BYTES, AVD_WORKSPACE_BYTES,
    AVD_WORKSPACE_INST_FIFO_BYTES, AVD_WORKSPACE_INST_FIFO_OFFSET, AVD_WORKSPACE_PPS_TILE_OFFSET, AVD_WORKSPACE_REFERENCE_OFFSET,
    AVD_WORKSPACE_SPS_TILE_OFFSET,
};
use crate::avd::common::AvdDmaRange;
use crate::avd::device::{
    polled, recover_ops, recovered, submit_ops, AppleAvd, AvdError, AvdFirmwareCommand,
    AvdFirmwareState, AvdView, 
};
use crate::avd::firmware::AvdFirmwareMessage;
use crate::avd::h264::{
    AvdFrameLayout, H264FrontendError, H264StatelessParams, H264StreamParameters,
};
use crate::avd::h264_refs::AvdH264ReferencePicture;
use crate::avd::h264_stream::{
    buildable, can_build, instruction_words, is_idr_slice, request_lowered,
    AvdH264InstructionStream, AvdH264Workspace, H264DecodeRequest,
};
use crate::avd::registers::{H264_STATUS_DONE_MASK, H264_STATUS_ERROR_MASK};
use crate::avd::trace::AvdTraceKind;
use crate::avd::words::kept;
use crate::bus::{rd, wr, Bus, Mmio, Op};
use crate::bytes::{le32_all, le32_all_len, push_zeros};
use crate::platform::PAGE_SIZE;
use crate::ports::video::{
    allocated_at, mapped_at, AvdMemory, AvdMemoryPort, AvdPlatform, AvdPort, MemoryCall, PlatformCall,
};
use vstd::prelude::*;

verus! {

/// What the hardware's answer means for the oldest pending decode.
#[derive(Clone, Copy, Debug, PartialEq, Eq, Structural)]
pub enum Verdict {
    /// Nothing is pending.
    Idle,
    /// The engine reported an error.
    Failed,
    /// The decode has completed.
    Finished,
    /// The decode is still running.
    Waiting,
    /// The decode was looked at too often.
    TimedOut,
}

/// A count one on, up to the largest.
pub open spec fn one_more(n: usize) -> usize {
    if n == usize::MAX {
        n
    } else {
        (n + 1) as usize
    }
}

/// The verdict on the oldest pending decode. An error outweighs a completion,
/// and a status that has not changed since the submission counts for neither.
pub open spec fn verdict(
    pending: Seq<PendingInfo>,
    message: Option<AvdFirmwareMessage>,
    status: u32,
) -> Verdict {
    if pending.len() == 0 {
        Verdict::Idle
    } else {
        let front = pending[0];
        let changed = status != front.status_before;
        if changed && status & 0x0000_0003 != 0 {
            Verdict::Failed
        } else if (message is Some && message->0.completes()) || (changed && status & 0x0084_2108
            != 0) {
            Verdict::Finished
        } else if one_more(front.poll_count) > 10_000 {
            Verdict::TimedOut
        } else {
            Verdict::Waiting
        }
    }
}

/// Judges the oldest pending decode.
pub fn judge(front: &PendingInfo, message: Option<AvdFirmwareMessage>, status: u32) -> (r: Verdict)
    ensures
        r == verdict(seq![*front], message, status),
{
    let changed = status != front.status_before;
    if changed && status & H264_STATUS_ERROR_MASK != 0 {
        return Verdict::Failed;
    }
    let by_mailbox = match message {
        Some(message) => message.is_completion(),
        None => false,
    };
    if by_mailbox || (changed && status & H264_STATUS_DONE_MASK != 0) {
        return Verdict::Finished;
    }
    if front.poll_count.saturating_add(1) > AVD_DECODE_POLL_LIMIT {
        Verdict::TimedOut
    } else {
        Verdict::Waiting
    }
}

/// Headers of all pending decodes lie in the address space.
pub open spec fn pending_ok(pending: Seq<PendingInfo>) -> bool {
    forall|i: int|
        0 <= i < pending.len() ==> (#[trigger] pending[i]).output_header_vaddr + 20 <= usize::MAX
}

/// The accesses behind a verdict.
pub open spec fn verdict_ops(base: usize, abi: VideoAbi, s: BackendView, v: Verdict) -> Seq<Op> {
    match v {
        Verdict::Failed | Verdict::TimedOut => recover_ops(base),
        Verdict::Finished => finish_ops(abi, s.pending[0]),
        _ => Seq::empty(),
    }
}

/// The state without its oldest pending decode.
pub open spec fn popped(s: BackendView) -> BackendView {
    BackendView { pending: s.pending.skip(1), ..s }
}

/// The state behind a verdict.
pub open spec fn judged(s: BackendView, abi: VideoAbi, v: Verdict) -> BackendView {
    match v {
        Verdict::Idle => s,
        Verdict::Failed | Verdict::TimedOut => popped(s),
        Verdict::Finished => match session_of(s.sessions, s.pending[0].stream_id, 0) {
            Some(at) => finished(popped(s), abi, s.pending[0], at),
            None => popped(s),
        },
        Verdict::Waiting => BackendView {
            pending: s.pending.update(
                0,
                PendingInfo { poll_count: one_more(s.pending[0].poll_count), ..s.pending[0] },
            ),
            ..s
        },
    }
}

/// The decoder behind a verdict.
pub open spec fn device_judged(d: AvdView, s: BackendView, status: u32, v: Verdict) -> AvdView {
    match v {
        Verdict::Failed | Verdict::TimedOut => recovered(d, status as u64),
        Verdict::Finished => if session_of(s.sessions, s.pending[0].stream_id, 0) is Some {
            d.traced(AvdTraceKind::DecodeComplete, status as u64, 0)
        } else {
            d
        },
        _ => d,
    }
}

/// What is reported of a verdict.
pub open spec fn verdict_result(s: BackendView, v: Verdict) -> Result<(), AvdError> {
    match v {
        Verdict::Failed => Err(AvdError::EngineError),
        Verdict::TimedOut => Err(AvdError::DecodeTimeout),
        Verdict::Finished => if session_of(s.sessions, s.pending[0].stream_id, 0) is Some {
            Ok(())
        } else {
            Err(AvdError::InvalidStream)
        },
        _ => Ok(()),
    }
}

/// Everything that collecting completions did: one look at the mailbox, one at
/// the engine's status, and what the verdict asks for.
pub open spec fn serviced_with<D>(
    device: (&AppleAvd<D>, &AppleAvd<D>),
    state: (BackendView, BackendView),
    abi: VideoAbi,
    ops: (Seq<Op>, Seq<Op>),
    r: Result<(), AvdError>,
    seen: (&AppleAvd<D>, Seq<Op>, Option<AvdFirmwareMessage>, u32),
    status: u32,
) -> bool {
    let base = device.0.registers.base;
    let v = verdict(state.0.pending, seen.2, status);
    &&& polled(device.0, seen.0, (ops.0, seen.1), seen.2, seen.3)
    &&& ops.1 == seen.1.push(rd(base, 0x1104060, status)) + verdict_ops(base, abi, state.0, v)
    &&& device.1.same_device(*device.0)
    &&& device.1.view() == device_judged(seen.0.view(), state.0, status, v)
    &&& state.1 == judged(state.0, abi, v)
    &&& r == verdict_result(state.0, v)
}

/// Completions were collected.
pub open spec fn serviced<D>(
    device: (&AppleAvd<D>, &AppleAvd<D>),
    state: (BackendView, BackendView),
    abi: VideoAbi,
    ops: (Seq<Op>, Seq<Op>),
    r: Result<(), AvdError>,
) -> bool {
    exists|seen: (&AppleAvd<D>, Seq<Op>, Option<AvdFirmwareMessage>, u32), status: u32| #[trigger]
        serviced_with(device, state, abi, ops, r, seen, status)
}

proof fn front_decides(
    pending: Seq<PendingInfo>,
    message: Option<AvdFirmwareMessage>,
    status: u32,
)
    requires
        pending.len() > 0,
    ensures
        verdict(seq![pending[0]], message, status) == verdict(pending, message, status),
{
}

/// Collecting completions drops the input of the foremost decode or none.
pub open spec fn inputs_serviced<H>(before: Seq<H>, after: Seq<H>) -> bool {
    after == before || (before.len() > 0 && after == before.skip(1))
}

/// Collects completions: looks at mailbox and status once and acts on the
/// oldest pending decode.
pub fn service_completions<D, H, M: Mmio>(
    avd: &mut AppleAvd<D>,
    state: &mut AvdBackendState<H>,
    bus: &mut Bus<M>,
    abi: &VideoAbi,
) -> (r: Result<(), AvdError>)
    requires
        old(avd).wf(),
        pending_ok(old(state).view().pending),
    ensures
        final(avd).wf(),
        pending_ok(final(state).view().pending),
        final(state).view().sessions.len() == old(state).view().sessions.len(),
        final(state).held() == old(state).held(),
        inputs_serviced(old(state).inputs(), final(state).inputs()),
        serviced(
            (&*old(avd), &*final(avd)),
            (old(state).view(), final(state).view()),
            *abi,
            (old(bus).ops(), final(bus).ops()),
            r,
        ),
{
    let ghost device = *avd;
    let ghost s = state.view();
    let ghost ops = bus.ops();
    let message = avd.poll_firmware_message(bus);
    let ghost looked = *avd;
    let ghost looked_ops = bus.ops();
    let ghost raw = choose|raw: u32| #[trigger]
        polled(&device, &looked, (ops, looked_ops), message, raw);
    let ghost seen = (&looked, looked_ops, message, raw);
    let status: u32 = avd.h264_status(bus);
    let ghost base = device.registers.base;
    let ghost stated = bus.ops();
    if state.pending.len() == 0 {
        let r: Result<(), AvdError> = Ok(());
        proof {
            assert(bus.ops() =~= stated + Seq::<Op>::empty());
            assert(serviced_with(
                (&device, &*avd),
                (s, state.view()),
                *abi,
                (ops, bus.ops()),
                r,
                seen,
                status,
            ));
        }
        return r;
    }
    proof {
        session_of_is_first(s.sessions, s.pending[0].stream_id, 0);
        front_decides(s.pending, message, status);
        assert(s.pending[0] == state.pending@[0].info);
    }
    let ghost v = verdict(s.pending, message, status);
    let found = judge(&state.pending[0].info, message, status);
    match found {
        Verdict::Failed | Verdict::TimedOut => {
            state.pending.remove(0);
            assert(state.inputs() =~= old(state).inputs().skip(1));
            assert(state.held() =~= old(state).held());
            assert(state.view().pending =~= s.pending.skip(1));
            assert(state.view().sessions =~= s.sessions);
            avd.recover_h264_engine(bus, status as u64);
            let r: Result<(), AvdError> = match found {
                Verdict::Failed => Err(AvdError::EngineError),
                _ => Err(AvdError::DecodeTimeout),
            };
            assert(serviced_with(
                (&device, &*avd),
                (s, state.view()),
                *abi,
                (ops, bus.ops()),
                r,
                seen,
                status,
            ));
            r
        },
        Verdict::Finished => {
            let done = state.pending.remove(0);
            let info: PendingInfo = done.info;
            assert(state.inputs() =~= old(state).inputs().skip(1));
            assert(state.held() =~= old(state).held());
            assert(state.view().pending =~= s.pending.skip(1));
            assert(state.view().sessions =~= s.sessions);
            assert(state.view() == popped(s));
            let r = state.finish_pending_decode(bus, abi, &info);
            if let Ok(_) = r {
                avd.record(AvdTraceKind::DecodeComplete, status as u64, 0);
            }
            assert(serviced_with(
                (&device, &*avd),
                (s, state.view()),
                *abi,
                (ops, bus.ops()),
                r,
                seen,
                status,
            ));
            r
        },
        _ => {
            let more: usize = state.pending[0].info.poll_count.saturating_add(1);
            let front = &mut state.pending[0];
            front.info.poll_count = more;
            proof {
                assert(state.view().pending =~= judged(s, *abi, v).pending);
                assert(state.inputs() =~= old(state).inputs());
                assert(state.held() =~= old(state).held());
                assert(state.view().sessions =~= s.sessions);
                assert(bus.ops() =~= stated + Seq::<Op>::empty());
            }
            let r: Result<(), AvdError> = Ok(());
            assert(serviced_with(
                (&device, &*avd),
                (s, state.view()),
                *abi,
                (ops, bus.ops()),
                r,
                seen,
                status,
            ));
            r
        },
    }
}

/// A pending decode never outlives the bound on looks: while it waits, its count
/// stays within it.
pub proof fn waiting_is_bounded(
    s: BackendView,
    abi: VideoAbi,
    message: Option<AvdFirmwareMessage>,
    status: u32,
)
    ensures
        verdict(s.pending, message, status) == Verdict::Waiting ==> judged(
            s,
            abi,
            Verdict::Waiting,
        ).pending[0].poll_count <= 10_000 && judged(s, abi, Verdict::Waiting).pending[0].poll_count
            == s.pending[0].poll_count + 1,
{
}

/// Opens a session for a format that the decoder knows.
pub fn create_session<H>(state: &mut AvdBackendState<H>, abi: &VideoAbi, coded_format: u32) -> (r:
    Result<u32, AvdError>)
    ensures
        if coded_format != abi.format_h264 {
            r == Err::<u32, AvdError>(AvdError::UnsupportedSession) && final(state).view() == old(
                state,
            ).view()
        } else {
            match first_free(old(state).view().sessions, 0) {
                Some(i) => {
                    &&& r == Ok::<u32, AvdError>(old(state).view().sessions[i].stream_id)
                    &&& final(state).view() == old(state).view().with_session(
                        i,
                        claimed(old(state).view().sessions[i], coded_format),
                    )
                },
                None => r == Err::<u32, AvdError>(AvdError::NoFreeSessions) && final(state).view()
                    == old(state).view(),
            }
        },
{
    if coded_format != abi.format_h264 {
        return Err(AvdError::UnsupportedSession);
    }
    state.allocate_session(coded_format)
}

/// A stream has a decode pending.
pub open spec fn stream_pending(pending: Seq<PendingInfo>, stream_id: u32) -> bool {
    exists|i: int| 0 <= i < pending.len() && (#[trigger] pending[i]).stream_id == stream_id
}

/// Closes a session; the engine is recovered where a decode of it was pending.
pub fn destroy_session<D, H, M: Mmio>(
    avd: &mut AppleAvd<D>,
    state: &mut AvdBackendState<H>,
    bus: &mut Bus<M>,
    stream_id: u32,
) -> (r: Result<(), AvdError>)
    requires
        old(avd).wf(),
    ensures
        final(avd).wf(),
        final(avd).same_device(*old(avd)),
        ({
            let s = old(state).view();
            let at = session_of(s.sessions, stream_id, 0);
            if at is None {
                &&& r == Err::<(), AvdError>(AvdError::InvalidStream)
                &&& final(state).view() == s
                &&& final(avd).view() == old(avd).view()
                &&& final(bus).ops() == old(bus).ops()
            } else if !s.sessions[at->0].active {
                &&& r == Err::<(), AvdError>(AvdError::InactiveStream)
                &&& final(state).view() == s
                &&& final(avd).view() == old(avd).view()
                &&& final(bus).ops() == old(bus).ops()
            } else {
                &&& r == Ok::<(), AvdError>(())
                &&& final(state).view() == (BackendView {
                    sessions: s.sessions.update(
                        at->0,
                        fresh_session(s.sessions[at->0].stream_id),
                    ),
                    pending: pending_without(s.pending, stream_id),
                    completed: completed_without(s.completed, stream_id),
                })
                &&& if stream_pending(s.pending, stream_id) {
                    &&& final(avd).view() == recovered(old(avd).view(), stream_id as u64)
                    &&& final(bus).ops() == old(bus).ops() + recover_ops(old(avd).registers.base)
                } else {
                    &&& final(avd).view() == old(avd).view()
                    &&& final(bus).ops() == old(bus).ops()
                }
            }
        }),
{
    let had_pending = state.has_pending_for_stream(stream_id);
    match state.destroy_session(stream_id) {
        Ok(_) => {},
        Err(error) => {
            return Err(error);
        },
    }
    if had_pending {
        avd.recover_h264_engine(bus, stream_id as u64);
    }
    Ok(())
}

/// Collects completions and hands out the oldest frame of a stream.
pub fn dequeue_frame<D, H, M: Mmio>(
    avd: &mut AppleAvd<D>,
    state: &mut AvdBackendState<H>,
    bus: &mut Bus<M>,
    abi: &VideoAbi,
    stream_id: u32,
) -> (r: Result<Option<VideoDecodedFrame>, AvdError>)
    requires
        old(avd).wf(),
        pending_ok(old(state).view().pending),
    ensures
        final(avd).wf(),
        pending_ok(final(state).view().pending),
        dequeued(
            (&*old(avd), &*final(avd)),
            (old(state).view(), final(state).view()),
            *abi,
            (old(bus).ops(), final(bus).ops()),
            stream_id,
            r,
        ),
{
    let ghost device = *avd;
    let ghost s = state.view();
    let ghost ops = bus.ops();
    let service = service_completions(avd, state, bus, abi);
    let ghost mid = state.view();
    assert(serviced((&device, &*avd), (s, mid), *abi, (ops, bus.ops()), service));
    if let Err(error) = service {
        let r: Result<Option<VideoDecodedFrame>, AvdError> = Err(error);
        proof {
            assert(dequeued_from(
                (&device, &*avd),
                (s, state.view()),
                *abi,
                (ops, bus.ops()),
                stream_id,
                r,
                mid,
                service,
            ));
        }
        return r;
    }
    let frame = state.take_frame(stream_id);
    let r: Result<Option<VideoDecodedFrame>, AvdError> = Ok(frame);
    proof {
        assert(dequeued_from(
            (&device, &*avd),
            (s, state.view()),
            *abi,
            (ops, bus.ops()),
            stream_id,
            r,
            mid,
            service,
        ));
    }
    r
}

/// A frame was fetched, or nothing was there, or collecting failed.
pub open spec fn dequeued<D>(
    device: (&AppleAvd<D>, &AppleAvd<D>),
    state: (BackendView, BackendView),
    abi: VideoAbi,
    ops: (Seq<Op>, Seq<Op>),
    stream_id: u32,
    r: Result<Option<VideoDecodedFrame>, AvdError>,
) -> bool {
    exists|mid: BackendView, service: Result<(), AvdError>| #[trigger]
        dequeued_from(device, state, abi, ops, stream_id, r, mid, service)
}

/// A frame was fetched from the state that collecting left.
pub open spec fn dequeued_from<D>(
    device: (&AppleAvd<D>, &AppleAvd<D>),
    state: (BackendView, BackendView),
    abi: VideoAbi,
    ops: (Seq<Op>, Seq<Op>),
    stream_id: u32,
    r: Result<Option<VideoDecodedFrame>, AvdError>,
    mid: BackendView,
    service: Result<(), AvdError>,
) -> bool {
    &&& serviced(device, (state.0, mid), abi, ops, service)
    &&& if service is Err {
        &&& r is Err
        &&& r->Err_0 == service->Err_0
        &&& state.1 == mid
    } else {
        match frame_of(mid.completed, stream_id, 0) {
            None => r == Ok::<Option<VideoDecodedFrame>, AvdError>(None) && state.1 == mid,
            Some(i) => r == Ok::<Option<VideoDecodedFrame>, AvdError>(Some(mid.completed[i]))
                && state.1 == (BackendView { completed: mid.completed.remove(i), ..mid }),
        }
    }
}

/// Why a request is refused before anything is done, if it is.
pub open spec fn request_refusal(abi: VideoAbi, request: VideoDecodeRequest) -> Option<AvdError> {
    if request.coded_format != abi.format_h264 {
        Some(AvdError::UnsupportedFormat)
    } else if request.input_len == 0 {
        Some(AvdError::EmptyInput)
    } else if request.output_len <= abi.frame_header_len {
        Some(AvdError::OutputTooSmall)
    } else if request.input_len > 0x80_0000 {
        Some(AvdError::InputTooLarge)
    } else {
        None
    }
}

/// Checks a request before anything is done.
pub fn check_request(abi: &VideoAbi, request: &VideoDecodeRequest) -> (r: Result<(), AvdError>)
    ensures
        match request_refusal(*abi, *request) {
            Some(e) => r == Err::<(), AvdError>(e),
            None => r == Ok::<(), AvdError>(()),
        },
{
    if request.coded_format != abi.format_h264 {
        return Err(AvdError::UnsupportedFormat);
    }
    if request.input_len == 0 {
        return Err(AvdError::EmptyInput);
    }
    if request.output_len as usize <= abi.frame_header_len {
        return Err(AvdError::OutputTooSmall);
    }
    if request.input_len as usize > AVD_MAPPED_INPUT_BYTES {
        return Err(AvdError::InputTooLarge);
    }
    Ok(())
}

/// Frame layout of a stream.
pub open spec fn layout_of(p: H264StreamParameters) -> AvdFrameLayout {
    AvdFrameLayout {
        width: p.coded_width,
        height: p.coded_height,
        y_stride: crate::arith::aligned_up(p.coded_width as int, 64) as u32,
        uv_stride: crate::arith::aligned_up(p.coded_width as int, 64) as u32,
        pixel_format: crate::avd::common::PixelFormat::Nv12,
    }
}

/// The frames of a stream fit the machine's arithmetic.
pub open spec fn stream_ok(p: H264StreamParameters) -> bool {
    &&& p.coded_width + 63 <= u32::MAX
    &&& layout_of(p).output_bytes() + 0x8000 <= usize::MAX
    &&& layout_of(p).rvra_fits()
}

/// Whether the frames of a stream fit the machine's arithmetic.
pub fn check_stream(p: &H264StreamParameters) -> (r: bool)
    ensures
        r == stream_ok(*p),
{
    if p.coded_width > u32::MAX - 63 {
        return false;
    }
    let layout = p.nv12_layout();
    assert(layout == layout_of(*p));
    let y: u128 = layout.y_stride as u128;
    let h: u128 = layout.height as u128;
    assert(0 <= y * h <= 0xffff_ffff * 0xffff_ffff && 0 <= y * (h / 2) <= 0xffff_ffff
        * 0xffff_ffff) by (nonlinear_arith)
        requires
            0 <= y <= 0xffff_ffff,
            0 <= h <= 0xffff_ffff,
    ;
    let bytes: u128 = y * h + y * (h / 2);
    bytes + 0x8000 <= usize::MAX as u128 && layout.check_rvra()
}

/// The instruction window of a work area lies in the address space.
pub open spec fn workspace_ok(w: WorkspaceInfo) -> bool {
    w.vaddr + 0x104000 <= usize::MAX
}

/// Stream and work area of a session fit the machine's arithmetic.
pub open spec fn session_ok(s: SessionView) -> bool {
    &&& s.stream_parameters is Some ==> stream_ok(s.stream_parameters->0)
    &&& s.workspace is Some ==> workspace_ok(s.workspace->0)
}

/// All sessions fit the machine's arithmetic.
pub open spec fn sessions_ok(sessions: Seq<SessionView>) -> bool {
    forall|i: int| 0 <= i < sessions.len() ==> session_ok(#[trigger] sessions[i])
}

/// The input of a request, opened: mapped for the device and read.
pub struct OpenedInput {
    /// Session of the request.
    pub at: int,
    pub parameters: H264StreamParameters,
    pub dma_addr: u64,
    pub frame_number: u32,
    pub bytes: Seq<u8>,
}

/// A frame number one on.
pub open spec fn next_frame_number(n: u32) -> u32 {
    if n == u32::MAX {
        0
    } else {
        (n + 1) as u32
    }
}

/// What opening the input of a request does.
pub open spec fn input_opened(
    state: (BackendView, BackendView),
    ops: (Seq<Op>, Seq<Op>),
    calls: (Seq<MemoryCall>, Seq<MemoryCall>),
    request: VideoDecodeRequest,
    parsed: Result<Option<H264StreamParameters>, H264FrontendError>,
    r: Result<OpenedInput, AvdError>,
    claim: (BackendView, Result<usize, AvdError>),
    granule: usize,
    bytes: Seq<u8>,
    reply: Option<u64>,
) -> bool {
    let len = rounded_up(request.input_len as usize, granule_of(granule, 4096));
    let asked = calls.0.push(MemoryCall::Granule(granule));
    if request.input_len + granule_of(granule, 4096) - 1 > usize::MAX {
        &&& r is Err
        &&& r->Err_0 == AvdError::InputMap
        &&& state.1 == state.0
        &&& ops.1 == ops.0
        &&& calls.1 == asked
    } else {
        &&& bytes.len() == request.input_len
        &&& ops.1 == ops.0 + seq![
            Op::CleanInvalidate { addr: request.input_vaddr, len },
            Op::ReadBytes { addr: request.input_vaddr, bytes },
        ]
        &&& if parsed is Err {
            &&& r is Err
            &&& r->Err_0 == AvdError::H264(parsed->Err_0)
            &&& state.1 == state.0
            &&& calls.1 == asked
        } else {
            &&& session_claimed(
                state.0,
                claim.0,
                request.stream_id,
                request.coded_format,
                claim.1,
            )
            &&& if claim.1 is Err {
                &&& r is Err
                &&& r->Err_0 == claim.1->Err_0
                &&& state.1 == claim.0
                &&& calls.1 == asked
            } else {
                let at = claim.1->Ok_0 as int;
                let s = claim.0.sessions[at];
                let known = if parsed->Ok_0 is Some {
                    parsed->Ok_0
                } else {
                    s.stream_parameters
                };
                if known is None {
                    &&& r is Err
                    &&& r->Err_0 == AvdError::MissingSps
                    &&& state.1 == claim.0
                    &&& calls.1 == asked
                } else if !stream_ok(known->0) {
                    &&& r is Err
                    &&& r->Err_0 == AvdError::AddressRange
                    &&& state.1 == claim.0
                    &&& calls.1 == asked
                } else {
                    let told = SessionView { stream_parameters: known, ..s };
                    &&& calls.1 == asked.push(
                        MemoryCall::Mapped {
                            paddr: request.input_paddr,
                            len,
                            writable: false,
                            reply,
                        },
                    )
                    &&& if reply is None {
                        &&& r is Err
                        &&& r->Err_0 == AvdError::InputMap
                        &&& state.1 == claim.0.with_session(at, told)
                    } else {
                        &&& r == Ok::<OpenedInput, AvdError>(
                            OpenedInput {
                                at,
                                parameters: known->0,
                                dma_addr: reply->0,
                                frame_number: s.next_frame,
                                bytes,
                            },
                        )
                        &&& state.1 == claim.0.with_session(
                            at,
                            SessionView { next_frame: next_frame_number(s.next_frame), ..told },
                        )
                    }
                }
            }
        }
    }
}

/// The opened input of a request with what keeps it mapped.
pub struct InputHandle<H> {
    pub at: usize,
    pub parameters: H264StreamParameters,
    pub dma_addr: u64,
    pub frame_number: u32,
    pub bytes: Vec<u8>,
    pub mapping: H,
}

impl<H> InputHandle<H> {
    pub open spec fn view(&self) -> OpenedInput {
        OpenedInput {
            at: self.at as int,
            parameters: self.parameters,
            dma_addr: self.dma_addr,
            frame_number: self.frame_number,
            bytes: self.bytes@,
        }
    }
}

/// The view of an attempt to open an input.
pub open spec fn opened_view<H>(r: Result<InputHandle<H>, AvdError>) -> Result<
    OpenedInput,
    AvdError,
> {
    match r {
        Ok(handle) => Ok(handle.view()),
        Err(e) => Err(e),
    }
}

/// An opened input keeps the mapping that came for it. Nothing else is kept or
/// dropped.
pub open spec fn input_kept<H>(
    held: (Seq<Held<H>>, Seq<Held<H>>),
    inputs: (Seq<H>, Seq<H>),
    handles: (Seq<H>, Seq<H>),
    r: Result<InputHandle<H>, AvdError>,
) -> bool {
    &&& held.1 == held.0
    &&& inputs.1 == inputs.0
    &&& handles.1 == match r {
        Ok(input) => handles.0.push(input.mapping),
        Err(_) => handles.0,
    }
}

/// Opens the input of a request: the data is made visible to the device and
/// read, the session is found, and the input is mapped.
pub fn open_input<H, D: AvdMemory<H>, M: Mmio>(
    state: &mut AvdBackendState<H>,
    bus: &mut Bus<M>,
    memory: &mut AvdMemoryPort<H, D>,
    request: &VideoDecodeRequest,
    parsed: Result<Option<H264StreamParameters>, H264FrontendError>,
) -> (r: Result<InputHandle<H>, AvdError>)
    requires
        request.input_vaddr + request.input_len <= usize::MAX,
        sessions_ok(old(state).view().sessions),
    ensures
        sessions_ok(final(state).view().sessions),
        final(state).view().pending == old(state).view().pending,
        input_kept(
            (old(state).held(), final(state).held()),
            (old(state).inputs(), final(state).inputs()),
            (old(memory).handles(), final(memory).handles()),
            r,
        ),
        r is Ok ==> r->Ok_0.at < final(state).sessions@.len() && stream_ok(r->Ok_0.parameters),
        exists|
            claim: (BackendView, Result<usize, AvdError>),
            granule: usize,
            bytes: Seq<u8>,
            reply: Option<u64>,
        | #[trigger]
            input_opened(
                (old(state).view(), final(state).view()),
                (old(bus).ops(), final(bus).ops()),
                (old(memory).log(), final(memory).log()),
                *request,
                parsed,
                opened_view(r),
                claim,
                granule,
                bytes,
                reply,
            ),
{
    let ghost s = state.view();
    let ghost ops = bus.ops();
    let ghost calls = memory.log();
    let ghost mut claim: (BackendView, Result<usize, AvdError>) = (
        s,
        Err(AvdError::InvalidStream),
    );
    let input_len: usize = request.input_len as usize;
    let granule: usize = memory.mapping_granule();
    let step: usize = if granule >= PAGE_SIZE {
        granule
    } else {
        PAGE_SIZE
    };
    if input_len > usize::MAX - (step - 1) {
        let r: Result<InputHandle<H>, AvdError> = Err(AvdError::InputMap);
        assert(input_opened(
            (s, state.view()),
            (ops, bus.ops()),
            (calls, memory.log()),
            *request,
            parsed,
            opened_view(r),
            claim,
            granule,
            Seq::empty(),
            None,
        ));
        return r;
    }
    let map_len: usize = round_up_usize(input_len, step);
    bus.clean_invalidate_cache(request.input_vaddr, map_len);
    let bytes = bus.read_bytes(request.input_vaddr, input_len);
    assert(bus.ops() =~= ops + seq![
        Op::CleanInvalidate { addr: request.input_vaddr, len: map_len },
        Op::ReadBytes { addr: request.input_vaddr, bytes: bytes@ },
    ]);
    let fresh = match parsed {
        Ok(fresh) => fresh,
        Err(error) => {
            let r: Result<InputHandle<H>, AvdError> = Err(AvdError::H264(error));
            assert(input_opened(
                (s, state.view()),
                (ops, bus.ops()),
                (calls, memory.log()),
                *request,
                parsed,
                opened_view(r),
                claim,
                granule,
                bytes@,
                None,
            ));
            return r;
        },
    };
    let found = state.session_for_submit(request.stream_id, request.coded_format);
    proof {
        session_of_is_first(s.sessions, request.stream_id, 0);
        claim = (state.view(), found);
        assert(sessions_ok(state.view().sessions)) by {
            assert forall|i: int| 0 <= i < state.view().sessions.len() implies session_ok(
                #[trigger] state.view().sessions[i],
            ) by {
                assert(session_ok(s.sessions[i]));
            }
        }
    }
    let at: usize = match found {
        Ok(at) => at,
        Err(error) => {
            let r: Result<InputHandle<H>, AvdError> = Err(error);
            assert(input_opened(
                (s, state.view()),
                (ops, bus.ops()),
                (calls, memory.log()),
                *request,
                parsed,
                opened_view(r),
                claim,
                granule,
                bytes@,
                None,
            ));
            return r;
        },
    };
    let parameters = match fresh {
        Some(parameters) => {
            if !check_stream(&parameters) {
                let r: Result<InputHandle<H>, AvdError> = Err(AvdError::AddressRange);
                assert(input_opened(
                    (s, state.view()),
                    (ops, bus.ops()),
                    (calls, memory.log()),
                    *request,
                    parsed,
                    opened_view(r),
                    claim,
                    granule,
                    bytes@,
                    None,
                ));
                return r;
            }
            let session = &mut state.sessions[at];
            session.stream_parameters = Some(parameters);
            parameters
        },
        None => match state.sessions[at].stream_parameters {
            Some(parameters) => parameters,
            None => {
                let r: Result<InputHandle<H>, AvdError> = Err(AvdError::MissingSps);
                assert(claim.0.sessions[at as int].stream_parameters is None);
                assert(input_opened(
                    (s, state.view()),
                    (ops, bus.ops()),
                    (calls, memory.log()),
                    *request,
                    parsed,
                    opened_view(r),
                    claim,
                    granule,
                    bytes@,
                    None,
                ));
                return r;
            },
        },
    };
    let ghost told = SessionView {
        stream_parameters: Some(parameters),
        ..claim.0.sessions[at as int]
    };
    proof {
        if fresh is None {
            assert(claim.0.sessions[at as int].stream_parameters == Some(parameters));
            assert(session_ok(claim.0.sessions[at as int]));
        }
        assert(state.held() =~= old(state).held());
        assert(state.inputs() =~= old(state).inputs());
        assert(state.view().sessions =~= claim.0.sessions.update(at as int, told));
        assert(state.view().pending =~= claim.0.pending);
        assert(state.view() == claim.0.with_session(at as int, told));
        assert(sessions_ok(state.view().sessions)) by {
            assert forall|i: int| 0 <= i < state.view().sessions.len() implies session_ok(
                #[trigger] state.view().sessions[i],
            ) by {
                assert(session_ok(claim.0.sessions[i]));
            }
        }
    }
    let mapped = memory.map(request.input_paddr, map_len, false);
    let ghost reply = mapped_at(mapped);
    let (dma_addr, mapping) = match mapped {
        Some((dma_addr, mapping)) => (dma_addr, mapping),
        None => {
            let r: Result<InputHandle<H>, AvdError> = Err(AvdError::InputMap);
            assert(input_opened(
                (s, state.view()),
                (ops, bus.ops()),
                (calls, memory.log()),
                *request,
                parsed,
                opened_view(r),
                claim,
                granule,
                bytes@,
                reply,
            ));
            return r;
        },
    };
    let frame_number: u32 = state.sessions[at].next_frame;
    let ghost mid = state.view();
    let session = &mut state.sessions[at];
    session.next_frame = frame_number.wrapping_add(1);
    proof {
        let last = SessionView { next_frame: next_frame_number(frame_number), ..told };
        assert(state.view().sessions =~= mid.sessions.update(at as int, last));
        assert(state.view().sessions =~= claim.0.sessions.update(at as int, last));
        assert(state.held() =~= old(state).held());
        assert(state.inputs() =~= old(state).inputs());
        assert(state.view().pending =~= claim.0.pending);
        assert(sessions_ok(state.view().sessions)) by {
            assert forall|i: int| 0 <= i < state.view().sessions.len() implies session_ok(
                #[trigger] state.view().sessions[i],
            ) by {
                assert(session_ok(mid.sessions[i]));
            }
        }
    }
    let handle = InputHandle { at, parameters, dma_addr, frame_number, bytes, mapping };
    let r: Result<InputHandle<H>, AvdError> = Ok(handle);
    assert(input_opened(
        (s, state.view()),
        (ops, bus.ops()),
        (calls, memory.log()),
        *request,
        parsed,
        opened_view(r),
        claim,
        granule,
        handle.bytes@,
        reply,
    ));
    r
}

/// What bringing up a session's work area does: it is allocated and mapped
/// once.
pub open spec fn workspace_ready(
    session: (SessionView, SessionView),
    calls: (Seq<MemoryCall>, Seq<MemoryCall>),
    r: Result<WorkspaceInfo, AvdError>,
    granule: usize,
    pages: Option<(usize, usize)>,
    reply: Option<u64>,
) -> bool {
    let step = granule_of(granule, 0x4000);
    let len = rounded_up(0x100_0000, step);
    let count = ceil_div(len as int, 4096) as usize;
    let asked = calls.0.push(MemoryCall::Granule(granule));
    let allocated = asked.push(MemoryCall::Allocated { pages: count, align: step, at: pages });
    if session.0.workspace is Some {
        &&& r == Ok::<WorkspaceInfo, AvdError>(session.0.workspace->0)
        &&& session.1 == session.0
        &&& calls.1 == calls.0
    } else if 0x100_0000 + step - 1 > usize::MAX {
        &&& r is Err
        &&& r->Err_0 == AvdError::WorkspaceAllocation
        &&& session.1 == session.0
        &&& calls.1 == asked
    } else if pages is None || (pages->0).1 + len > usize::MAX || (pages->0).1 + 0x104000
        > usize::MAX {
        &&& r is Err
        &&& r->Err_0 == AvdError::WorkspaceAllocation
        &&& session.1 == session.0
        &&& calls.1 == allocated
    } else {
        &&& calls.1 == allocated.push(
            MemoryCall::Mapped { paddr: (pages->0).0, len, writable: true, reply },
        )
        &&& if reply is None {
            &&& r is Err
            &&& r->Err_0 == AvdError::WorkspaceMap
            &&& session.1 == session.0
        } else {
            let info = WorkspaceInfo {
                paddr: (pages->0).0,
                vaddr: (pages->0).1,
                dma_addr: reply->0,
                byte_len: len,
            };
            &&& r == Ok::<WorkspaceInfo, AvdError>(info)
            &&& session.1 == SessionView { workspace: Some(info), ..session.0 }
        }
    }
}

/// A work area that is brought up keeps the pages and the mapping that came for
/// it; nothing else is kept or dropped.
pub open spec fn workspace_kept<H>(held: (Held<H>, Held<H>), handles: (Seq<H>, Seq<H>)) -> bool {
    let n = handles.0.len() as int;
    if held.0.workspace is Some {
        held.1 == held.0 && handles.1 == handles.0
    } else if held.1.workspace is Some {
        &&& handles.1.len() == n + 2
        &&& handles.1.take(n) == handles.0
        &&& held.1 == Held { workspace: Some((handles.1[n], handles.1[n + 1])), ..held.0 }
    } else {
        &&& held.1 == held.0
        &&& handles.0.len() <= handles.1.len()
        &&& handles.1.take(n) == handles.0
    }
}

impl<H> AvdBackendSession<H> {
    /// Allocates and maps the session's work area where it has none.
    pub fn ensure_workspace<D: AvdMemory<H>>(&mut self, memory: &mut AvdMemoryPort<H, D>) -> (r:
        Result<WorkspaceInfo, AvdError>)
        ensures
            workspace_kept(
                (old(self).held(), final(self).held()),
                (old(memory).handles(), final(memory).handles()),
            ),
            exists|granule: usize, pages: Option<(usize, usize)>, reply: Option<u64>| #[trigger]
                workspace_ready(
                    (old(self).view(), final(self).view()),
                    (old(memory).log(), final(memory).log()),
                    r,
                    granule,
                    pages,
                    reply,
                ),
    {
        let ghost before = self.view();
        let ghost calls = memory.log();
        if let Some(workspace) = &self.workspace {
            let r: Result<WorkspaceInfo, AvdError> = Ok(workspace.info);
            assert(workspace_ready(
                (before, self.view()),
                (calls, memory.log()),
                r,
                0,
                None,
                None,
            ));
            return r;
        }
        let ghost kept = memory.handles();
        let ghost n = kept.len() as int;
        let granule: usize = memory.mapping_granule();
        assert(memory.handles().take(n) =~= kept);
        let step: usize = if granule >= AVD_DMA_GRANULE {
            granule
        } else {
            AVD_DMA_GRANULE
        };
        if AVD_WORKSPACE_BYTES > usize::MAX - (step - 1) {
            let r: Result<WorkspaceInfo, AvdError> = Err(AvdError::WorkspaceAllocation);
            assert(workspace_ready(
                (before, self.view()),
                (calls, memory.log()),
                r,
                granule,
                None,
                None,
            ));
            return r;
        }
        let byte_len: usize = round_up_usize(AVD_WORKSPACE_BYTES, step);
        proof {
            crate::arith::ceil_div_counts(byte_len as int, 4096);
        }
        let count: usize = div_ceil_u64(byte_len as u64, 4096) as usize;
        let allocation = memory.allocate(count, step);
        let ghost pages = allocated_at(allocation);
        assert(memory.handles().take(n) =~= kept);
        let (paddr, vaddr, handle) = match allocation {
            Some((paddr, vaddr, handle)) => (paddr, vaddr, handle),
            None => {
                let r: Result<WorkspaceInfo, AvdError> = Err(AvdError::WorkspaceAllocation);
                assert(workspace_ready(
                    (before, self.view()),
                    (calls, memory.log()),
                    r,
                    granule,
                    pages,
                    None,
                ));
                return r;
            },
        };
        if vaddr > usize::MAX - byte_len || vaddr > usize::MAX - (AVD_WORKSPACE_INST_FIFO_OFFSET
            + AVD_WORKSPACE_INST_FIFO_BYTES) {
            let r: Result<WorkspaceInfo, AvdError> = Err(AvdError::WorkspaceAllocation);
            assert(workspace_ready(
                (before, self.view()),
                (calls, memory.log()),
                r,
                granule,
                pages,
                None,
            ));
            return r;
        }
        let mapped = memory.map(paddr, byte_len, true);
        let ghost reply = mapped_at(mapped);
        assert(memory.handles().take(n) =~= kept);
        match mapped {
            Some((dma_addr, mapping)) => {
                let info = WorkspaceInfo { paddr, vaddr, dma_addr, byte_len };
                self.workspace = Some(AvdSessionWorkspace { info, pages: handle, mapping });
                let r: Result<WorkspaceInfo, AvdError> = Ok(info);
                assert(workspace_ready(
                    (before, self.view()),
                    (calls, memory.log()),
                    r,
                    granule,
                    pages,
                    reply,
                ));
                r
            },
            None => {
                let r: Result<WorkspaceInfo, AvdError> = Err(AvdError::WorkspaceMap);
                assert(workspace_ready(
                    (before, self.view()),
                    (calls, memory.log()),
                    r,
                    granule,
                    pages,
                    reply,
                ));
                r
            },
        }
    }
}

impl WorkspaceInfo {
    /// Device addresses of the parts of a work area.
    pub open spec fn parts(self, reference_dma_addr: u64, offsets: [u32; 4]) -> AvdH264Workspace {
        AvdH264Workspace {
            instruction_fifo_dma_addr: addr_plus(self.dma_addr, 0x4000),
            pps_tile_dma_addr: addr_plus(self.dma_addr, 0x140000),
            sps_tile_dma_addr: addr_plus(self.dma_addr, 0x200000),
            reference_dma_addr,
            reference_offsets: offsets,
        }
    }

    /// Device addresses of the parts of a work area. References lie in the work
    /// area itself unless they are placed elsewhere.
    pub fn addresses(&self, reference_offsets: [u32; 4]) -> (r: AvdH264Workspace)
        ensures
            r == self.parts(addr_plus(self.dma_addr, 0x400000), reference_offsets),
    {
        AvdH264Workspace {
            instruction_fifo_dma_addr: self.dma_addr.wrapping_add(
                AVD_WORKSPACE_INST_FIFO_OFFSET as u64,
            ),
            pps_tile_dma_addr: self.dma_addr.wrapping_add(AVD_WORKSPACE_PPS_TILE_OFFSET as u64),
            sps_tile_dma_addr: self.dma_addr.wrapping_add(AVD_WORKSPACE_SPS_TILE_OFFSET as u64),
            reference_dma_addr: self.dma_addr.wrapping_add(AVD_WORKSPACE_REFERENCE_OFFSET as u64),
            reference_offsets,
        }
    }
}

/// An input was opened, whatever came back.
pub open spec fn input_tried(
    state: (BackendView, BackendView),
    ops: (Seq<Op>, Seq<Op>),
    calls: (Seq<MemoryCall>, Seq<MemoryCall>),
    request: VideoDecodeRequest,
    parsed: Result<Option<H264StreamParameters>, H264FrontendError>,
    r: Result<OpenedInput, AvdError>,
) -> bool {
    exists|
        claim: (BackendView, Result<usize, AvdError>),
        granule: usize,
        bytes: Seq<u8>,
        reply: Option<u64>,
    | #[trigger]
        input_opened(state, ops, calls, request, parsed, r, claim, granule, bytes, reply)
}

/// An output was prepared, whatever came back.
pub open spec fn output_tried(
    session: (SessionView, SessionView),
    calls: (Seq<MemoryCall>, Seq<MemoryCall>),
    request: VideoDecodeRequest,
    layout: AvdFrameLayout,
    header_len: int,
    r: Result<AvdReferenceOutput, AvdError>,
) -> bool {
    exists|granule: usize, reply: Option<u64>| #[trigger]
        output_prepared(
            session.0,
            session.1,
            calls,
            request,
            layout,
            header_len,
            r,
            granule,
            reply,
        )
}

proof fn output_was_tried(
    session: (SessionView, SessionView),
    calls: (Seq<MemoryCall>, Seq<MemoryCall>),
    request: VideoDecodeRequest,
    layout: AvdFrameLayout,
    header_len: int,
    r: Result<AvdReferenceOutput, AvdError>,
    granule: usize,
    reply: Option<u64>,
)
    requires
        output_prepared(
            session.0,
            session.1,
            calls,
            request,
            layout,
            header_len,
            r,
            granule,
            reply,
        ),
    ensures
        output_tried(session, calls, request, layout, header_len, r),
{
}

/// A work area was brought up, whatever came back.
pub open spec fn workspace_tried(
    session: (SessionView, SessionView),
    calls: (Seq<MemoryCall>, Seq<MemoryCall>),
    r: Result<WorkspaceInfo, AvdError>,
) -> bool {
    exists|granule: usize, pages: Option<(usize, usize)>, reply: Option<u64>| #[trigger]
        workspace_ready(session, calls, r, granule, pages, reply)
}

/// A decode whose buffers are ready.
#[derive(Clone, Copy)]
pub struct StagedDecode {
    /// Session of the request.
    pub at: usize,
    pub parameters: H264StreamParameters,
    pub output: AvdReferenceOutput,
    pub request: H264DecodeRequest,
}

/// What staging a decode does: input, output slot, and the request lowered for
/// the engine.
pub open spec fn staged_with(
    state: (BackendView, BackendView),
    ops: (Seq<Op>, Seq<Op>),
    calls: (Seq<MemoryCall>, Seq<MemoryCall>),
    abi: VideoAbi,
    request: VideoDecodeRequest,
    parsed: Result<Option<H264StreamParameters>, H264FrontendError>,
    params: H264StatelessParams,
    r: Result<StagedDecode, AvdError>,
    mid: (BackendView, Seq<MemoryCall>),
    opened: Result<OpenedInput, AvdError>,
    output: Result<AvdReferenceOutput, AvdError>,
    lowered: Result<H264DecodeRequest, H264FrontendError>,
) -> bool {
    &&& input_tried((state.0, mid.0), ops, (calls.0, mid.1), request, parsed, opened)
    &&& if opened is Err {
        &&& r is Err
        &&& r->Err_0 == opened->Err_0
        &&& state.1 == mid.0
        &&& calls.1 == mid.1
    } else {
        let input = opened->Ok_0;
        let layout = layout_of(input.parameters);
        &&& 0 <= input.at < mid.0.sessions.len()
        &&& state.1 == mid.0.with_session(input.at, state.1.sessions[input.at])
        &&& output_tried(
            (mid.0.sessions[input.at], state.1.sessions[input.at]),
            (mid.1, calls.1),
            request,
            layout,
            abi.frame_header_len as int,
            output,
        )
        &&& if output is Err {
            r is Err && r->Err_0 == output->Err_0
        } else {
            &&& request_lowered(
                lowered,
                mid.0.sessions[input.at].stream_id as u64,
                input.frame_number,
                params,
                AvdDmaRange { dma_addr: input.dma_addr, len: request.input_len as usize },
                input.bytes,
                AvdDmaRange {
                    dma_addr: output->Ok_0.dma_addr,
                    len: layout.output_bytes() as usize,
                },
                layout,
            )
            &&& if lowered is Err {
                r is Err && r->Err_0 == AvdError::H264(lowered->Err_0)
            } else {
                r == Ok::<StagedDecode, AvdError>(
                    StagedDecode {
                        at: input.at as usize,
                        parameters: input.parameters,
                        output: output->Ok_0,
                        request: lowered->Ok_0,
                    },
                )
            }
        }
    }
}

/// A decode was staged, or not, for a stated reason.
pub open spec fn staged(
    state: (BackendView, BackendView),
    ops: (Seq<Op>, Seq<Op>),
    calls: (Seq<MemoryCall>, Seq<MemoryCall>),
    abi: VideoAbi,
    request: VideoDecodeRequest,
    parsed: Result<Option<H264StreamParameters>, H264FrontendError>,
    params: H264StatelessParams,
    r: Result<StagedDecode, AvdError>,
) -> bool {
    exists|
        mid: (BackendView, Seq<MemoryCall>),
        opened: Result<OpenedInput, AvdError>,
        output: Result<AvdReferenceOutput, AvdError>,
        lowered: Result<H264DecodeRequest, H264FrontendError>,
    | #[trigger]
        staged_with(
            state,
            ops,
            calls,
            abi,
            request,
            parsed,
            params,
            r,
            mid,
            opened,
            output,
            lowered,
        )
}

/// The plain part of a staged decode.
pub open spec fn staged_view<H>(r: Result<(StagedDecode, H), AvdError>) -> Result<
    StagedDecode,
    AvdError,
> {
    match r {
        Ok((decode, _)) => Ok(decode),
        Err(e) => Err(e),
    }
}

/// A decode that got as far as its output, in session `at`: the input is
/// mapped by `input`, the session keeps what came for its output.
pub open spec fn buffers_kept<H>(
    held: (Seq<Held<H>>, Seq<Held<H>>),
    handles: (Seq<H>, Seq<H>),
    at: int,
    input: H,
) -> bool {
    &&& 0 <= at < held.0.len()
    &&& held.1 == held.0.update(at, held.1[at])
    &&& output_kept((held.0[at], held.1[at]), (handles.0.push(input), handles.1))
}

/// What a staged decode keeps, and what one that failed leaves behind.
pub open spec fn staged_kept<H>(
    held: (Seq<Held<H>>, Seq<Held<H>>),
    inputs: (Seq<H>, Seq<H>),
    handles: (Seq<H>, Seq<H>),
    r: Result<(StagedDecode, H), AvdError>,
) -> bool {
    &&& inputs.1 == inputs.0
    &&& match r {
        Ok((plan, input)) => buffers_kept(held, handles, plan.at as int, input),
        Err(_) => (held.1 == held.0 && handles.1 == handles.0) || exists|at: int, input: H|
            #[trigger] buffers_kept(held, handles, at, input),
    }
}

/// A request's buffers lie in the address space.
pub open spec fn request_in_range(request: VideoDecodeRequest) -> bool {
    &&& request.input_vaddr + request.input_len <= usize::MAX
    &&& request.output_vaddr + request.output_len <= usize::MAX
    &&& request.output_offset + request.output_len <= usize::MAX
}

/// Prepares the buffers of a decode and lowers its request for the engine.
/// `parsed` is what the access unit says of its stream.
pub fn stage_decode<H, D: AvdMemory<H>, M: Mmio>(
    state: &mut AvdBackendState<H>,
    bus: &mut Bus<M>,
    memory: &mut AvdMemoryPort<H, D>,
    abi: &VideoAbi,
    request: &VideoDecodeRequest,
    parsed: Result<Option<H264StreamParameters>, H264FrontendError>,
    params: &H264StatelessParams,
) -> (r: Result<(StagedDecode, H), AvdError>)
    requires
        abi.wf(),
        request_in_range(*request),
        sessions_ok(old(state).view().sessions),
    ensures
        sessions_ok(final(state).view().sessions),
        final(state).view().pending == old(state).view().pending,
        staged_kept(
            (old(state).held(), final(state).held()),
            (old(state).inputs(), final(state).inputs()),
            (old(memory).handles(), final(memory).handles()),
            r,
        ),
        r is Ok ==> (r->Ok_0).0.at < final(state).sessions@.len() && stream_ok(
            (r->Ok_0).0.parameters,
        ) && (r->Ok_0).0.request.layout == layout_of((r->Ok_0).0.parameters) && (
        r->Ok_0).0.output.header_vaddr + abi.frame_header_len <= usize::MAX,
        staged(
            (old(state).view(), final(state).view()),
            (old(bus).ops(), final(bus).ops()),
            (old(memory).log(), final(memory).log()),
            *abi,
            *request,
            parsed,
            *params,
            staged_view(r),
        ),
{
    let ghost s = state.view();
    let ghost ops = bus.ops();
    let ghost calls = memory.log();
    let opening = open_input(state, bus, memory, request, parsed);
    let ghost opened = opened_view(opening);
    let ghost mid = (state.view(), memory.log());
    let ghost none: Result<AvdReferenceOutput, AvdError> = Err(AvdError::InvalidStream);
    let ghost unlowered: Result<H264DecodeRequest, H264FrontendError> = Err(
        H264FrontendError::MalformedSlice,
    );
    assert(input_tried((s, mid.0), (ops, bus.ops()), (calls, mid.1), *request, parsed, opened));
    let input = match opening {
        Ok(input) => input,
        Err(error) => {
            let r: Result<(StagedDecode, H), AvdError> = Err(error);
            assert(staged_with(
                (s, state.view()),
                (ops, bus.ops()),
                (calls, memory.log()),
                *abi,
                *request,
                parsed,
                *params,
                staged_view(r),
                mid,
                opened,
                none,
                unlowered,
            ));
            return r;
        },
    };
    let layout = input.parameters.nv12_layout();
    assert(layout == layout_of(input.parameters));
    let at: usize = input.at;
    let session_id: u64 = state.sessions[at].stream_id as u64;
    let ghost entered = state.sessions@[at as int].view();
    assert(entered == mid.0.sessions[at as int]);
    let session = &mut state.sessions[at];
    let ghost asked = memory.log();
    let output = session.prepare_mapped_output(memory, request, &layout, abi.frame_header_len);
    proof {
        assert(asked == mid.1);
        let left = state.sessions@[at as int].view();
        assert(left == state.view().sessions[at as int]);
        let (granule, reply) = choose|granule: usize, reply: Option<u64>| #[trigger]
            output_prepared(
                entered,
                left,
                (asked, memory.log()),
                *request,
                layout,
                abi.frame_header_len as int,
                output,
                granule,
                reply,
            );
        assert(output_prepared(
            mid.0.sessions[at as int],
            state.view().sessions[at as int],
            (mid.1, memory.log()),
            *request,
            layout,
            abi.frame_header_len as int,
            output,
            granule,
            reply,
        ));
        output_was_tried(
            (mid.0.sessions[at as int], state.view().sessions[at as int]),
            (mid.1, memory.log()),
            *request,
            layout,
            abi.frame_header_len as int,
            output,
            granule,
            reply,
        );
        assert(state.view().sessions =~= mid.0.sessions.update(
            at as int,
            state.view().sessions[at as int],
        ));
        assert(state.view().pending =~= mid.0.pending);
        assert(state.inputs() =~= old(state).inputs());
        assert(state.held() =~= old(state).held().update(at as int, state.held()[at as int]));
        assert(buffers_kept(
            (old(state).held(), state.held()),
            (old(memory).handles(), memory.handles()),
            at as int,
            input.mapping,
        ));
        assert(session_ok(mid.0.sessions[at as int]));
        assert(sessions_ok(state.view().sessions)) by {
            assert forall|i: int| 0 <= i < state.view().sessions.len() implies session_ok(
                #[trigger] state.view().sessions[i],
            ) by {
                assert(session_ok(mid.0.sessions[i]));
            }
        }
        if output is Ok {
            let pooled = crate::avd::backend::with_slots(
                crate::avd::backend::with_pool(
                    mid.0.sessions[at as int],
                    *request,
                    crate::avd::backend::output_map_len(request.output_len, granule),
                    reply,
                ),
                crate::avd::backend::slot_span(layout),
            );
            output_header_fits(pooled, *request, layout, abi.frame_header_len as int);
        }
    }
    let output = match output {
        Ok(output) => output,
        Err(error) => {
            let r: Result<(StagedDecode, H), AvdError> = Err(error);
            assert(staged_with(
                (s, state.view()),
                (ops, bus.ops()),
                (calls, memory.log()),
                *abi,
                *request,
                parsed,
                *params,
                staged_view(r),
                mid,
                opened,
                output,
                unlowered,
            ));
            return r;
        },
    };
    let payload_len: usize = layout.output_len();
    let lowered = H264DecodeRequest::from_stateless(
        session_id,
        input.frame_number,
        params,
        AvdDmaRange { dma_addr: input.dma_addr, len: request.input_len as usize },
        input.bytes.as_slice(),
        AvdDmaRange { dma_addr: output.dma_addr, len: payload_len },
        layout,
    );
    let ghost prepared: Result<AvdReferenceOutput, AvdError> = Ok(output);
    match lowered {
        Ok(decode) => {
            let plan = StagedDecode { at, parameters: input.parameters, output, request: decode };
            let r: Result<(StagedDecode, H), AvdError> = Ok((plan, input.mapping));
            assert(staged_with(
                (s, state.view()),
                (ops, bus.ops()),
                (calls, memory.log()),
                *abi,
                *request,
                parsed,
                *params,
                staged_view(r),
                mid,
                opened,
                prepared,
                lowered,
            ));
            r
        },
        Err(error) => {
            let r: Result<(StagedDecode, H), AvdError> = Err(AvdError::H264(error));
            assert(staged_with(
                (s, state.view()),
                (ops, bus.ops()),
                (calls, memory.log()),
                *abi,
                *request,
                parsed,
                *params,
                staged_view(r),
                mid,
                opened,
                prepared,
                lowered,
            ));
            r
        },
    }
}

/// The header of a prepared output lies in front of its payload, inside the
/// output buffer.
proof fn output_header_fits(
    s: SessionView,
    request: VideoDecodeRequest,
    layout: AvdFrameLayout,
    header_len: int,
)
    requires
        crate::avd::backend::output_refusal(layout, request.output_len) is None,
        output_in_range(request, layout),
        s.output_pool is Some,
        s.output_pool->0.vaddr == request.output_vaddr,
        0 <= header_len <= 0x4000,
    ensures
        ({
            let o = crate::avd::backend::output_of(s, request, layout, header_len);
            o.header_vaddr + header_len == o.vaddr
        }),
{
    let other: int = if s.next_reference_slot % 4 == 0 {
        1
    } else {
        0
    };
    crate::avd::backend::outputs_lie_in_their_slots(s, request, layout, header_len, other);
    let span = crate::avd::backend::slot_span(layout);
    let slot = (s.next_reference_slot % 4) as int;
    crate::arith::aligned_up_is_least_multiple(0x4000 + layout.output_bytes(), 0x4000);
    assert(slot * span + span <= 4 * span && 0 <= slot * span) by (nonlinear_arith)
        requires
            0 <= slot <= 3,
            span >= 0,
    ;
}

/// The accesses that hand a stream to the hardware: the instructions are placed
/// in the work area and written back, the output is dropped from the cache, and
/// the engine is fed.
pub open spec fn issue_ops(
    base: usize,
    w: WorkspaceInfo,
    output: AvdReferenceOutput,
    words: Seq<u32>,
) -> Seq<Op> {
    seq![
        Op::WriteBytes { addr: (w.vaddr + 0x4000) as usize, bytes: le32_all(words) },
        Op::Clean { addr: (w.vaddr + 0x4000) as usize, len: (4 * words.len()) as usize },
        Op::Clean { addr: w.vaddr, len: w.byte_len },
        Op::CleanInvalidate { addr: output.vaddr, len: output.len },
    ]
}

/// The decoder behind a submission.
pub open spec fn device_issued(
    d: AvdView,
    request: H264DecodeRequest,
    words: Seq<u32>,
    command: AvdFirmwareCommand,
) -> AvdView {
    let fed = d.traced(AvdTraceKind::DecodeSubmit, request.input.dma_addr, words.len() as u64);
    if d.state != AvdFirmwareState::Running {
        fed
    } else {
        fed.traced(
            AvdTraceKind::DecodeSubmit,
            request.session_id,
            request.frame_number as u64,
        ).traced(AvdTraceKind::MailboxTx, command.raw as u64, command.tag as u64).traced(
            AvdTraceKind::DecodeSubmit,
            request.input.dma_addr,
            (4 * words.len()) as u64,
        )
    }
}

/// What is noted of a decode that the hardware works on.
pub open spec fn pending_from(
    request: VideoDecodeRequest,
    plan: StagedDecode,
    status: u32,
    command: AvdFirmwareCommand,
) -> PendingInfo {
    PendingInfo {
        stream_id: request.stream_id,
        frame_number: plan.request.frame_number,
        timestamp: request.timestamp,
        layout: plan.request.layout,
        payload_len: plan.request.layout.output_bytes() as usize,
        output_header_vaddr: plan.output.header_vaddr,
        output_payload_vaddr: plan.output.vaddr,
        output_payload_offset: plan.output.payload_offset,
        output_payload_len: plan.output.len,
        reference_slot: plan.output.slot,
        store_reference: plan.request.slice.nal_ref_idc != 0,
        is_idr: is_idr_slice(plan.request.slice),
        status_before: status,
        command_tag: command.tag,
        input_dma_addr: plan.request.input.dma_addr,
        poll_count: 0,
    }
}

/// What issuing a staged decode does.
pub open spec fn issued_with<D>(
    device: (&AppleAvd<D>, &AppleAvd<D>),
    state: (BackendView, BackendView),
    ops: (Seq<Op>, Seq<Op>),
    calls: (Seq<MemoryCall>, Seq<MemoryCall>),
    request: VideoDecodeRequest,
    plan: StagedDecode,
    references: Seq<AvdH264ReferencePicture>,
    command: AvdFirmwareCommand,
    r: Result<(), AvdError>,
    session: SessionView,
    work: Result<WorkspaceInfo, AvdError>,
    offsets: [u32; 4],
    status: u32,
) -> bool {
    let at = plan.at as int;
    let ready = state.0.with_session(at, session);
    &&& device.1.same_device(*device.0)
    &&& workspace_tried((state.0.sessions[at], session), calls, work)
    &&& if work is Err {
        &&& r is Err
        &&& r->Err_0 == work->Err_0
        &&& state.1 == ready
        &&& ops.1 == ops.0
        &&& device.1.view() == device.0.view()
    } else {
        let w = work->Ok_0;
        let area = w.parts(plan.output.dma_addr, offsets);
        let words = instruction_words(
            plan.request,
            plan.parameters,
            plan.request.slice,
            area,
            references,
        );
        let base = device.0.registers.base;
        let placed = ops.0 + issue_ops(base, w, plan.output, words);
        &&& offsets@ == rvra_table(plan.request.layout)
        &&& if !buildable(plan.request, plan.parameters, plan.request.slice, area, references) {
            &&& r is Err
            &&& r->Err_0 == AvdError::AddressRange
            &&& state.1 == ready
            &&& ops.1 == ops.0
            &&& device.1.view() == device.0.view()
        } else if words.len() > 1024 {
            &&& r is Err
            &&& r->Err_0 == AvdError::H264(H264FrontendError::InstructionStreamTooLarge)
            &&& state.1 == ready
            &&& ops.1 == ops.0
            &&& device.1.view() == device.0.view()
        } else if words.len() == 0 {
            &&& r is Err
            &&& r->Err_0 == AvdError::EmptyInstructionStream
            &&& state.1 == ready
            &&& ops.1 == placed
            &&& device.1.view() == device.0.view()
        } else {
            &&& device.1.view() == device_issued(device.0.view(), plan.request, words, command)
            &&& if device.0.firmware_state != AvdFirmwareState::Running {
                &&& r is Err
                &&& r->Err_0 == AvdError::FirmwareNotRunning
                &&& state.1 == ready
                &&& ops.1 == placed + submit_ops(base, words, status)
            } else {
                &&& r == Ok::<(), AvdError>(())
                &&& state.1 == (BackendView {
                    pending: ready.pending.push(pending_from(request, plan, status, command)),
                    ..ready
                })
                &&& ops.1 == (placed + submit_ops(base, words, status)).push(
                    wr(base, 0x1098054, command.raw),
                )
            }
        }
    }
}

/// Offsets of the scratch sections of a frame.
pub open spec fn rvra_table(layout: AvdFrameLayout) -> Seq<u32> {
    let luma = crate::avd::h264::rvra_luma(layout.width as int, layout.height as int);
    let meta = crate::avd::h264::rvra_meta(layout.width as int, layout.height as int);
    seq![luma as u32, 0u32, layout.rvra_end() as u32, (luma + meta) as u32]
}

/// A staged decode was issued, or not, for a stated reason.
pub open spec fn issued<D>(
    device: (&AppleAvd<D>, &AppleAvd<D>),
    state: (BackendView, BackendView),
    ops: (Seq<Op>, Seq<Op>),
    calls: (Seq<MemoryCall>, Seq<MemoryCall>),
    request: VideoDecodeRequest,
    plan: StagedDecode,
    references: Seq<AvdH264ReferencePicture>,
    command: AvdFirmwareCommand,
    r: Result<(), AvdError>,
) -> bool {
    exists|
        session: SessionView,
        work: Result<WorkspaceInfo, AvdError>,
        offsets: [u32; 4],
        status: u32,
    | #[trigger]
        issued_with(
            device,
            state,
            ops,
            calls,
            request,
            plan,
            references,
            command,
            r,
            session,
            work,
            offsets,
            status,
        )
}

/// What issuing a decode of session `at` keeps: the session its work area, and
/// a decode that was issued the mapping of its input.
pub open spec fn issued_kept<H>(
    held: (Seq<Held<H>>, Seq<Held<H>>),
    inputs: (Seq<H>, Seq<H>),
    handles: (Seq<H>, Seq<H>),
    at: int,
    input: H,
    issued: bool,
) -> bool {
    &&& 0 <= at < held.0.len()
    &&& held.1 == held.0.update(at, held.1[at])
    &&& workspace_kept((held.0[at], held.1[at]), handles)
    &&& inputs.1 == if issued {
        inputs.0.push(input)
    } else {
        inputs.0
    }
}

/// Builds the instruction stream of a staged decode and hands it to the
/// hardware.
pub fn issue_decode<T, H, D: AvdMemory<H>, M: Mmio>(
    avd: &mut AppleAvd<T>,
    state: &mut AvdBackendState<H>,
    bus: &mut Bus<M>,
    memory: &mut AvdMemoryPort<H, D>,
    request: &VideoDecodeRequest,
    plan: &StagedDecode,
    input_mapping: H,
    references: &[AvdH264ReferencePicture],
    command: AvdFirmwareCommand,
) -> (r: Result<(), AvdError>)
    requires
        old(avd).wf(),
        sessions_ok(old(state).view().sessions),
        pending_ok(old(state).view().pending),
        plan.at < old(state).sessions@.len(),
        stream_ok(plan.parameters),
        plan.request.layout == layout_of(plan.parameters),
        plan.output.header_vaddr + 20 <= usize::MAX,
    ensures
        final(avd).wf(),
        sessions_ok(final(state).view().sessions),
        pending_ok(final(state).view().pending),
        issued_kept(
            (old(state).held(), final(state).held()),
            (old(state).inputs(), final(state).inputs()),
            (old(memory).handles(), final(memory).handles()),
            plan.at as int,
            input_mapping,
            r is Ok,
        ),
        issued(
            (&*old(avd), &*final(avd)),
            (old(state).view(), final(state).view()),
            (old(bus).ops(), final(bus).ops()),
            (old(memory).log(), final(memory).log()),
            *request,
            *plan,
            references@,
            command,
            r,
        ),
{
    let ghost device = *avd;
    let ghost s = state.view();
    let ghost ops = bus.ops();
    let ghost calls = memory.log();
    let at: usize = plan.at;
    let session = &mut state.sessions[at];
    let work = session.ensure_workspace(memory);
    let ghost session = state.view().sessions[at as int];
    let ghost ready = s.with_session(at as int, session);
    proof {
        assert(state.view().sessions =~= ready.sessions);
        assert(state.view().pending =~= s.pending);
        assert(state.held() =~= old(state).held().update(at as int, state.held()[at as int]));
        assert(state.inputs() =~= old(state).inputs());
        assert(workspace_tried((s.sessions[at as int], session), (calls, memory.log()), work));
        assert(session_ok(s.sessions[at as int]));
        assert(session_ok(session));
        assert(sessions_ok(state.view().sessions)) by {
            assert forall|i: int| 0 <= i < state.view().sessions.len() implies session_ok(
                #[trigger] state.view().sessions[i],
            ) by {
                assert(session_ok(s.sessions[i]));
            }
        }
    }
    let offsets = plan.request.layout.rvra_offsets();
    assert(offsets@ =~= rvra_table(plan.request.layout));
    let w = match work {
        Ok(w) => w,
        Err(error) => {
            let r: Result<(), AvdError> = Err(error);
            assert(issued_with(
                (&device, &*avd),
                (s, state.view()),
                (ops, bus.ops()),
                (calls, memory.log()),
                *request,
                *plan,
                references@,
                command,
                r,
                session,
                work,
                offsets,
                0,
            ));
            return r;
        },
    };
    assert(workspace_ok(w));
    let mut area = w.addresses(offsets);
    area.reference_dma_addr = plan.output.dma_addr;
    assert(area == w.parts(plan.output.dma_addr, offsets));
    if !can_build(&plan.request, &plan.parameters, &plan.request.slice, &area, references) {
        let r: Result<(), AvdError> = Err(AvdError::AddressRange);
        assert(issued_with(
            (&device, &*avd),
            (s, state.view()),
            (ops, bus.ops()),
            (calls, memory.log()),
            *request,
            *plan,
            references@,
            command,
            r,
            session,
            work,
            offsets,
            0,
        ));
        return r;
    }
    let instructions = AvdH264InstructionStream::build(
        &plan.request,
        &plan.parameters,
        &plan.request.slice,
        &area,
        references,
    );
    let ghost words = instructions.emitted();
    let mut fifo: Vec<u8> = Vec::new();
    push_zeros(&mut fifo, 4096);
    let written = instructions.write_le_bytes(fifo.as_mut_slice());
    let inst_len: usize = match written {
        Ok(inst_len) => inst_len,
        Err(error) => {
            let r: Result<(), AvdError> = Err(AvdError::H264(error));
            assert(issued_with(
                (&device, &*avd),
                (s, state.view()),
                (ops, bus.ops()),
                (calls, memory.log()),
                *request,
                *plan,
                references@,
                command,
                r,
                session,
                work,
                offsets,
                0,
            ));
            return r;
        },
    };
    proof {
        le32_all_len(words);
    }
    fifo.truncate(inst_len);
    assert(fifo@ =~= le32_all(words));
    bus.write_bytes(w.vaddr + AVD_WORKSPACE_INST_FIFO_OFFSET, fifo.as_slice());
    bus.clean_cache(w.vaddr + AVD_WORKSPACE_INST_FIFO_OFFSET, inst_len);
    bus.clean_cache(w.vaddr, w.byte_len);
    bus.clean_invalidate_cache(plan.output.vaddr, plan.output.len);
    let ghost base = device.registers.base;
    assert(bus.ops() =~= ops + issue_ops(base, w, plan.output, words));
    assert(words.take(kept(words.len() as int, 1024)) =~= words);
    let fed = avd.submit_h264_mmio(bus, &plan.request, &instructions);
    let status: u32 = match fed {
        Ok(status) => status,
        Err(error) => {
            let r: Result<(), AvdError> = Err(error);
            assert(issued_with(
                (&device, &*avd),
                (s, state.view()),
                (ops, bus.ops()),
                (calls, memory.log()),
                *request,
                *plan,
                references@,
                command,
                r,
                session,
                work,
                offsets,
                0,
            ));
            return r;
        },
    };
    let sent = avd.submit_h264_request(bus, &plan.request, command);
    let tag: u32 = match sent {
        Ok(tag) => tag,
        Err(error) => {
            let r: Result<(), AvdError> = Err(error);
            assert(issued_with(
                (&device, &*avd),
                (s, state.view()),
                (ops, bus.ops()),
                (calls, memory.log()),
                *request,
                *plan,
                references@,
                command,
                r,
                session,
                work,
                offsets,
                status,
            ));
            return r;
        },
    };
    avd.record(AvdTraceKind::DecodeSubmit, plan.request.input.dma_addr, inst_len as u64);
    let info = PendingInfo {
        stream_id: request.stream_id,
        frame_number: plan.request.frame_number,
        timestamp: request.timestamp,
        layout: plan.request.layout,
        payload_len: plan.request.layout.output_len(),
        output_header_vaddr: plan.output.header_vaddr,
        output_payload_vaddr: plan.output.vaddr,
        output_payload_offset: plan.output.payload_offset,
        output_payload_len: plan.output.len,
        reference_slot: plan.output.slot,
        store_reference: plan.request.slice.is_reference(),
        is_idr: plan.request.slice.is_idr(),
        status_before: status,
        command_tag: tag,
        input_dma_addr: plan.request.input.dma_addr,
        poll_count: 0,
    };
    assert(info == pending_from(*request, *plan, status, command));
    state.pending.push(AvdPendingDecode { info, input_mapping });
    let r: Result<(), AvdError> = Ok(());
    proof {
        assert(state.view().pending =~= s.pending.push(info));
        assert(state.inputs() =~= old(state).inputs().push(input_mapping));
        assert(state.held() =~= old(state).held().update(at as int, state.held()[at as int]));
        assert(state.view().sessions =~= ready.sessions);
        assert(issued_with(
            (&device, &*avd),
            (s, state.view()),
            (ops, bus.ops()),
            (calls, memory.log()),
            *request,
            *plan,
            references@,
            command,
            r,
            session,
            work,
            offsets,
            status,
        ));
    }
    r
}

/// The intermediate states of a submission.
pub struct SubmitSteps<'a, T> {
    /// Behind collecting completions.
    pub serviced: (&'a AppleAvd<T>, BackendView, Seq<Op>, Result<(), AvdError>),
    /// Behind ensuring that the firmware runs.
    pub running: (&'a AppleAvd<T>, Seq<Op>, Result<(), AvdError>),
    /// Behind staging.
    pub staged: (BackendView, Seq<Op>, Seq<MemoryCall>, Result<StagedDecode, AvdError>),
}

/// Everything that a submission starts from or leaves behind.
pub struct SubmitScene<'a, T> {
    pub device: &'a AppleAvd<T>,
    pub state: BackendView,
    pub ops: Seq<Op>,
    pub platform: Seq<PlatformCall>,
    pub memory: Seq<MemoryCall>,
}

/// What is submitted.
pub struct Submission {
    pub abi: VideoAbi,
    pub image: Seq<u8>,
    pub request: VideoDecodeRequest,
    pub parsed: Result<Option<H264StreamParameters>, H264FrontendError>,
    pub params: H264StatelessParams,
    pub references: Seq<AvdH264ReferencePicture>,
    pub command: AvdFirmwareCommand,
}

/// A submission: the request is checked, completions are collected, nothing
/// else may be pending, the firmware must run, the buffers are staged and the
/// decode is issued. The first step that fails ends it.
pub open spec fn submitted_by<T>(
    before: SubmitScene<T>,
    after: SubmitScene<T>,
    x: Submission,
    r: Result<(), AvdError>,
    t: SubmitSteps<T>,
) -> bool {
    let refusal = request_refusal(x.abi, x.request);
    if refusal is Some {
        &&& r is Err
        &&& r->Err_0 == refusal->0
        &&& after == before
    } else {
        let (d1, s1, ops1, r1) = t.serviced;
        &&& serviced((before.device, d1), (before.state, s1), x.abi, (before.ops, ops1), r1)
        &&& if r1 is Err || s1.pending.len() != 0 {
            &&& r is Err
            &&& r->Err_0 == if r1 is Err {
                r1->Err_0
            } else {
                AvdError::DecodePending
            }
            &&& after == SubmitScene { device: d1, state: s1, ops: ops1, ..before }
        } else {
            let (d2, ops2, r2) = t.running;
            &&& crate::avd::device::firmware_ensured(
                d1,
                d2,
                x.image,
                (ops1, ops2),
                (before.platform, after.platform),
                r2,
            )
            &&& if r2 is Err {
                &&& r is Err
                &&& r->Err_0 == r2->Err_0
                &&& after == SubmitScene {
                    device: d2,
                    state: s1,
                    ops: ops2,
                    platform: after.platform,
                    ..before
                }
            } else {
                let (s3, ops3, calls3, r3) = t.staged;
                &&& staged(
                    (s1, s3),
                    (ops2, ops3),
                    (before.memory, calls3),
                    x.abi,
                    x.request,
                    x.parsed,
                    x.params,
                    r3,
                )
                &&& if r3 is Err {
                    &&& r is Err
                    &&& r->Err_0 == r3->Err_0
                    &&& after == SubmitScene {
                        device: d2,
                        state: s3,
                        ops: ops3,
                        platform: after.platform,
                        memory: calls3,
                    }
                } else {
                    issued(
                        (d2, after.device),
                        (s3, after.state),
                        (ops3, after.ops),
                        (calls3, after.memory),
                        x.request,
                        r3->Ok_0,
                        x.references,
                        x.command,
                        r,
                    )
                }
            }
        }
    }
}

/// A request was submitted, or not, for a stated reason.
pub open spec fn submitted<T>(
    before: SubmitScene<T>,
    after: SubmitScene<T>,
    x: Submission,
    r: Result<(), AvdError>,
) -> bool {
    exists|t: SubmitSteps<T>| #[trigger] submitted_by(before, after, x, r, t)
}

/// What a submission keeps. One that succeeds leaves its own input as the only
/// one pending; one that fails leaves what the steps up to there kept.
pub open spec fn submitted_kept<H>(
    held: (Seq<Held<H>>, Seq<Held<H>>),
    inputs: (Seq<H>, Seq<H>),
    handles: (Seq<H>, Seq<H>),
    ok: bool,
) -> bool {
    if ok {
        exists|mid: (Seq<Held<H>>, Seq<H>), at: int, input: H| #[trigger]
            steps_kept(held, (Seq::empty(), inputs.1), handles, mid, at, input, true)
    } else {
        ||| held.1 == held.0 && handles.1 == handles.0 && inputs_serviced(inputs.0, inputs.1)
        ||| inputs.1.len() == 0 && exists|at: int, input: H| #[trigger]
            buffers_kept(held, handles, at, input)
        ||| inputs.1.len() == 0 && exists|
            mid: (Seq<Held<H>>, Seq<H>),
            at: int,
            input: H,
        | #[trigger]
            steps_kept(held, (Seq::empty(), inputs.1), handles, mid, at, input, false)
    }
}

/// A decode was staged and then issued or not, with `mid` in between.
pub open spec fn steps_kept<H>(
    held: (Seq<Held<H>>, Seq<Held<H>>),
    inputs: (Seq<H>, Seq<H>),
    handles: (Seq<H>, Seq<H>),
    mid: (Seq<Held<H>>, Seq<H>),
    at: int,
    input: H,
    issued: bool,
) -> bool {
    &&& buffers_kept((held.0, mid.0), (handles.0, mid.1), at, input)
    &&& issued_kept((mid.0, held.1), inputs, (mid.1, handles.1), at, input, issued)
}

/// Submits a request to the decoder. `parsed` and `params` are what the access
/// unit says of its stream and its slice, `references` the pictures that it may
/// refer to, and `command` the mailbox command of the request.
pub fn submit_decode<T, P: AvdPlatform, H, D: AvdMemory<H>, M: Mmio>(
    avd: &mut AppleAvd<T>,
    state: &mut AvdBackendState<H>,
    bus: &mut Bus<M>,
    port: &mut AvdPort<P>,
    memory: &mut AvdMemoryPort<H, D>,
    abi: &VideoAbi,
    image: &[u8],
    request: &VideoDecodeRequest,
    parsed: Result<Option<H264StreamParameters>, H264FrontendError>,
    params: &H264StatelessParams,
    references: &[AvdH264ReferencePicture],
    command: AvdFirmwareCommand,
) -> (r: Result<(), AvdError>)
    requires
        old(avd).wf(),
        abi.wf(),
        request_in_range(*request),
        sessions_ok(old(state).view().sessions),
        pending_ok(old(state).view().pending),
    ensures
        final(avd).wf(),
        sessions_ok(final(state).view().sessions),
        pending_ok(final(state).view().pending),
        submitted_kept(
            (old(state).held(), final(state).held()),
            (old(state).inputs(), final(state).inputs()),
            (old(memory).handles(), final(memory).handles()),
            r is Ok,
        ),
        submitted(
            (SubmitScene {
                device: &*old(avd),
                state: old(state).view(),
                ops: old(bus).ops(),
                platform: old(port).log(),
                memory: old(memory).log(),
            }),
            (SubmitScene {
                device: &*final(avd),
                state: final(state).view(),
                ops: final(bus).ops(),
                platform: final(port).log(),
                memory: final(memory).log(),
            }),
            (Submission {
                abi: *abi,
                image: image@,
                request: *request,
                parsed,
                params: *params,
                references: references@,
                command,
            }),
            r,
        ),
{
    let ghost d0 = *avd;
    let ghost x = Submission {
        abi: *abi,
        image: image@,
        request: *request,
        parsed,
        params: *params,
        references: references@,
        command,
    };
    let ghost before = SubmitScene {
        device: &d0,
        state: state.view(),
        ops: bus.ops(),
        platform: port.log(),
        memory: memory.log(),
    };
    let ghost empty: Result<StagedDecode, AvdError> = Err(AvdError::InvalidStream);
    let ghost mut t = SubmitSteps {
        serviced: (&d0, before.state, before.ops, Ok(())),
        running: (&d0, before.ops, Ok(())),
        staged: (before.state, before.ops, before.memory, empty),
    };
    if let Err(error) = check_request(abi, request) {
        let r: Result<(), AvdError> = Err(error);
        assert(submitted_by(before, before, x, r, t));
        return r;
    }
    let service = service_completions(avd, state, bus, abi);
    let ghost d1 = *avd;
    proof {
        t = SubmitSteps { serviced: (&d1, state.view(), bus.ops(), service), ..t };
        serviced_keeps_sessions_ok(
            (&d0, &d1),
            (before.state, state.view()),
            *abi,
            (before.ops, bus.ops()),
            service,
        );
    }
    if let Err(error) = service {
        let r: Result<(), AvdError> = Err(error);
        let ghost after = SubmitScene {
            device: &d1,
            state: state.view(),
            ops: bus.ops(),
            ..before
        };
        assert(submitted_by(before, after, x, r, t));
        return r;
    }
    if state.pending.len() != 0 {
        let r: Result<(), AvdError> = Err(AvdError::DecodePending);
        let ghost after = SubmitScene {
            device: &d1,
            state: state.view(),
            ops: bus.ops(),
            ..before
        };
        assert(submitted_by(before, after, x, r, t));
        return r;
    }
    assert(state.view().pending.len() == 0);
    assert(state.inputs() =~= Seq::empty());
    let running = avd.ensure_firmware_running(bus, port, image);
    let ghost d2 = *avd;
    proof {
        t = SubmitSteps { running: (&d2, bus.ops(), running), ..t };
    }
    if let Err(error) = running {
        let r: Result<(), AvdError> = Err(error);
        let ghost after = SubmitScene {
            device: &d2,
            state: state.view(),
            ops: bus.ops(),
            platform: port.log(),
            ..before
        };
        assert(submitted_by(before, after, x, r, t));
        return r;
    }
    let staging = stage_decode(state, bus, memory, abi, request, parsed, params);
    proof {
        t = SubmitSteps {
            staged: (state.view(), bus.ops(), memory.log(), staged_view(staging)),
            ..t
        };
    }
    let ghost mid = (state.held(), memory.handles());
    let (plan, mapping) = match staging {
        Ok((plan, mapping)) => (plan, mapping),
        Err(error) => {
            let r: Result<(), AvdError> = Err(error);
            let ghost after = SubmitScene {
                device: &d2,
                state: state.view(),
                ops: bus.ops(),
                platform: port.log(),
                memory: memory.log(),
            };
            assert(submitted_by(before, after, x, r, t));
            return r;
        },
    };
    let ghost input = mapping;
    let r = issue_decode(avd, state, bus, memory, request, &plan, mapping, references, command);
    assert(steps_kept(
        (old(state).held(), state.held()),
        (Seq::empty(), state.inputs()),
        (old(memory).handles(), memory.handles()),
        mid,
        plan.at as int,
        input,
        r is Ok,
    ));
    let ghost d3 = *avd;
    let ghost after = SubmitScene {
        device: &d3,
        state: state.view(),
        ops: bus.ops(),
        platform: port.log(),
        memory: memory.log(),
    };
    assert(submitted_by(before, after, x, r, t));
    r
}

/// Collecting completions keeps every session within the machine's arithmetic.
proof fn serviced_keeps_sessions_ok<D>(
    device: (&AppleAvd<D>, &AppleAvd<D>),
    state: (BackendView, BackendView),
    abi: VideoAbi,
    ops: (Seq<Op>, Seq<Op>),
    r: Result<(), AvdError>,
)
    requires
        sessions_ok(state.0.sessions),
        serviced(device, state, abi, ops, r),
    ensures
        sessions_ok(state.1.sessions),
{
    let (seen, status) = choose|
        seen: (&AppleAvd<D>, Seq<Op>, Option<AvdFirmwareMessage>, u32),
        status: u32,
    | #[trigger]
        serviced_with(device, state, abi, ops, r, seen, status);
    let v = verdict(state.0.pending, seen.2, status);
    if v == Verdict::Finished {
        session_of_is_first(state.0.sessions, state.0.pending[0].stream_id, 0);
    }
    assert forall|i: int| 0 <= i < state.1.sessions.len() implies session_ok(
        #[trigger] state.1.sessions[i],
    ) by {
        assert(session_ok(state.0.sessions[i]));
    }
}

/// A decode that was issued is the only one pending, with the status of the
/// engine at its submission, and none of its looks used up.
pub proof fn issued_decode_is_pending<D>(
    device: (&AppleAvd<D>, &AppleAvd<D>),
    state: (BackendView, BackendView),
    ops: (Seq<Op>, Seq<Op>),
    calls: (Seq<MemoryCall>, Seq<MemoryCall>),
    request: VideoDecodeRequest,
    plan: StagedDecode,
    references: Seq<AvdH264ReferencePicture>,
    command: AvdFirmwareCommand,
    r: Result<(), AvdError>,
)
    requires
        state.0.pending.len() == 0,
        issued(device, state, ops, calls, request, plan, references, command, r),
        r is Ok,
    ensures
        state.1.pending.len() == 1,
        state.1.pending[0].stream_id == request.stream_id,
        state.1.pending[0].timestamp == request.timestamp,
        state.1.pending[0].poll_count == 0,
        device.0.firmware_state == AvdFirmwareState::Running,
{
}

} // verus!
