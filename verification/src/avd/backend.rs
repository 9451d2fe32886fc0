//! Decode sessions: buffers, references, pending and completed frames.

use crate::arith::{aligned_up, aligned_up_is_least_multiple, round_up_usize, rounded_up};
use crate::avd::device::AvdError;
use crate::avd::h264::{AvdFrameLayout, H264StreamParameters};
use crate::bus::{Bus, Mmio, Op};
use crate::bytes::{le32, push_le32};
use crate::ports::video::{mapped_at, AvdMemory, AvdMemoryPort, MemoryCall};
use vstd::prelude::*;

verus! {

/// Granule that every buffer of the decoder is aligned to.
pub const AVD_DMA_GRANULE: usize = 0x4000;

pub const AVD_MAPPED_INPUT_BYTES: usize = 8 * 1024 * 1024;

pub const AVD_MAX_DECODED_FRAME_BYTES: usize = 16 * 1024 * 1024;

pub const AVD_MAX_SESSIONS: usize = 4;

pub const AVD_WORKSPACE_BYTES: usize = 16 * 1024 * 1024;

pub const AVD_WORKSPACE_INST_FIFO_OFFSET: usize = 0x4000;

pub const AVD_WORKSPACE_INST_FIFO_BYTES: usize = 0x100000;

pub const AVD_WORKSPACE_PPS_TILE_OFFSET: usize = 0x140000;

pub const AVD_WORKSPACE_SPS_TILE_OFFSET: usize = 0x200000;

pub const AVD_WORKSPACE_REFERENCE_OFFSET: usize = 0x400000;

pub const AVD_REFERENCE_SLOT_COUNT: usize = 4;

/// Where the payload begins in an output slot.
pub const AVD_OUTPUT_SLOT_PAYLOAD_OFFSET: usize = 0x4000;

/// Looks at the hardware before a decode is given up.
pub const AVD_DECODE_POLL_LIMIT: usize = 10_000;

/// Numbers that the system's video interface fixes.
#[derive(Clone, Copy, Debug, PartialEq, Eq)]
pub struct VideoAbi {
    /// Coded format number of H.264.
    pub format_h264: u32,
    /// Pixel format number of NV12.
    pub pixel_format_nv12: u32,
    /// First bytes of a frame header.
    pub frame_magic: [u8; 4],
    /// Bytes kept free for a frame header in front of the payload.
    pub frame_header_len: usize,
}

impl VideoAbi {
    /// A header fits in front of the payload.
    pub open spec fn wf(self) -> bool {
        20 <= self.frame_header_len <= 0x4000
    }
}

/// What the decoder offers.
#[derive(Clone, Copy, Debug, PartialEq, Eq, Structural)]
pub struct VideoCapabilities {
    pub max_sessions: u32,
    pub mapped_input_len: u32,
    pub mapped_output_len: u32,
    pub output_pixel_format: u32,
    pub supports_h264: bool,
    pub supports_av1: bool,
}

/// Bytes of the mapped output buffer: the largest frame with its header, in
/// whole granules.
pub fn mapped_output_bytes(abi: VideoAbi) -> (r: usize)
    requires
        abi.wf(),
    ensures
        r == aligned_up(0x100_0000 + abi.frame_header_len, 0x4000),
        0x100_0000 < r <= 0x101_0000,
{
    proof {
        aligned_up_is_least_multiple(0x100_0000 + abi.frame_header_len, 0x4000);
    }
    ((AVD_MAX_DECODED_FRAME_BYTES + abi.frame_header_len + (AVD_DMA_GRANULE - 1)) / AVD_DMA_GRANULE)
        * AVD_DMA_GRANULE
}

/// What the decoder offers.
pub fn capabilities(abi: VideoAbi) -> (r: VideoCapabilities)
    requires
        abi.wf(),
    ensures
        r.max_sessions == 4,
        r.mapped_input_len == 0x80_0000,
        r.mapped_output_len == aligned_up(0x100_0000 + abi.frame_header_len, 0x4000),
        r.output_pixel_format == abi.pixel_format_nv12,
        r.supports_h264,
        !r.supports_av1,
{
    VideoCapabilities {
        max_sessions: AVD_MAX_SESSIONS as u32,
        mapped_input_len: AVD_MAPPED_INPUT_BYTES as u32,
        mapped_output_len: mapped_output_bytes(abi) as u32,
        output_pixel_format: abi.pixel_format_nv12,
        supports_h264: true,
        supports_av1: false,
    }
}

/// A request to decode one access unit.
#[derive(Clone, Copy, Debug)]
pub struct VideoDecodeRequest {
    pub stream_id: u32,
    pub coded_format: u32,
    pub input_paddr: usize,
    pub input_vaddr: usize,
    pub input_len: u32,
    pub output_paddr: usize,
    pub output_vaddr: usize,
    pub output_offset: usize,
    pub output_len: u32,
    pub timestamp: u64,
}

/// A decoded frame as it is handed to the user.
#[derive(Clone, Copy, Debug, PartialEq, Eq, Structural)]
pub struct VideoDecodedFrame {
    pub stream_id: u32,
    pub width: u32,
    pub height: u32,
    pub pixel_format: u32,
    pub payload_offset: u64,
    pub payload_len: u32,
    pub flags: u32,
    pub timestamp: u64,
}

/// The mapping granule in use: that of the memory, but no less than a least
/// one.
pub open spec fn granule_of(granule: usize, least: usize) -> usize {
    if granule >= least {
        granule
    } else {
        least
    }
}

fn larger(a: usize, b: usize) -> (r: usize)
    ensures
        r == granule_of(a, b),
{
    if a >= b {
        a
    } else {
        b
    }
}

/// A decoded picture that later ones may refer to.
#[derive(Clone, Copy, Debug, PartialEq, Eq, Structural)]
pub struct AvdReferenceFrame {
    pub slot: usize,
    pub frame_number: u32,
    pub timestamp: u64,
    pub layout: AvdFrameLayout,
}

/// Where a session's work area lies.
#[derive(Clone, Copy, Debug, PartialEq, Eq, Structural)]
pub struct WorkspaceInfo {
    pub paddr: usize,
    pub vaddr: usize,
    pub dma_addr: u64,
    pub byte_len: usize,
}

/// A session's work area.
pub struct AvdSessionWorkspace<H> {
    pub info: WorkspaceInfo,
    pub pages: H,
    pub mapping: H,
}

/// Where a session's output buffer lies.
#[derive(Clone, Copy, Debug, PartialEq, Eq, Structural)]
pub struct PoolInfo {
    pub paddr: usize,
    pub vaddr: usize,
    pub len: usize,
    pub dma_addr: u64,
}

/// A session's output buffer.
pub struct AvdMappedOutputPool<H> {
    pub info: PoolInfo,
    pub mapping: H,
}

/// Where one frame is decoded to.
#[derive(Clone, Copy, Debug, PartialEq, Eq, Structural)]
pub struct AvdReferenceOutput {
    pub slot: usize,
    pub dma_addr: u64,
    pub vaddr: usize,
    pub header_vaddr: usize,
    pub payload_offset: usize,
    pub len: usize,
}

/// A decode that the hardware works on.
#[derive(Clone, Copy, Debug, PartialEq, Eq, Structural)]
pub struct PendingInfo {
    pub stream_id: u32,
    pub frame_number: u32,
    pub timestamp: u64,
    pub layout: AvdFrameLayout,
    pub payload_len: usize,
    pub output_header_vaddr: usize,
    pub output_payload_vaddr: usize,
    pub output_payload_offset: usize,
    pub output_payload_len: usize,
    pub reference_slot: usize,
    pub store_reference: bool,
    pub is_idr: bool,
    pub status_before: u32,
    pub command_tag: u32,
    pub input_dma_addr: u64,
    pub poll_count: usize,
}

/// A decode that the hardware works on, with its mapped input.
pub struct AvdPendingDecode<H> {
    pub info: PendingInfo,
    pub input_mapping: H,
}

/// One decode session.
pub struct AvdBackendSession<H> {
    pub stream_id: u32,
    pub active: bool,
    pub coded_format: u32,
    pub next_frame: u32,
    pub stream_parameters: Option<H264StreamParameters>,
    pub workspace: Option<AvdSessionWorkspace<H>>,
    pub output_pool: Option<AvdMappedOutputPool<H>>,
    pub reference_frames: Vec<AvdReferenceFrame>,
    pub next_reference_slot: usize,
    pub reference_slot_len: usize,
}

/// What a session holds.
pub struct SessionView {
    pub stream_id: u32,
    pub active: bool,
    pub coded_format: u32,
    pub next_frame: u32,
    pub stream_parameters: Option<H264StreamParameters>,
    pub workspace: Option<WorkspaceInfo>,
    pub output_pool: Option<PoolInfo>,
    pub reference_frames: Seq<AvdReferenceFrame>,
    pub next_reference_slot: usize,
    pub reference_slot_len: usize,
}

/// What a session keeps alive: pages and mapping of its work area, and the
/// mapping of its output buffer.
pub struct Held<H> {
    pub workspace: Option<(H, H)>,
    pub output: Option<H>,
}

/// A session that keeps nothing alive.
pub open spec fn nothing_held<H>() -> Held<H> {
    Held { workspace: None, output: None }
}

/// Preparing an output keeps the mapping that came for it, in place of the
/// earlier one, or what was there where none came.
pub open spec fn output_kept<H>(held: (Held<H>, Held<H>), handles: (Seq<H>, Seq<H>)) -> bool {
    if handles.1 == handles.0 {
        held.1 == held.0
    } else {
        &&& handles.1.len() > 0
        &&& handles.1 == handles.0.push(handles.1.last())
        &&& held.1 == Held { output: Some(handles.1.last()), ..held.0 }
    }
}

/// The inputs of the pending decodes of other streams.
pub open spec fn inputs_without<H>(
    pending: Seq<PendingInfo>,
    inputs: Seq<H>,
    stream_id: u32,
) -> Seq<H>
    decreases pending.len(),
{
    if pending.len() == 0 {
        Seq::empty()
    } else {
        let rest = inputs_without(pending.drop_last(), inputs.drop_last(), stream_id);
        if pending.last().stream_id != stream_id {
            rest.push(inputs.last())
        } else {
            rest
        }
    }
}

/// A session that nothing was done with.
pub open spec fn fresh_session(stream_id: u32) -> SessionView {
    SessionView {
        stream_id,
        active: false,
        coded_format: 0,
        next_frame: 0,
        stream_parameters: None,
        workspace: None,
        output_pool: None,
        reference_frames: Seq::empty(),
        next_reference_slot: 0,
        reference_slot_len: 0,
    }
}

/// The references outside a slot.
pub open spec fn without_slot(frames: Seq<AvdReferenceFrame>, slot: usize) -> Seq<AvdReferenceFrame>
    decreases frames.len(),
{
    if frames.len() == 0 {
        Seq::empty()
    } else {
        let rest = without_slot(frames.drop_last(), slot);
        if frames.last().slot != slot {
            rest.push(frames.last())
        } else {
            rest
        }
    }
}

/// The last four references.
pub open spec fn newest_four(frames: Seq<AvdReferenceFrame>) -> Seq<AvdReferenceFrame> {
    if frames.len() <= 4 {
        frames
    } else {
        frames.skip(frames.len() - 4)
    }
}

/// The references behind a decoded picture: an IDR picture drops all older
/// ones, and a reference picture replaces what its slot held.
pub open spec fn references_after(frames: Seq<AvdReferenceFrame>, info: PendingInfo) -> Seq<
    AvdReferenceFrame,
> {
    let base = if info.is_idr {
        Seq::empty()
    } else {
        frames
    };
    if info.store_reference {
        newest_four(
            without_slot(base, info.reference_slot).push(
                AvdReferenceFrame {
                    slot: info.reference_slot,
                    frame_number: info.frame_number,
                    timestamp: info.timestamp,
                    layout: info.layout,
                },
            ),
        )
    } else {
        base
    }
}

/// References lie in different slots, and each in one of the four.
pub open spec fn slots_differ(frames: Seq<AvdReferenceFrame>) -> bool {
    &&& forall|i: int| 0 <= i < frames.len() ==> (#[trigger] frames[i]).slot < 4
    &&& forall|i: int, j: int|
        0 <= i < j < frames.len() ==> (#[trigger] frames[i]).slot != (#[trigger] frames[j]).slot
}

proof fn without_slot_keeps(frames: Seq<AvdReferenceFrame>, slot: usize)
    requires
        slots_differ(frames),
    ensures
        slots_differ(without_slot(frames, slot)),
        without_slot(frames, slot).len() <= frames.len(),
        forall|i: int|
            0 <= i < without_slot(frames, slot).len() ==> (#[trigger] without_slot(
                frames,
                slot,
            )[i]).slot != slot,
        forall|i: int|
            0 <= i < without_slot(frames, slot).len() ==> exists|k: int|
                0 <= k < frames.len() && #[trigger] frames[k] == #[trigger] without_slot(
                    frames,
                    slot,
                )[i],
    decreases frames.len(),
{
    if frames.len() > 0 {
        let front = frames.drop_last();
        assert forall|i: int| 0 <= i < front.len() implies (#[trigger] front[i]).slot < 4 by {
            assert(front[i] == frames[i]);
        }
        assert forall|i: int, j: int| 0 <= i < j < front.len() implies (#[trigger] front[i]).slot
            != (#[trigger] front[j]).slot by {
            assert(front[i] == frames[i] && front[j] == frames[j]);
        }
        without_slot_keeps(front, slot);
        let rest = without_slot(front, slot);
        let all = without_slot(frames, slot);
        assert forall|i: int| 0 <= i < all.len() implies exists|k: int|
            0 <= k < frames.len() && #[trigger] frames[k] == #[trigger] all[i] by {
            if i < rest.len() {
                assert(all[i] == rest[i]);
                let k = choose|k: int| 0 <= k < front.len() && #[trigger] front[k] == rest[i];
                assert(frames[k] == all[i]);
            } else {
                assert(frames[frames.len() - 1] == all[i]);
            }
        }
        assert forall|i: int, j: int| 0 <= i < j < all.len() implies (#[trigger] all[i]).slot
            != (#[trigger] all[j]).slot by {
            assert(all[i] == rest[i]);
            if j < rest.len() {
                assert(all[j] == rest[j]);
            } else {
                let k = choose|k: int| 0 <= k < front.len() && #[trigger] front[k] == rest[i];
                assert(frames[k] == front[k]);
                assert(all[j] == frames[frames.len() - 1]);
            }
        }
        assert forall|i: int| 0 <= i < all.len() implies (#[trigger] all[i]).slot < 4 by {
            if i < rest.len() {
                assert(all[i] == rest[i]);
            } else {
                assert(all[i] == frames[frames.len() - 1]);
            }
        }
    }
}

/// References stay in different slots, whatever is decoded, and the newest
/// reference is the last of them.
pub proof fn references_stay_in_different_slots(frames: Seq<AvdReferenceFrame>, info: PendingInfo)
    requires
        slots_differ(frames),
        frames.len() <= 4,
        info.reference_slot < 4,
    ensures
        slots_differ(references_after(frames, info)),
        references_after(frames, info).len() <= 4,
        info.store_reference ==> references_after(frames, info).last().frame_number
            == info.frame_number,
{
    let base = if info.is_idr {
        Seq::empty()
    } else {
        frames
    };
    without_slot_keeps(base, info.reference_slot);
}

impl<H> AvdBackendSession<H> {
    pub open spec fn view(&self) -> SessionView {
        SessionView {
            stream_id: self.stream_id,
            active: self.active,
            coded_format: self.coded_format,
            next_frame: self.next_frame,
            stream_parameters: self.stream_parameters,
            workspace: match self.workspace {
                Some(w) => Some(w.info),
                None => None,
            },
            output_pool: match self.output_pool {
                Some(p) => Some(p.info),
                None => None,
            },
            reference_frames: self.reference_frames@,
            next_reference_slot: self.next_reference_slot,
            reference_slot_len: self.reference_slot_len,
        }
    }

    /// What the session keeps alive.
    pub open spec fn held(&self) -> Held<H> {
        Held {
            workspace: match self.workspace {
                Some(w) => Some((w.pages, w.mapping)),
                None => None,
            },
            output: match self.output_pool {
                Some(p) => Some(p.mapping),
                None => None,
            },
        }
    }

    pub fn new(index: usize) -> (r: Self)
        requires
            index < 4,
        ensures
            r.held() == nothing_held::<H>(),
            r.view() == fresh_session((index + 1) as u32),
    {
        AvdBackendSession {
            stream_id: (index + 1) as u32,
            active: false,
            coded_format: 0,
            next_frame: 0,
            stream_parameters: None,
            workspace: None,
            output_pool: None,
            reference_frames: Vec::new(),
            next_reference_slot: 0,
            reference_slot_len: 0,
        }
    }

    /// Drops everything that the session holds.
    pub fn reset(&mut self)
        ensures
            final(self).view() == fresh_session(old(self).stream_id),
            final(self).held() == nothing_held::<H>(),
    {
        self.active = false;
        self.coded_format = 0;
        self.next_frame = 0;
        self.stream_parameters = None;
        self.workspace = None;
        self.output_pool = None;
        self.reference_frames = Vec::new();
        self.next_reference_slot = 0;
        self.reference_slot_len = 0;
    }

    /// Notes a decoded picture among the references.
    fn remember(&mut self, info: &PendingInfo)
        ensures
            final(self).held() == old(self).held(),
            final(self).view() == (SessionView {
                reference_frames: references_after(old(self).reference_frames@, *info),
                ..old(self).view()
            }),
    {
        if info.is_idr {
            self.reference_frames = Vec::new();
        }
        let ghost base = self.reference_frames@;
        if info.store_reference {
            let mut kept: Vec<AvdReferenceFrame> = Vec::new();
            let mut i: usize = 0;
            while i < self.reference_frames.len()
                invariant
                    i <= base.len(),
                    self.reference_frames@ == base,
                    self.held() == old(self).held(),
                    kept@ == without_slot(base.take(i as int), info.reference_slot),
                decreases base.len() - i,
            {
                let frame = self.reference_frames[i];
                assert(base.take(i + 1).drop_last() =~= base.take(i as int));
                if frame.slot != info.reference_slot {
                    kept.push(frame);
                }
                i = i + 1;
            }
            assert(base.take(base.len() as int) =~= base);
            kept.push(
                AvdReferenceFrame {
                    slot: info.reference_slot,
                    frame_number: info.frame_number,
                    timestamp: info.timestamp,
                    layout: info.layout,
                },
            );
            let ghost all = kept@;
            while kept.len() > AVD_REFERENCE_SLOT_COUNT
                invariant
                    kept@.len() <= all.len(),
                    kept@ == all.skip(all.len() - kept@.len()),
                    kept@.len() >= 4 || kept@.len() == all.len(),
                decreases kept@.len(),
            {
                kept.remove(0);
                assert(kept@ =~= all.skip(all.len() - kept@.len()));
            }
            assert(kept@ =~= newest_four(all));
            self.reference_frames = kept;
        }
    }
}

/// Length of an output slot: the payload behind its offset, in whole granules.
pub open spec fn slot_span(layout: AvdFrameLayout) -> int {
    aligned_up(0x4000 + layout.output_bytes(), 0x4000)
}

/// How an output buffer is refused, if it is.
pub open spec fn output_refusal(layout: AvdFrameLayout, output_len: u32) -> Option<AvdError> {
    if 0x4000 + layout.output_bytes() > usize::MAX {
        Some(AvdError::OutputSlotOverflow)
    } else if slot_span(layout) * 4 > usize::MAX {
        Some(AvdError::ReferenceSlotOverflow)
    } else if layout.output_bytes() == 0 || slot_span(layout) * 4 > output_len {
        Some(AvdError::FrameExceedsPool)
    } else {
        None
    }
}

/// The arithmetic of an output buffer stays in range.
pub open spec fn output_in_range(request: VideoDecodeRequest, layout: AvdFrameLayout) -> bool {
    &&& layout.output_bytes() <= usize::MAX
    &&& 0x4000 + layout.output_bytes() > usize::MAX || 0x4000 + layout.output_bytes() + 0x3fff
        <= usize::MAX
    &&& request.output_vaddr + request.output_len <= usize::MAX
    &&& request.output_offset + request.output_len <= usize::MAX
}

/// The length that is mapped for an output buffer.
pub open spec fn output_map_len(output_len: u32, granule: usize) -> usize {
    rounded_up(output_len as usize, granule_of(granule, 0x4000))
}

/// The pool still is the buffer of the request.
pub open spec fn pool_matches(pool: Option<PoolInfo>, request: VideoDecodeRequest, len: usize) -> bool {
    match pool {
        Some(p) => p.paddr == request.output_paddr && p.vaddr == request.output_vaddr && p.len
            == len,
        None => false,
    }
}

/// The session with its pool brought up to date.
pub open spec fn with_pool(
    s: SessionView,
    request: VideoDecodeRequest,
    len: usize,
    reply: Option<u64>,
) -> SessionView {
    if pool_matches(s.output_pool, request, len) || reply is None {
        s
    } else {
        SessionView {
            output_pool: Some(
                PoolInfo {
                    paddr: request.output_paddr,
                    vaddr: request.output_vaddr,
                    len,
                    dma_addr: reply->0,
                },
            ),
            reference_frames: Seq::empty(),
            next_reference_slot: 0,
            reference_slot_len: 0,
            ..s
        }
    }
}

/// The session with its slots laid out anew where their length has changed.
pub open spec fn with_slots(s: SessionView, span: int) -> SessionView {
    if s.reference_slot_len == span {
        s
    } else {
        SessionView {
            reference_frames: Seq::empty(),
            next_reference_slot: 0,
            reference_slot_len: span as usize,
            ..s
        }
    }
}

/// An address a number of bytes on, around the end of the address space.
pub open spec fn addr_plus(addr: u64, n: int) -> u64 {
    ((addr + n) % 0x1_0000_0000_0000_0000) as u64
}

/// Where the next frame of a session goes.
pub open spec fn output_of(
    s: SessionView,
    request: VideoDecodeRequest,
    layout: AvdFrameLayout,
    header_len: int,
) -> AvdReferenceOutput {
    let slot = s.next_reference_slot % 4;
    let at = slot * slot_span(layout) + 0x4000;
    let pool = s.output_pool->0;
    AvdReferenceOutput {
        slot,
        dma_addr: addr_plus(pool.dma_addr, at),
        vaddr: (pool.vaddr + at) as usize,
        header_vaddr: (pool.vaddr + at - header_len) as usize,
        payload_offset: (request.output_offset + at) as usize,
        len: layout.output_bytes() as usize,
    }
}

/// The session with its next slot taken.
pub open spec fn slot_taken(s: SessionView) -> SessionView {
    SessionView { next_reference_slot: ((s.next_reference_slot % 4 + 1) % 4) as usize, ..s }
}

/// What preparing an output does, with the granule and the mapping that came
/// back.
pub open spec fn output_prepared(
    before: SessionView,
    after: SessionView,
    calls: (Seq<MemoryCall>, Seq<MemoryCall>),
    request: VideoDecodeRequest,
    layout: AvdFrameLayout,
    header_len: int,
    r: Result<AvdReferenceOutput, AvdError>,
    granule: usize,
    reply: Option<u64>,
) -> bool {
    let len = output_map_len(request.output_len, granule);
    let remap = !pool_matches(before.output_pool, request, len);
    let pooled = with_slots(with_pool(before, request, len, reply), slot_span(layout));
    if output_refusal(layout, request.output_len) is Some {
        &&& r is Err
        &&& r->Err_0 == output_refusal(layout, request.output_len)->0
        &&& after == before
        &&& calls.1 == calls.0
    } else if request.output_len + granule_of(granule, 0x4000) - 1 > usize::MAX {
        &&& r is Err
        &&& r->Err_0 == AvdError::OutputMap
        &&& after == before
        &&& calls.1 == calls.0.push(MemoryCall::Granule(granule))
    } else {
        let asked = calls.0.push(MemoryCall::Granule(granule));
        &&& calls.1 == if remap {
            asked.push(
                MemoryCall::Mapped { paddr: request.output_paddr, len, writable: true, reply },
            )
        } else {
            asked
        }
        &&& if remap && reply is None {
            &&& r is Err
            &&& r->Err_0 == AvdError::OutputMap
            &&& after == before
        } else {
            &&& r is Ok
            &&& r->Ok_0 == output_of(pooled, request, layout, header_len)
            &&& after == slot_taken(pooled)
        }
    }
}

impl<H> AvdBackendSession<H> {
    /// Brings the output buffer up to date and takes the next slot of it.
    pub fn prepare_mapped_output<D: AvdMemory<H>>(
        &mut self,
        memory: &mut AvdMemoryPort<H, D>,
        request: &VideoDecodeRequest,
        layout: &AvdFrameLayout,
        header_len: usize,
    ) -> (r: Result<AvdReferenceOutput, AvdError>)
        requires
            output_in_range(*request, *layout),
            header_len <= 0x4000,
        ensures
            output_kept(
                (old(self).held(), final(self).held()),
                (old(memory).handles(), final(memory).handles()),
            ),
            exists|granule: usize, reply: Option<u64>| #[trigger]
                output_prepared(
                    old(self).view(),
                    final(self).view(),
                    (old(memory).log(), final(memory).log()),
                    *request,
                    *layout,
                    header_len as int,
                    r,
                    granule,
                    reply,
                ),
    {
        let ghost before = self.view();
        let ghost calls = memory.log();
        let ghost span = slot_span(*layout);
        let output_len: usize = request.output_len as usize;
        let payload_len: usize = layout.output_len();
        let reach: usize = match AVD_OUTPUT_SLOT_PAYLOAD_OFFSET.checked_add(payload_len) {
            Some(reach) => reach,
            None => {
                let r: Result<AvdReferenceOutput, AvdError> = Err(AvdError::OutputSlotOverflow);
                assert(output_prepared(
                    before,
                    self.view(),
                    (calls, memory.log()),
                    *request,
                    *layout,
                    header_len as int,
                    r,
                    0,
                    None,
                ));
                return r;
            },
        };
        proof {
            aligned_up_is_least_multiple(reach as int, 0x4000);
        }
        let slot_len: usize = ((reach + (AVD_DMA_GRANULE - 1)) / AVD_DMA_GRANULE) * AVD_DMA_GRANULE;
        assert(slot_len == span);
        let required: usize = match slot_len.checked_mul(AVD_REFERENCE_SLOT_COUNT) {
            Some(required) => required,
            None => {
                let r: Result<AvdReferenceOutput, AvdError> = Err(AvdError::ReferenceSlotOverflow);
                assert(output_prepared(
                    before,
                    self.view(),
                    (calls, memory.log()),
                    *request,
                    *layout,
                    header_len as int,
                    r,
                    0,
                    None,
                ));
                return r;
            },
        };
        if payload_len == 0 || required > output_len {
            let r: Result<AvdReferenceOutput, AvdError> = Err(AvdError::FrameExceedsPool);
            assert(output_prepared(
                before,
                self.view(),
                (calls, memory.log()),
                *request,
                *layout,
                header_len as int,
                r,
                0,
                None,
            ));
            return r;
        }
        let granule: usize = memory.mapping_granule();
        let step: usize = larger(granule, AVD_DMA_GRANULE);
        if output_len > usize::MAX - (step - 1) {
            let r: Result<AvdReferenceOutput, AvdError> = Err(AvdError::OutputMap);
            assert(output_prepared(
                before,
                self.view(),
                (calls, memory.log()),
                *request,
                *layout,
                header_len as int,
                r,
                granule,
                None,
            ));
            return r;
        }
        let map_len: usize = round_up_usize(output_len, step);
        let same = match &self.output_pool {
            Some(pool) => pool.info.paddr == request.output_paddr && pool.info.vaddr
                == request.output_vaddr && pool.info.len == map_len,
            None => false,
        };
        assert(same == pool_matches(before.output_pool, *request, map_len));
        let ghost mut reply: Option<u64> = None;
        if !same {
            let mapped = memory.map(request.output_paddr, map_len, true);
            proof {
                reply = mapped_at(mapped);
            }
            match mapped {
                Some((dma_addr, mapping)) => {
                    self.output_pool = Some(
                        AvdMappedOutputPool {
                            info: PoolInfo {
                                paddr: request.output_paddr,
                                vaddr: request.output_vaddr,
                                len: map_len,
                                dma_addr,
                            },
                            mapping,
                        },
                    );
                    self.reference_frames = Vec::new();
                    self.next_reference_slot = 0;
                    self.reference_slot_len = 0;
                },
                None => {
                    let r: Result<AvdReferenceOutput, AvdError> = Err(AvdError::OutputMap);
                    assert(output_prepared(
                        before,
                        self.view(),
                        (calls, memory.log()),
                        *request,
                        *layout,
                        header_len as int,
                        r,
                        granule,
                        reply,
                    ));
                    return r;
                },
            }
        }
        assert(self.view() == with_pool(before, *request, map_len, reply));
        if self.reference_slot_len != slot_len {
            self.reference_frames = Vec::new();
            self.next_reference_slot = 0;
            self.reference_slot_len = slot_len;
        }
        let ghost pooled = self.view();
        assert(pooled == with_slots(with_pool(before, *request, map_len, reply), span));
        let slot: usize = self.next_reference_slot % AVD_REFERENCE_SLOT_COUNT;
        self.next_reference_slot = (slot + 1) % AVD_REFERENCE_SLOT_COUNT;
        proof {
            assert(slot * slot_len <= 3 * slot_len) by (nonlinear_arith)
                requires
                    slot <= 3,
                    slot_len >= 0,
            ;
        }
        let at: usize = slot * slot_len + AVD_OUTPUT_SLOT_PAYLOAD_OFFSET;
        let (pool_vaddr, pool_dma) = match &self.output_pool {
            Some(pool) => (pool.info.vaddr, pool.info.dma_addr),
            None => (0, 0),
        };
        let output = AvdReferenceOutput {
            slot,
            dma_addr: pool_dma.wrapping_add(at as u64),
            vaddr: pool_vaddr + at,
            header_vaddr: pool_vaddr + at - header_len,
            payload_offset: request.output_offset + at,
            len: payload_len,
        };
        let r: Result<AvdReferenceOutput, AvdError> = Ok(output);
        proof {
            assert(output == output_of(pooled, *request, *layout, header_len as int));
            assert(output_prepared(
                before,
                self.view(),
                (calls, memory.log()),
                *request,
                *layout,
                header_len as int,
                r,
                granule,
                reply,
            ));
        }
        r
    }
}

/// An output that was prepared lies inside the output buffer, with its header
/// in front of it, and apart from what any other slot holds.
pub proof fn outputs_lie_in_their_slots(
    s: SessionView,
    request: VideoDecodeRequest,
    layout: AvdFrameLayout,
    header_len: int,
    other: int,
)
    requires
        output_refusal(layout, request.output_len) is None,
        output_in_range(request, layout),
        s.output_pool is Some,
        s.output_pool->0.vaddr == request.output_vaddr,
        0 <= header_len <= 0x4000,
        0 <= other < 4,
        other != s.next_reference_slot % 4,
    ensures
        ({
            let o = output_of(s, request, layout, header_len);
            let start = request.output_vaddr + other * slot_span(layout);
            &&& request.output_vaddr <= o.header_vaddr <= o.vaddr
            &&& o.vaddr + o.len <= request.output_vaddr + request.output_len
            &&& o.vaddr + o.len <= start || start + slot_span(layout) <= o.header_vaddr
        }),
{
    let span = slot_span(layout);
    let slot = (s.next_reference_slot % 4) as int;
    aligned_up_is_least_multiple(0x4000 + layout.output_bytes(), 0x4000);
    assert(slot * span + span <= 4 * span && 0 <= slot * span) by (nonlinear_arith)
        requires
            0 <= slot <= 3,
            span >= 0,
    ;
    assert(other < slot ==> other * span + span <= slot * span) by (nonlinear_arith)
        requires
            span >= 0,
            0 <= other,
    ;
    assert(slot < other ==> slot * span + span <= other * span) by (nonlinear_arith)
        requires
            span >= 0,
            0 <= slot,
    ;
}

/// Sessions, pending decodes and frames that wait to be fetched.
pub struct AvdBackendState<H> {
    pub sessions: Vec<AvdBackendSession<H>>,
    pub pending: Vec<AvdPendingDecode<H>>,
    pub completed: Vec<VideoDecodedFrame>,
}

/// What the backend holds.
pub struct BackendView {
    pub sessions: Seq<SessionView>,
    pub pending: Seq<PendingInfo>,
    pub completed: Seq<VideoDecodedFrame>,
}

/// The first inactive session from `from` on.
pub open spec fn first_free(sessions: Seq<SessionView>, from: int) -> Option<int>
    decreases sessions.len() - from,
{
    if from < 0 || from >= sessions.len() {
        None
    } else if !sessions[from].active {
        Some(from)
    } else {
        first_free(sessions, from + 1)
    }
}

/// The first session from `from` on with a stream identifier.
pub open spec fn session_of(sessions: Seq<SessionView>, stream_id: u32, from: int) -> Option<int>
    decreases sessions.len() - from,
{
    if from < 0 || from >= sessions.len() {
        None
    } else if sessions[from].stream_id == stream_id {
        Some(from)
    } else {
        session_of(sessions, stream_id, from + 1)
    }
}

/// A session that is found is the first of its stream.
pub proof fn session_of_is_first(sessions: Seq<SessionView>, stream_id: u32, from: int)
    requires
        0 <= from,
    ensures
        match session_of(sessions, stream_id, from) {
            Some(i) => from <= i < sessions.len() && sessions[i].stream_id == stream_id
                && forall|k: int|
                from <= k < i ==> (#[trigger] sessions[k]).stream_id != stream_id,
            None => forall|k: int|
                from <= k < sessions.len() ==> (#[trigger] sessions[k]).stream_id != stream_id,
        },
    decreases sessions.len() - from,
{
    if from < sessions.len() && sessions[from].stream_id != stream_id {
        session_of_is_first(sessions, stream_id, from + 1);
    }
}

/// The pending decodes of other streams.
pub open spec fn pending_without(pending: Seq<PendingInfo>, stream_id: u32) -> Seq<PendingInfo>
    decreases pending.len(),
{
    if pending.len() == 0 {
        Seq::empty()
    } else {
        let rest = pending_without(pending.drop_last(), stream_id);
        if pending.last().stream_id != stream_id {
            rest.push(pending.last())
        } else {
            rest
        }
    }
}

/// The completed frames of other streams.
pub open spec fn completed_without(completed: Seq<VideoDecodedFrame>, stream_id: u32) -> Seq<
    VideoDecodedFrame,
>
    decreases completed.len(),
{
    if completed.len() == 0 {
        Seq::empty()
    } else {
        let rest = completed_without(completed.drop_last(), stream_id);
        if completed.last().stream_id != stream_id {
            rest.push(completed.last())
        } else {
            rest
        }
    }
}

/// The first completed frame of a stream from `from` on.
pub open spec fn frame_of(completed: Seq<VideoDecodedFrame>, stream_id: u32, from: int) -> Option<
    int,
>
    decreases completed.len() - from,
{
    if from < 0 || from >= completed.len() {
        None
    } else if completed[from].stream_id == stream_id {
        Some(from)
    } else {
        frame_of(completed, stream_id, from + 1)
    }
}

/// A session claimed for a new stream.
pub open spec fn claimed(s: SessionView, coded_format: u32) -> SessionView {
    SessionView { active: true, coded_format, next_frame: 0, stream_parameters: None, ..s }
}

/// A session used for a submission.
pub open spec fn used(s: SessionView, coded_format: u32) -> SessionView {
    if s.active {
        s
    } else {
        SessionView { active: true, coded_format, ..s }
    }
}

impl BackendView {
    /// The state with one session replaced.
    pub open spec fn with_session(self, at: int, s: SessionView) -> BackendView {
        BackendView { sessions: self.sessions.update(at, s), ..self }
    }
}

/// A destroyed stream leaves no pending decode.
pub proof fn destroyed_stream_is_not_pending(pending: Seq<PendingInfo>, stream_id: u32)
    ensures
        forall|i: int|
            0 <= i < pending_without(pending, stream_id).len() ==> (#[trigger] pending_without(
                pending,
                stream_id,
            )[i]).stream_id != stream_id,
    decreases pending.len(),
{
    if pending.len() > 0 {
        destroyed_stream_is_not_pending(pending.drop_last(), stream_id);
        let rest = pending_without(pending.drop_last(), stream_id);
        let all = pending_without(pending, stream_id);
        assert forall|i: int| 0 <= i < all.len() implies (#[trigger] all[i]).stream_id
            != stream_id by {
            if i < rest.len() {
                assert(all[i] == rest[i]);
            }
        }
    }
}

/// A destroyed stream leaves no completed frame.
pub proof fn destroyed_stream_has_no_frames(completed: Seq<VideoDecodedFrame>, stream_id: u32)
    ensures
        forall|i: int|
            0 <= i < completed_without(completed, stream_id).len() ==> (
            #[trigger] completed_without(completed, stream_id)[i]).stream_id != stream_id,
    decreases completed.len(),
{
    if completed.len() > 0 {
        destroyed_stream_has_no_frames(completed.drop_last(), stream_id);
        let rest = completed_without(completed.drop_last(), stream_id);
        let all = completed_without(completed, stream_id);
        assert forall|i: int| 0 <= i < all.len() implies (#[trigger] all[i]).stream_id
            != stream_id by {
            if i < rest.len() {
                assert(all[i] == rest[i]);
            }
        }
    }
}

/// Frames of one stream are handed out in the order in which they completed:
/// the one that is found has no older one of its stream before it.
pub proof fn frames_come_in_order(completed: Seq<VideoDecodedFrame>, stream_id: u32, from: int)
    requires
        0 <= from,
    ensures
        match frame_of(completed, stream_id, from) {
            Some(i) => from <= i < completed.len() && completed[i].stream_id == stream_id
                && forall|k: int|
                from <= k < i ==> (#[trigger] completed[k]).stream_id != stream_id,
            None => forall|k: int|
                from <= k < completed.len() ==> (#[trigger] completed[k]).stream_id != stream_id,
        },
    decreases completed.len() - from,
{
    if from < completed.len() && completed[from].stream_id != stream_id {
        frames_come_in_order(completed, stream_id, from + 1);
    }
}

impl<H> AvdBackendState<H> {
    pub open spec fn view(&self) -> BackendView {
        BackendView {
            sessions: Seq::new(self.sessions@.len(), |i: int| self.sessions@[i].view()),
            pending: Seq::new(self.pending@.len(), |i: int| self.pending@[i].info),
            completed: self.completed@,
        }
    }

    /// What the sessions keep alive.
    pub open spec fn held(&self) -> Seq<Held<H>> {
        Seq::new(self.sessions@.len(), |i: int| self.sessions@[i].held())
    }

    /// What keeps the inputs of the pending decodes mapped.
    pub open spec fn inputs(&self) -> Seq<H> {
        Seq::new(self.pending@.len(), |i: int| self.pending@[i].input_mapping)
    }

    pub fn new() -> (r: Self)
        ensures
            r.held() == Seq::new(4, |i: int| nothing_held::<H>()),
            r.inputs() == Seq::<H>::empty(),
            r.view() == (BackendView {
                sessions: Seq::new(4, |i: int| fresh_session((i + 1) as u32)),
                pending: Seq::empty(),
                completed: Seq::empty(),
            }),
    {
        let mut sessions: Vec<AvdBackendSession<H>> = Vec::new();
        let mut index: usize = 0;
        while index < AVD_MAX_SESSIONS
            invariant
                index <= 4,
                sessions@.len() == index,
                forall|i: int|
                    0 <= i < index ==> (#[trigger] sessions@[i]).view() == fresh_session(
                        (i + 1) as u32,
                    ) && sessions@[i].held() == nothing_held::<H>(),
            decreases 4 - index,
        {
            sessions.push(AvdBackendSession::new(index));
            index = index + 1;
        }
        let r = AvdBackendState { sessions, pending: Vec::new(), completed: Vec::new() };
        assert(r.view().sessions =~= Seq::new(4, |i: int| fresh_session((i + 1) as u32)));
        assert(r.view().pending =~= Seq::empty());
        assert(r.held() =~= Seq::new(4, |i: int| nothing_held::<H>()));
        assert(r.inputs() =~= Seq::empty());
        r
    }

    fn find_session(&self, stream_id: u32) -> (r: Option<usize>)
        ensures
            match session_of(self.view().sessions, stream_id, 0) {
                Some(i) => r is Some && r->0 == i && 0 <= i < self.sessions@.len(),
                None => r is None,
            },
    {
        let mut i: usize = 0;
        while i < self.sessions.len()
            invariant
                i <= self.sessions@.len(),
                session_of(self.view().sessions, stream_id, 0) == session_of(
                    self.view().sessions,
                    stream_id,
                    i as int,
                ),
            decreases self.sessions@.len() - i,
        {
            if self.sessions[i].stream_id == stream_id {
                return Some(i);
            }
            i = i + 1;
        }
        None
    }

    /// Claims the first free session.
    pub fn allocate_session(&mut self, coded_format: u32) -> (r: Result<u32, AvdError>)
        ensures
            final(self).held() == old(self).held(),
            final(self).inputs() == old(self).inputs(),
            match first_free(old(self).view().sessions, 0) {
                Some(i) => {
                    &&& r == Ok::<u32, AvdError>(old(self).view().sessions[i].stream_id)
                    &&& final(self).view() == old(self).view().with_session(
                        i,
                        claimed(old(self).view().sessions[i], coded_format),
                    )
                },
                None => r == Err::<u32, AvdError>(AvdError::NoFreeSessions) && final(self).view()
                    == old(self).view(),
            },
    {
        let ghost before = self.view();
        let mut i: usize = 0;
        while i < self.sessions.len()
            invariant
                i <= self.sessions@.len(),
                self.view() == before,
                before == old(self).view(),
                self.held() == old(self).held(),
                self.inputs() == old(self).inputs(),
                first_free(before.sessions, 0) == first_free(before.sessions, i as int),
            decreases self.sessions@.len() - i,
        {
            if !self.sessions[i].active {
                let session = &mut self.sessions[i];
                session.active = true;
                session.coded_format = coded_format;
                session.next_frame = 0;
                session.stream_parameters = None;
                let stream_id: u32 = session.stream_id;
                proof {
                    assert(self.view().sessions =~= before.sessions.update(
                        i as int,
                        claimed(before.sessions[i as int], coded_format),
                    ));
                    assert(self.view().pending =~= before.pending);
                    assert(self.held() =~= old(self).held());
                }
                return Ok(stream_id);
            }
            i = i + 1;
        }
        Err(AvdError::NoFreeSessions)
    }

    /// Ends a stream and drops what is left of it.
    pub fn destroy_session(&mut self, stream_id: u32) -> (r: Result<(), AvdError>)
        ensures
            r is Err ==> final(self).held() == old(self).held() && final(self).inputs()
                == old(self).inputs(),
            r is Ok ==> final(self).held() == old(self).held().update(
                session_of(old(self).view().sessions, stream_id, 0)->0,
                nothing_held(),
            ) && final(self).inputs() == inputs_without(
                old(self).view().pending,
                old(self).inputs(),
                stream_id,
            ),
            ({
                let s = old(self).view();
                match session_of(s.sessions, stream_id, 0) {
                    None => r == Err::<(), AvdError>(AvdError::InvalidStream) && final(self).view()
                        == s,
                    Some(i) => if !s.sessions[i].active {
                        r == Err::<(), AvdError>(AvdError::InactiveStream) && final(self).view()
                            == s
                    } else {
                        &&& r == Ok::<(), AvdError>(())
                        &&& final(self).view() == (BackendView {
                            sessions: s.sessions.update(i, fresh_session(s.sessions[i].stream_id)),
                            pending: pending_without(s.pending, stream_id),
                            completed: completed_without(s.completed, stream_id),
                        })
                    },
                }
            }),
    {
        let ghost before = self.view();
        let at: usize = match self.find_session(stream_id) {
            Some(at) => at,
            None => {
                return Err(AvdError::InvalidStream);
            },
        };
        if !self.sessions[at].active {
            return Err(AvdError::InactiveStream);
        }
        let session = &mut self.sessions[at];
        session.reset();
        assert(self.view().sessions =~= before.sessions.update(
            at as int,
            fresh_session(before.sessions[at as int].stream_id),
        ));
        assert(self.held() =~= old(self).held().update(at as int, nothing_held()));
        assert(self.view().pending =~= before.pending);
        self.drop_pending(stream_id);
        self.drop_completed(stream_id);
        Ok(())
    }

    fn drop_pending(&mut self, stream_id: u32)
        ensures
            final(self).held() == old(self).held(),
            final(self).inputs() == inputs_without(
                old(self).view().pending,
                old(self).inputs(),
                stream_id,
            ),
            final(self).view() == (BackendView {
                pending: pending_without(old(self).view().pending, stream_id),
                ..old(self).view()
            }),
    {
        let ghost before = self.view();
        let ghost inputs = self.inputs();
        let mut kept: Vec<AvdPendingDecode<H>> = Vec::new();
        let ghost mut done: int = 0;
        while self.pending.len() > 0
            invariant
                0 <= done <= before.pending.len(),
                self.pending@.len() == before.pending.len() - done,
                forall|k: int|
                    0 <= k < self.pending@.len() ==> (#[trigger] self.pending@[k]).info
                        == before.pending[done + k] && self.pending@[k].input_mapping
                        == inputs[done + k],
                inputs.len() == before.pending.len(),
                Seq::new(kept@.len(), |i: int| kept@[i].input_mapping) == inputs_without(
                    before.pending.take(done),
                    inputs.take(done),
                    stream_id,
                ),
                self.held() == old(self).held(),
                Seq::new(kept@.len(), |i: int| kept@[i].info) == pending_without(
                    before.pending.take(done),
                    stream_id,
                ),
                self.view().sessions == before.sessions,
                self.completed@ == before.completed,
            decreases self.pending@.len(),
        {
            let ghost rest = self.pending@;
            let ghost kept_before = kept@;
            let item = self.pending.remove(0);
            assert(item.info == before.pending[done]);
            assert(before.pending.take(done + 1).drop_last() =~= before.pending.take(done));
            assert(inputs.take(done + 1).drop_last() =~= inputs.take(done));
            if item.info.stream_id != stream_id {
                kept.push(item);
                assert(Seq::new(kept@.len(), |i: int| kept@[i].info) =~= Seq::new(
                    kept_before.len(),
                    |i: int| kept_before[i].info,
                ).push(before.pending[done]));
                assert(Seq::new(kept@.len(), |i: int| kept@[i].input_mapping) =~= Seq::new(
                    kept_before.len(),
                    |i: int| kept_before[i].input_mapping,
                ).push(inputs[done]));
            }
            proof {
                assert forall|k: int| 0 <= k < self.pending@.len() implies (
                #[trigger] self.pending@[k]).info == before.pending[done + 1 + k]
                    && self.pending@[k].input_mapping == inputs[done + 1 + k] by {
                    assert(self.pending@[k] == rest[k + 1]);
                }
                done = done + 1;
            }
        }
        assert(before.pending.take(done) =~= before.pending);
        assert(inputs.take(done) =~= inputs);
        self.pending = kept;
        assert(self.inputs() =~= inputs_without(before.pending, inputs, stream_id));
        assert(self.view().pending =~= pending_without(before.pending, stream_id));
    }

    fn drop_completed(&mut self, stream_id: u32)
        ensures
            final(self).held() == old(self).held(),
            final(self).inputs() == old(self).inputs(),
            final(self).view() == (BackendView {
                completed: completed_without(old(self).view().completed, stream_id),
                ..old(self).view()
            }),
    {
        let ghost before = self.view();
        let mut kept: Vec<VideoDecodedFrame> = Vec::new();
        let mut i: usize = 0;
        while i < self.completed.len()
            invariant
                i <= self.completed@.len(),
                self.view() == before,
                self.held() == old(self).held(),
                self.inputs() == old(self).inputs(),
                kept@ == completed_without(before.completed.take(i as int), stream_id),
            decreases self.completed@.len() - i,
        {
            let frame = self.completed[i];
            assert(before.completed.take(i + 1).drop_last() =~= before.completed.take(i as int));
            if frame.stream_id != stream_id {
                kept.push(frame);
            }
            i = i + 1;
        }
        assert(before.completed.take(i as int) =~= before.completed);
        self.completed = kept;
        assert(self.view().sessions =~= before.sessions);
        assert(self.view().pending =~= before.pending);
    }

    pub fn has_pending_for_stream(&self, stream_id: u32) -> (r: bool)
        ensures
            r == exists|i: int|
                0 <= i < self.view().pending.len() && (
                #[trigger] self.view().pending[i]).stream_id == stream_id,
    {
        let mut i: usize = 0;
        while i < self.pending.len()
            invariant
                i <= self.pending@.len(),
                forall|k: int|
                    0 <= k < i ==> (#[trigger] self.view().pending[k]).stream_id != stream_id,
            decreases self.pending@.len() - i,
        {
            if self.pending[i].info.stream_id == stream_id {
                assert(self.view().pending[i as int].stream_id == stream_id);
                return true;
            }
            i = i + 1;
        }
        false
    }

    /// Finds the session of a submission and claims it where it is free.
    pub fn session_for_submit(&mut self, stream_id: u32, coded_format: u32) -> (r: Result<
        usize,
        AvdError,
    >)
        ensures
            final(self).held() == old(self).held(),
            final(self).inputs() == old(self).inputs(),
            session_claimed(old(self).view(), final(self).view(), stream_id, coded_format, r),
            r is Ok ==> r->Ok_0 < final(self).sessions@.len(),
    {
        let ghost before = self.view();
        let at: usize = match self.find_session(stream_id) {
            Some(at) => at,
            None => {
                return Err(AvdError::InvalidStream);
            },
        };
        if !self.sessions[at].active {
            let session = &mut self.sessions[at];
            session.active = true;
            session.coded_format = coded_format;
        }
        proof {
            assert(self.view().sessions =~= before.sessions.update(
                at as int,
                used(before.sessions[at as int], coded_format),
            ));
            assert(self.view().pending =~= before.pending);
            assert(self.held() =~= old(self).held());
            assert(self.inputs() =~= old(self).inputs());
        }
        if self.sessions[at].coded_format != coded_format {
            return Err(AvdError::FormatMismatch);
        }
        Ok(at)
    }
}

/// What finding the session of a submission does.
pub open spec fn session_claimed(
    before: BackendView,
    after: BackendView,
    stream_id: u32,
    coded_format: u32,
    r: Result<usize, AvdError>,
) -> bool {
    match session_of(before.sessions, stream_id, 0) {
        None => r == Err::<usize, AvdError>(AvdError::InvalidStream) && after == before,
        Some(i) => {
            let s = used(before.sessions[i], coded_format);
            &&& after == before.with_session(i, s)
            &&& if s.coded_format != coded_format {
                r == Err::<usize, AvdError>(AvdError::FormatMismatch)
            } else {
                r is Ok && r->Ok_0 == i
            }
        },
    }
}

/// The bytes of a frame header.
pub open spec fn frame_header(abi: VideoAbi, layout: AvdFrameLayout, payload_len: u32) -> Seq<u8> {
    abi.frame_magic@ + le32(layout.width) + le32(layout.height) + le32(abi.pixel_format_nv12)
        + le32(payload_len)
}

/// The accesses of a completion: the payload is made visible, the header is
/// written in front of it and written back.
pub open spec fn finish_ops(abi: VideoAbi, info: PendingInfo) -> Seq<Op> {
    seq![
        Op::Invalidate { addr: info.output_payload_vaddr, len: info.output_payload_len },
        Op::WriteBytes {
            addr: info.output_header_vaddr,
            bytes: frame_header(abi, info.layout, info.payload_len as u32),
        },
        Op::Clean { addr: info.output_header_vaddr, len: abi.frame_header_len },
    ]
}

/// The frame that a completion hands out.
pub open spec fn frame_from(abi: VideoAbi, info: PendingInfo) -> VideoDecodedFrame {
    VideoDecodedFrame {
        stream_id: info.stream_id,
        width: info.layout.width,
        height: info.layout.height,
        pixel_format: abi.pixel_format_nv12,
        payload_offset: info.output_payload_offset as u64,
        payload_len: info.payload_len as u32,
        flags: info.command_tag,
        timestamp: info.timestamp,
    }
}

/// The state behind a completion of a stream that has a session.
pub open spec fn finished(s: BackendView, abi: VideoAbi, info: PendingInfo, at: int) -> BackendView {
    BackendView {
        sessions: s.sessions.update(
            at,
            SessionView {
                reference_frames: references_after(s.sessions[at].reference_frames, info),
                ..s.sessions[at]
            },
        ),
        completed: s.completed.push(frame_from(abi, info)),
        ..s
    }
}

/// Writes the header of a frame in front of its payload.
pub fn write_frame_header<M: Mmio>(
    bus: &mut Bus<M>,
    abi: &VideoAbi,
    output_vaddr: usize,
    layout: &AvdFrameLayout,
    payload_len: u32,
)
    requires
        output_vaddr + 20 <= usize::MAX,
    ensures
        final(bus).ops() == old(bus).ops().push(
            Op::WriteBytes { addr: output_vaddr, bytes: frame_header(*abi, *layout, payload_len) },
        ),
{
    let mut header: Vec<u8> = Vec::new();
    header.push(abi.frame_magic[0]);
    header.push(abi.frame_magic[1]);
    header.push(abi.frame_magic[2]);
    header.push(abi.frame_magic[3]);
    assert(header@ =~= abi.frame_magic@);
    push_le32(&mut header, layout.width);
    push_le32(&mut header, layout.height);
    push_le32(&mut header, abi.pixel_format_nv12);
    push_le32(&mut header, payload_len);
    assert(header@ == frame_header(*abi, *layout, payload_len));
    bus.write_bytes(output_vaddr, header.as_slice());
}

impl<H> AvdBackendState<H> {
    /// Completes a decode: header, references, and the frame to be fetched.
    pub fn finish_pending_decode<M: Mmio>(
        &mut self,
        bus: &mut Bus<M>,
        abi: &VideoAbi,
        info: &PendingInfo,
    ) -> (r: Result<(), AvdError>)
        requires
            info.output_header_vaddr + 20 <= usize::MAX,
        ensures
            final(self).held() == old(self).held(),
            final(self).inputs() == old(self).inputs(),
            final(bus).ops() == old(bus).ops() + finish_ops(*abi, *info),
            match session_of(old(self).view().sessions, info.stream_id, 0) {
                None => r == Err::<(), AvdError>(AvdError::InvalidStream) && final(self).view()
                    == old(self).view(),
                Some(at) => r == Ok::<(), AvdError>(()) && final(self).view() == finished(
                    old(self).view(),
                    *abi,
                    *info,
                    at,
                ),
            },
    {
        let ghost before = self.view();
        let ghost start = bus.ops();
        bus.invalidate_cache(info.output_payload_vaddr, info.output_payload_len);
        write_frame_header(
            bus,
            abi,
            info.output_header_vaddr,
            &info.layout,
            info.payload_len as u32,
        );
        bus.clean_cache(info.output_header_vaddr, abi.frame_header_len);
        assert(bus.ops() =~= start + finish_ops(*abi, *info));
        let at: usize = match self.find_session(info.stream_id) {
            Some(at) => at,
            None => {
                return Err(AvdError::InvalidStream);
            },
        };
        let session = &mut self.sessions[at];
        session.remember(info);
        self.completed.push(
            VideoDecodedFrame {
                stream_id: info.stream_id,
                width: info.layout.width,
                height: info.layout.height,
                pixel_format: abi.pixel_format_nv12,
                payload_offset: info.output_payload_offset as u64,
                payload_len: info.payload_len as u32,
                flags: info.command_tag,
                timestamp: info.timestamp,
            },
        );
        proof {
            assert(self.view().sessions =~= finished(before, *abi, *info, at as int).sessions);
            assert(self.held() =~= old(self).held());
            assert(self.inputs() =~= old(self).inputs());
            assert(self.view().pending =~= before.pending);
        }
        Ok(())
    }

    /// Hands out the oldest completed frame of a stream.
    pub fn take_frame(&mut self, stream_id: u32) -> (r: Option<VideoDecodedFrame>)
        ensures
            final(self).held() == old(self).held(),
            final(self).inputs() == old(self).inputs(),
            match frame_of(old(self).view().completed, stream_id, 0) {
                None => r is None && final(self).view() == old(self).view(),
                Some(i) => r == Some(old(self).view().completed[i]) && final(self).view() == (
                BackendView { completed: old(self).view().completed.remove(i), ..old(self).view() }),
            },
    {
        let ghost before = self.view();
        let mut i: usize = 0;
        while i < self.completed.len()
            invariant
                i <= self.completed@.len(),
                self.view() == before,
                before == old(self).view(),
                self.held() == old(self).held(),
                self.inputs() == old(self).inputs(),
                frame_of(before.completed, stream_id, 0) == frame_of(
                    before.completed,
                    stream_id,
                    i as int,
                ),
            decreases self.completed@.len() - i,
        {
            if self.completed[i].stream_id == stream_id {
                let frame = self.completed.remove(i);
                proof {
                    assert(self.view().sessions =~= before.sessions);
                    assert(self.view().pending =~= before.pending);
                }
                return Some(frame);
            }
            i = i + 1;
        }
        None
    }
}

} // verus!
