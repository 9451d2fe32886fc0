//! Bringing the internal panel up: from the device description to the first
//! picture.

use crate::bus::{Bus, Mmio, Op};
use crate::dart::{get_dart_by_phandle, translate_ops, DartInstance, DartPageTable};
use crate::dcp::{
    allocation_of, best_timing, commanded, config_of, frame_delay_us, framebuffer_config,
    handoff_mapped, is_timing_choice, last_mark, layer_bytes, layer_of, make_layer,
    map_handoff_regions, map_region, mark_before, mode_selected_with, panel_awaited, plan_scanout,
    reachable, region_mapped, surface_size, usable_timing, AppleDcpGraphics, DcpColorMode, DcpError,
    DcpIboot, DcpTimingMode, HandoffRegion, Offer, PanelStatus, Scanout,
    ScanoutPlan,
};
use crate::arith::{ceil_div, ceil_div_counts};
use crate::platform::{cell_of, first_cell, FrameSource};
use crate::registry::{first_with_phandle, Registry};
use crate::ports::display::{BufferCall, BufferPort, BufferSource, IbootCall, IbootTransport};
use vstd::prelude::*;

verus! {

/// Why the panel was not brought up.
#[derive(Clone, Copy, Debug)]
pub enum DcpProbeError {
    MissingPhandle,
    MissingIommu,
    MissingDisplayIommu,
    /// Try again later: the unit of the coprocessor is not there yet.
    DcpDartNotReady,
    /// Try again later: the unit of the display is not there yet.
    DisplayDartNotReady,
    NoDcpTable,
    NoDisplayTable,
    MissingMailbox,
    /// Try again later: the mailbox is not there yet.
    MailboxNotReady,
    NoService,
    RenderAllocation,
    FirstScanoutAllocation,
    SecondScanoutAllocation,
    /// A buffer reaches beyond the address space.
    BufferOutOfReach,
    /// The display itself reported this.
    Display(DcpError),
}

impl DcpProbeError {
    /// Whether probing is to be repeated later.
    pub fn is_deferred(self) -> (r: bool)
        ensures
            r == (self is DcpDartNotReady || self is DisplayDartNotReady || self is MailboxNotReady),
    {
        matches!(
            self,
            DcpProbeError::DcpDartNotReady
                | DcpProbeError::DisplayDartNotReady
                | DcpProbeError::MailboxNotReady
        )
    }

    /// The message as contracts speak of it.
    pub open spec fn text(self) -> Seq<char> {
        match self {
            DcpProbeError::MissingPhandle => "apple-dcp: missing phandle"@,
            DcpProbeError::MissingIommu => "apple-dcp: missing DCP IOMMU"@,
            DcpProbeError::MissingDisplayIommu => "apple-dcp: display-subsystem IOMMU missing"@,
            DcpProbeError::DcpDartNotReady => "DCP DART is not ready"@,
            DcpProbeError::DisplayDartNotReady => "display DART is not ready"@,
            DcpProbeError::NoDcpTable => "apple-dcp: DCP DART has no valid TTBR"@,
            DcpProbeError::NoDisplayTable => "apple-dcp: display DART has no valid TTBR"@,
            DcpProbeError::MissingMailbox => "apple-dcp: missing ASC mailbox"@,
            DcpProbeError::MailboxNotReady => "ASC mailbox is not ready"@,
            DcpProbeError::NoService => "apple-dcp: disp0-service not announced"@,
            DcpProbeError::RenderAllocation => "apple-dcp: render allocation failed"@,
            DcpProbeError::FirstScanoutAllocation => "apple-dcp: scanout 0 allocation failed"@,
            DcpProbeError::SecondScanoutAllocation => "apple-dcp: scanout 1 allocation failed"@,
            DcpProbeError::BufferOutOfReach => "apple-dcp: scanout buffer out of reach"@,
            DcpProbeError::Display(error) => error.text(),
        }
    }

    /// The message for the kernel log.
    pub fn message(self) -> (r: &'static str)
        ensures
            r@ == self.text(),
    {
        match self {
            DcpProbeError::MissingPhandle => "apple-dcp: missing phandle",
            DcpProbeError::MissingIommu => "apple-dcp: missing DCP IOMMU",
            DcpProbeError::MissingDisplayIommu => "apple-dcp: display-subsystem IOMMU missing",
            DcpProbeError::DcpDartNotReady => "DCP DART is not ready",
            DcpProbeError::DisplayDartNotReady => "display DART is not ready",
            DcpProbeError::NoDcpTable => "apple-dcp: DCP DART has no valid TTBR",
            DcpProbeError::NoDisplayTable => "apple-dcp: display DART has no valid TTBR",
            DcpProbeError::MissingMailbox => "apple-dcp: missing ASC mailbox",
            DcpProbeError::MailboxNotReady => "ASC mailbox is not ready",
            DcpProbeError::NoService => "apple-dcp: disp0-service not announced",
            DcpProbeError::RenderAllocation => "apple-dcp: render allocation failed",
            DcpProbeError::FirstScanoutAllocation => "apple-dcp: scanout 0 allocation failed",
            DcpProbeError::SecondScanoutAllocation => "apple-dcp: scanout 1 allocation failed",
            DcpProbeError::BufferOutOfReach => "apple-dcp: scanout buffer out of reach",
            DcpProbeError::Display(error) => error.message(),
        }
    }
}

/// What the device description says of a display coprocessor.
#[derive(Clone, Copy, Debug, PartialEq, Eq, Structural)]
pub struct DcpPlaces {
    pub dcp_phandle: u32,
    pub dcp_dart: u32,
    pub dcp_stream: usize,
    pub display_phandle: u32,
    pub display_dart: u32,
    pub display_stream: usize,
}

/// The units and streams of a coprocessor with the given phandle, IOMMU
/// specifier and display (IOMMU, stream, phandle). The first of them that is
/// missing is reported.
pub fn dcp_places(
    phandle: Option<u32>,
    iommu: Option<(u32, usize)>,
    display: Option<(u32, usize, u32)>,
) -> (r: Result<DcpPlaces, DcpProbeError>)
    ensures
        phandle is None ==> r is Err && r->Err_0 is MissingPhandle,
        phandle is Some && iommu is None ==> r is Err && r->Err_0 is MissingIommu,
        phandle is Some && iommu is Some && display is None ==> r is Err
            && r->Err_0 is MissingDisplayIommu,
        phandle is Some && iommu is Some && display is Some ==> r is Ok && r->Ok_0 == (DcpPlaces {
            dcp_phandle: phandle->0,
            dcp_dart: (iommu->0).0,
            dcp_stream: (iommu->0).1,
            display_phandle: (display->0).2,
            display_dart: (display->0).0,
            display_stream: (display->0).1,
        }),
{
    let dcp_phandle: u32 = match phandle {
        Some(phandle) => phandle,
        None => return Err(DcpProbeError::MissingPhandle),
    };
    let (dcp_dart, dcp_stream): (u32, usize) = match iommu {
        Some(spec) => spec,
        None => return Err(DcpProbeError::MissingIommu),
    };
    let (display_dart, display_stream, display_phandle): (u32, usize, u32) = match display {
        Some(spec) => spec,
        None => return Err(DcpProbeError::MissingDisplayIommu),
    };
    Ok(
        DcpPlaces {
            dcp_phandle,
            dcp_dart,
            dcp_stream,
            display_phandle,
            display_dart,
            display_stream,
        },
    )
}

/// The two units, where both are there.
pub fn dcp_darts(darts: &Registry<DartInstance>, places: &DcpPlaces) -> (r: Result<
    (DartInstance, DartInstance),
    DcpProbeError,
>)
    ensures
        match (
            first_with_phandle(darts@, places.dcp_dart, 0),
            first_with_phandle(darts@, places.display_dart, 0),
        ) {
            (None, _) => r is Err && r->Err_0 is DcpDartNotReady,
            (Some(_), None) => r is Err && r->Err_0 is DisplayDartNotReady,
            (Some(i), Some(j)) => r is Ok && r->Ok_0 == (darts@[i].1, darts@[j].1),
        },
{
    let dcp: DartInstance = match get_dart_by_phandle(darts, places.dcp_dart) {
        Some(dart) => *dart,
        None => return Err(DcpProbeError::DcpDartNotReady),
    };
    let display: DartInstance = match get_dart_by_phandle(darts, places.display_dart) {
        Some(dart) => *dart,
        None => return Err(DcpProbeError::DisplayDartNotReady),
    };
    Ok((dcp, display))
}

/// The page tables that firmware has left behind, where both units have one.
pub fn left_tables(dcp: Option<u64>, display: Option<u64>) -> (r: Result<(u64, u64), DcpProbeError>)
    ensures
        dcp is None ==> r is Err && r->Err_0 is NoDcpTable,
        dcp is Some && display is None ==> r is Err && r->Err_0 is NoDisplayTable,
        dcp is Some && display is Some ==> r is Ok && r->Ok_0 == (dcp->0, display->0),
{
    let dcp_root: u64 = match dcp {
        Some(root) => root,
        None => return Err(DcpProbeError::NoDcpTable),
    };
    match display {
        Some(root) => Ok((dcp_root, root)),
        None => Err(DcpProbeError::NoDisplayTable),
    }
}

/// The phandle of the mailbox: the first cell of `mboxes`, otherwise of
/// `mailboxes`.
pub fn mailbox_phandle(mboxes: Option<&[u8]>, mailboxes: Option<&[u8]>) -> (r: Result<
    u32,
    DcpProbeError,
>)
    ensures
        match (cell_of(mboxes), cell_of(mailboxes)) {
            (Some(phandle), _) => r is Ok && r->Ok_0 == phandle,
            (None, Some(phandle)) => r is Ok && r->Ok_0 == phandle,
            (None, None) => r is Err && r->Err_0 is MissingMailbox,
        },
{
    match first_cell(mboxes) {
        Some(phandle) => Ok(phandle),
        None => match first_cell(mailboxes) {
            Some(phandle) => Ok(phandle),
            None => Err(DcpProbeError::MissingMailbox),
        },
    }
}

/// The channel of the display service: that of the service named `disp0`,
/// otherwise that of the first service.
pub fn service_channel(named: Option<u32>, first: Option<u32>) -> (r: Result<u32, DcpProbeError>)
    ensures
        match (named, first) {
            (Some(channel), _) => r is Ok && r->Ok_0 == channel,
            (None, Some(channel)) => r is Ok && r->Ok_0 == channel,
            (None, None) => r is Err && r->Err_0 is NoService,
        },
{
    match named {
        Some(channel) => Ok(channel),
        None => match first {
            Some(channel) => Ok(channel),
            None => Err(DcpProbeError::NoService),
        },
    }
}

/// One unit with the page table that firmware has left behind, for one stream.
pub struct Translation {
    pub dart: DartInstance,
    pub stream: usize,
    pub table: DartPageTable,
    /// Levels of the table.
    pub levels: u32,
}

impl Translation {
    /// The registers of the stream and the root table can be reached.
    pub open spec fn wf(&self) -> bool {
        &&& self.table.wf()
        &&& self.dart.base_addr + 0x200 + 4 * self.stream <= usize::MAX
    }

    /// The writes that turn translation on.
    pub open spec fn on_ops(&self) -> Seq<Op> {
        translate_ops(
            self.dart.base_addr,
            self.stream as int,
            self.table.root_paddr,
            self.levels,
        )
    }

    /// Turn translation on.
    pub fn enable<M: Mmio>(&self, bus: &mut Bus<M>)
        requires
            self.wf(),
        ensures
            final(bus).ops() == old(bus).ops() + self.on_ops(),
    {
        self.dart.enable_translation(
            bus,
            self.stream,
            self.table.root_paddr,
            self.levels,
        );
    }
}

/// How far taking the page tables over went.
pub struct Takeover {
    pub dcp_marks: Seq<Seq<Op>>,
    pub dcp: Result<usize, DcpError>,
    pub after_dcp: Seq<Op>,
    pub display_marks: Seq<Seq<Op>>,
    pub display: Result<usize, DcpError>,
    pub after_display: Seq<Op>,
}

/// The page tables were taken over: the ranges of the coprocessor were mapped,
/// then those of the display, then both streams were turned on. Without a
/// range for the coprocessor nothing is turned on.
pub open spec fn taken_over(
    dcp: &Translation,
    display: &Translation,
    before: Seq<Op>,
    after: Seq<Op>,
    dcp_regions: Seq<HandoffRegion>,
    display_regions: Seq<HandoffRegion>,
    r: Result<(usize, usize), DcpError>,
    w: Takeover,
) -> bool {
    &&& handoff_mapped(
        dcp.table.root_vaddr,
        before,
        w.after_dcp,
        dcp_regions,
        w.dcp,
        w.dcp_marks,
    )
    &&& match w.dcp {
        Err(e) => r is Err && r->Err_0 == e && after == w.after_dcp,
        Ok(mapped) => {
            &&& handoff_mapped(
                display.table.root_vaddr,
                w.after_dcp,
                w.after_display,
                display_regions,
                w.display,
                w.display_marks,
            )
            &&& match w.display {
                Err(e) => r is Err && r->Err_0 == e && after == w.after_display,
                Ok(shown) => if mapped == 0 {
                    r is Err && r->Err_0 is NoHandoff && after == w.after_display
                } else {
                    &&& r is Ok && r->Ok_0 == (mapped, shown)
                    &&& after == w.after_display + dcp.on_ops() + display.on_ops()
                },
            }
        },
    }
}

/// Take over the page tables that firmware has left behind. Returns the
/// numbers of ranges that were mapped.
pub fn take_over<M: Mmio, F: FrameSource>(
    bus: &mut Bus<M>,
    frames: &mut F,
    dcp: &mut Translation,
    display: &mut Translation,
    dcp_regions: &Vec<HandoffRegion>,
    display_regions: &Vec<HandoffRegion>,
) -> (r: Result<(usize, usize), DcpError>)
    requires
        old(dcp).wf(),
        old(display).wf(),
    ensures
        *final(dcp) == *old(dcp),
        *final(display) == *old(display),
        exists|w: Takeover| #[trigger]
            taken_over(
                old(dcp),
                old(display),
                old(bus).ops(),
                final(bus).ops(),
                dcp_regions@,
                display_regions@,
                r,
                w,
            ),
{
    let ghost before = bus.ops();
    let dcp_count = map_handoff_regions(bus, frames, &mut dcp.table, dcp_regions);
    let ghost mut w = Takeover {
        dcp_marks: choose|marks: Seq<Seq<Op>>| #[trigger]
            handoff_mapped(
                dcp.table.root_vaddr,
                before,
                bus.ops(),
                dcp_regions@,
                dcp_count,
                marks,
            ),
        dcp: dcp_count,
        after_dcp: bus.ops(),
        display_marks: Seq::empty(),
        display: Ok(0),
        after_display: bus.ops(),
    };
    let mapped: usize = match dcp_count {
        Ok(mapped) => mapped,
        Err(e) => {
            let r = Err(e);
            assert(taken_over(
                dcp,
                display,
                before,
                bus.ops(),
                dcp_regions@,
                display_regions@,
                r,
                w,
            ));
            return r;
        },
    };
    let display_count = map_handoff_regions(bus, frames, &mut display.table, display_regions);
    proof {
        w = Takeover {
            display_marks: choose|marks: Seq<Seq<Op>>| #[trigger]
                handoff_mapped(
                    display.table.root_vaddr,
                    w.after_dcp,
                    bus.ops(),
                    display_regions@,
                    display_count,
                    marks,
                ),
            display: display_count,
            after_display: bus.ops(),
            ..w
        };
    }
    let shown: usize = match display_count {
        Ok(shown) => shown,
        Err(e) => {
            let r = Err(e);
            assert(taken_over(
                dcp,
                display,
                before,
                bus.ops(),
                dcp_regions@,
                display_regions@,
                r,
                w,
            ));
            return r;
        },
    };
    if mapped == 0 {
        let r = Err(DcpError::NoHandoff);
        assert(taken_over(
            dcp,
            display,
            before,
            bus.ops(),
            dcp_regions@,
            display_regions@,
            r,
            w,
        ));
        return r;
    }
    dcp.enable(bus);
    display.enable(bus);
    let r = Ok((mapped, shown));
    assert(taken_over(dcp, display, before, bus.ops(), dcp_regions@, display_regions@, r, w));
    r
}

/// How far starting the panel went.
pub struct PanelStart {
    pub power: Result<(), DcpError>,
    pub powered: Seq<IbootCall>,
    pub marks: Seq<Seq<IbootCall>>,
    pub statuses: Seq<Result<PanelStatus, DcpError>>,
    pub awaited: Result<(), DcpError>,
    pub ready: Seq<IbootCall>,
    pub offer: Offer,
}

/// The panel was started: switched on, waited for, and its mode selected, up to
/// the first failure.
pub open spec fn panel_started(
    before: Seq<IbootCall>,
    after: Seq<IbootCall>,
    ops_before: Seq<Op>,
    ops_after: Seq<Op>,
    channel: u32,
    r: Result<(DcpTimingMode, DcpColorMode), DcpError>,
    w: PanelStart,
) -> bool {
    &&& commanded(before, w.powered, ops_before.len(), channel, 2, seq![1u8], w.power)
    &&& match w.power {
        Err(e) => r is Err && r->Err_0 == e && after == w.powered && ops_after == ops_before,
        Ok(_) => {
            &&& panel_awaited(
                w.powered,
                w.ready,
                ops_before,
                ops_after,
                channel,
                w.awaited,
                w.marks,
                w.statuses,
            )
            &&& match w.awaited {
                Err(e) => r is Err && r->Err_0 == e && after == w.ready,
                Ok(_) => mode_selected_with(
                    w.ready,
                    after,
                    ops_after.len(),
                    channel,
                    r,
                    w.offer,
                ),
            }
        },
    }
}

/// Switch the panel on, wait for it and select its mode.
pub fn start_panel<M: Mmio, T: IbootTransport>(
    bus: &mut Bus<M>,
    iboot: &mut DcpIboot<T>,
) -> (r: Result<(DcpTimingMode, DcpColorMode), DcpError>)
    ensures
        final(iboot).same_service(old(iboot)),
        exists|w: PanelStart| #[trigger]
            panel_started(
                old(iboot).calls(),
                final(iboot).calls(),
                old(bus).ops(),
                final(bus).ops(),
                old(iboot).channel,
                r,
                w,
            ),
{
    let ghost before = iboot.calls();
    let ghost ops = bus.ops();
    let power = iboot.set_power(bus, true);
    let ghost mut w = PanelStart {
        power,
        powered: iboot.calls(),
        marks: Seq::empty(),
        statuses: Seq::empty(),
        awaited: Ok(()),
        ready: iboot.calls(),
        offer: arbitrary(),
    };
    match power {
        Ok(_) => {},
        Err(e) => {
            let r = Err(e);
            assert(panel_started(before, iboot.calls(), ops, bus.ops(), iboot.channel, r, w));
            return r;
        },
    }
    let awaited = iboot.wait_for_panel(bus);
    proof {
        let (marks, statuses) = choose|
            marks: Seq<Seq<IbootCall>>,
            statuses: Seq<Result<PanelStatus, DcpError>>,
        |
            #[trigger] panel_awaited(
                w.powered,
                iboot.calls(),
                ops,
                bus.ops(),
                iboot.channel,
                awaited,
                marks,
                statuses,
            );
        w = PanelStart { marks, statuses, awaited, ready: iboot.calls(), ..w };
    }
    match awaited {
        Ok(_) => {},
        Err(e) => {
            let r = Err(e);
            assert(panel_started(before, iboot.calls(), ops, bus.ops(), iboot.channel, r, w));
            return r;
        },
    }
    let r = iboot.select_mode(bus);
    proof {
        let offer = choose|o: Offer| #[trigger]
            mode_selected_with(w.ready, iboot.calls(), bus.ops().len(), iboot.channel, r, o);
        w = PanelStart { offer, ..w };
        assert(panel_started(before, iboot.calls(), ops, bus.ops(), iboot.channel, r, w));
    }
    r
}

/// The three buffers of a display: where each is mapped and its physical
/// address.
#[derive(Clone, Copy, Debug)]
pub struct Buffers {
    pub render: (usize, u64),
    pub first: (usize, u64),
    pub second: (usize, u64),
}

/// The request for a buffer.
pub open spec fn buffer_call(pages: u64, align: u64, answer: Option<(usize, u64)>) -> BufferCall {
    BufferCall { pages, align, answer }
}

/// A buffer of `size` bytes at `virt` lies in the address space.
pub open spec fn in_reach(virt: usize, size: u64) -> bool {
    virt + size <= usize::MAX
}

/// A buffer is filled with zeros.
pub open spec fn cleared(virt: usize, size: u64) -> Op {
    Op::WriteBytes { addr: virt, bytes: Seq::new(size as nat, |i: int| 0u8) }
}

/// The accesses that clear the buffers and write the scanout buffers back.
pub open spec fn clear_ops(b: Buffers, visible: u64, size: u64) -> Seq<Op> {
    seq![
        cleared(b.render.0, visible),
        cleared(b.first.0, size),
        cleared(b.second.0, size),
        Op::Clean { addr: b.first.0, len: size as usize },
        Op::Clean { addr: b.second.0, len: size as usize },
    ]
}

/// The buffers were allocated in turn, up to the first that could not be had,
/// and cleared.
pub open spec fn buffers_made(
    plan: ScanoutPlan,
    visible: u64,
    page_size: u64,
    asked: (Seq<BufferCall>, Seq<BufferCall>),
    ops: (Seq<Op>, Seq<Op>),
    r: Result<Buffers, DcpProbeError>,
    answers: (Option<(usize, u64)>, Option<(usize, u64)>, Option<(usize, u64)>),
) -> bool {
    let one = asked.0.push(buffer_call(plan.render_pages, 4096, answers.0));
    let two = one.push(buffer_call(plan.scanout_pages, page_size, answers.1));
    let three = two.push(buffer_call(plan.scanout_pages, page_size, answers.2));
    match answers {
        (None, _, _) => {
            asked.1 == one && ops.1 == ops.0 && r is Err && r->Err_0 is RenderAllocation
        },
        (Some(_), None, _) => {
            asked.1 == two && ops.1 == ops.0 && r is Err && r->Err_0 is FirstScanoutAllocation
        },
        (Some(_), Some(_), None) => {
            asked.1 == three && ops.1 == ops.0 && r is Err && r->Err_0 is SecondScanoutAllocation
        },
        (Some(render), Some(first), Some(second)) => {
            &&& asked.1 == three
            &&& if in_reach(render.0, visible) && in_reach(first.0, plan.allocation_size)
                && in_reach(second.0, plan.allocation_size) {
                &&& r is Ok && r->Ok_0 == (Buffers { render, first, second })
                &&& ops.1 == ops.0 + clear_ops(
                    (Buffers { render, first, second }),
                    visible,
                    plan.allocation_size,
                )
            } else {
                ops.1 == ops.0 && r is Err && r->Err_0 is BufferOutOfReach
            }
        },
    }
}

fn reaches(virt: usize, size: u64) -> (r: bool)
    ensures
        r == in_reach(virt, size),
{
    size <= (usize::MAX - virt) as u64
}

/// Allocate and clear the buffers of a display.
pub fn make_buffers<M: Mmio, S: BufferSource>(
    bus: &mut Bus<M>,
    port: &mut BufferPort<S>,
    plan: &ScanoutPlan,
    visible: u64,
    page_size: u64,
) -> (r: Result<Buffers, DcpProbeError>)
    ensures
        exists|
            answers: (Option<(usize, u64)>, Option<(usize, u64)>, Option<(usize, u64)>),
        |
            #[trigger] buffers_made(
                *plan,
                visible,
                page_size,
                (old(port).log(), final(port).log()),
                (old(bus).ops(), final(bus).ops()),
                r,
                answers,
            ),
{
    let ghost start = port.log();
    let ghost ops = bus.ops();
    let first_answer = port.contiguous(plan.render_pages, 4096);
    let ghost mut answers: (
        Option<(usize, u64)>,
        Option<(usize, u64)>,
        Option<(usize, u64)>,
    ) = (first_answer, None, None);
    let render: (usize, u64) = match first_answer {
        Some(buffer) => buffer,
        None => {
            let r = Err(DcpProbeError::RenderAllocation);
            assert(buffers_made(
                *plan,
                visible,
                page_size,
                (start, port.log()),
                (ops, bus.ops()),
                r,
                answers,
            ));
            return r;
        },
    };
    let second_answer = port.contiguous(plan.scanout_pages, page_size);
    proof {
        answers = (first_answer, second_answer, None);
    }
    let first: (usize, u64) = match second_answer {
        Some(buffer) => buffer,
        None => {
            let r = Err(DcpProbeError::FirstScanoutAllocation);
            assert(buffers_made(
                *plan,
                visible,
                page_size,
                (start, port.log()),
                (ops, bus.ops()),
                r,
                answers,
            ));
            return r;
        },
    };
    let third_answer = port.contiguous(plan.scanout_pages, page_size);
    proof {
        answers = (first_answer, second_answer, third_answer);
    }
    let second: (usize, u64) = match third_answer {
        Some(buffer) => buffer,
        None => {
            let r = Err(DcpProbeError::SecondScanoutAllocation);
            assert(buffers_made(
                *plan,
                visible,
                page_size,
                (start, port.log()),
                (ops, bus.ops()),
                r,
                answers,
            ));
            return r;
        },
    };
    let size: u64 = plan.allocation_size;
    if !reaches(render.0, visible) || !reaches(first.0, size) || !reaches(second.0, size) {
        let r = Err(DcpProbeError::BufferOutOfReach);
        assert(buffers_made(
            *plan,
            visible,
            page_size,
            (start, port.log()),
            (ops, bus.ops()),
            r,
            answers,
        ));
        return r;
    }
    bus.zero_bytes(render.0, visible as usize);
    bus.zero_bytes(first.0, size as usize);
    bus.zero_bytes(second.0, size as usize);
    bus.clean_cache(first.0, size as usize);
    bus.clean_cache(second.0, size as usize);
    let buffers = Buffers { render, first, second };
    assert(bus.ops() =~= ops + clear_ops(buffers, visible, size));
    let r = Ok(buffers);
    assert(buffers_made(
        *plan,
        visible,
        page_size,
        (start, port.log()),
        (ops, bus.ops()),
        r,
        answers,
    ));
    r
}

/// What is mapped for the scanout buffers, in order: each buffer for the
/// coprocessor, then for the display.
pub open spec fn scanout_jobs(
    dcp_root: usize,
    display_root: usize,
    first: HandoffRegion,
    second: HandoffRegion,
) -> Seq<(usize, HandoffRegion)> {
    seq![(dcp_root, first), (display_root, first), (dcp_root, second), (display_root, second)]
}

/// Mappings were made one behind the other; `marks` holds the record behind
/// each of them.
pub open spec fn jobs_made(
    jobs: Seq<(usize, HandoffRegion)>,
    before: Seq<Op>,
    marks: Seq<Seq<Op>>,
) -> bool {
    &&& marks.len() <= jobs.len()
    &&& forall|i: int|
        0 <= i < marks.len() ==> region_mapped(
            jobs[i].0,
            mark_before(before, marks, i),
            #[trigger] marks[i],
            jobs[i].1,
            Ok(()),
        )
}

/// How mapping the scanout buffers went: in full, or up to the first mapping
/// that could not be made.
pub open spec fn jobs_done(
    jobs: Seq<(usize, HandoffRegion)>,
    before: Seq<Op>,
    after: Seq<Op>,
    r: Result<(), DcpError>,
    marks: Seq<Seq<Op>>,
) -> bool {
    let n = marks.len() as int;
    &&& jobs_made(jobs, before, marks)
    &&& match r {
        Ok(_) => n == jobs.len() && after == last_mark(before, marks),
        Err(e) => {
            &&& n < jobs.len()
            &&& match e {
                DcpError::HandoffOverflow => !reachable(jobs[n].1) && after == last_mark(
                    before,
                    marks,
                ),
                DcpError::Table(error) => region_mapped(
                    jobs[n].0,
                    last_mark(before, marks),
                    after,
                    jobs[n].1,
                    Err(error),
                ),
                _ => false,
            }
        },
    }
}

proof fn job_added(
    jobs: Seq<(usize, HandoffRegion)>,
    before: Seq<Op>,
    marks: Seq<Seq<Op>>,
    after: Seq<Op>,
)
    requires
        marks.len() < jobs.len(),
        jobs_made(jobs, before, marks),
        region_mapped(
            jobs[marks.len() as int].0,
            last_mark(before, marks),
            after,
            jobs[marks.len() as int].1,
            Ok(()),
        ),
    ensures
        jobs_made(jobs, before, marks.push(after)),
{
    let next = marks.push(after);
    assert forall|k: int| 0 <= k < next.len() implies region_mapped(
        jobs[k].0,
        mark_before(before, next, k),
        #[trigger] next[k],
        jobs[k].1,
        Ok(()),
    ) by {
        if k < marks.len() {
            assert(region_mapped(
                jobs[k].0,
                mark_before(before, marks, k),
                marks[k],
                jobs[k].1,
                Ok(()),
            ));
            assert(mark_before(before, next, k) == mark_before(before, marks, k));
        } else {
            assert(mark_before(before, next, k) == last_mark(before, marks));
        }
    }
}

/// Map both scanout buffers for the coprocessor and for the display.
pub fn map_scanouts<M: Mmio, F: FrameSource>(
    bus: &mut Bus<M>,
    frames: &mut F,
    dcp: &mut DartPageTable,
    display: &mut DartPageTable,
    first: &HandoffRegion,
    second: &HandoffRegion,
) -> (r: Result<(), DcpError>)
    requires
        old(dcp).wf(),
        old(display).wf(),
    ensures
        *final(dcp) == *old(dcp),
        *final(display) == *old(display),
        exists|marks: Seq<Seq<Op>>| #[trigger]
            jobs_done(
                scanout_jobs(old(dcp).root_vaddr, old(display).root_vaddr, *first, *second),
                old(bus).ops(),
                final(bus).ops(),
                r,
                marks,
            ),
{
    let ghost before = bus.ops();
    let ghost jobs = scanout_jobs(dcp.root_vaddr, display.root_vaddr, *first, *second);
    let ghost mut marks: Seq<Seq<Op>> = Seq::empty();
    let mut i: usize = 0;
    while i < 4
        invariant
            i <= 4,
            before == old(bus).ops(),
            *dcp == *old(dcp),
            *display == *old(display),
            dcp.wf(),
            display.wf(),
            jobs == scanout_jobs(dcp.root_vaddr, display.root_vaddr, *first, *second),
            marks.len() == i,
            jobs_made(jobs, before, marks),
            bus.ops() == last_mark(before, marks),
        decreases 4 - i,
    {
        let region: &HandoffRegion = if i < 2 {
            first
        } else {
            second
        };
        let outcome = if i == 0 || i == 2 {
            map_region(bus, frames, dcp, region)
        } else {
            map_region(bus, frames, display, region)
        };
        assert(jobs[i as int].1 == *region);
        match outcome {
            Ok(_) => {
                proof {
                    job_added(jobs, before, marks, bus.ops());
                    marks = marks.push(bus.ops());
                }
            },
            Err(e) => {
                let r = Err(e);
                assert(jobs_done(jobs, before, bus.ops(), r, marks));
                return r;
            },
        }
        i = i + 1;
    }
    let r = Ok(());
    assert(jobs_done(jobs, before, bus.ops(), r, marks));
    r
}

/// The plan for a surface, where its buffers fit.
pub open spec fn plan_of(visible: u64, page_size: u64) -> Option<ScanoutPlan> {
    let size = allocation_of(visible, page_size);
    if size + 0x4000_0000 <= u64::MAX {
        Some(
            ScanoutPlan {
                allocation_size: size as u64,
                render_pages: ceil_div(visible as int, 4096) as u64,
                scanout_pages: ceil_div(size, 4096) as u64,
                first_dva: 0x4000_0000,
                second_dva: (0x4000_0000 + size) as u64,
            },
        )
    } else {
        None
    }
}

/// A scanout buffer as the range that is mapped for it.
pub open spec fn scanout_range(dva: u64, buffer: (usize, u64), size: u64) -> HandoffRegion {
    HandoffRegion { iova: dva, paddr: buffer.1, size }
}

/// The display with its buffers, the first of them on the screen.
pub open spec fn display_with(
    timing: DcpTimingMode,
    plan: ScanoutPlan,
    b: Buffers,
    delay: u64,
) -> AppleDcpGraphics {
    AppleDcpGraphics {
        config: config_of(timing),
        render_virt: b.render.0,
        render_paddr: b.render.1,
        scanout0: Scanout { virt: b.first.0, paddr: b.first.1, dva: plan.first_dva },
        scanout1: Scanout { virt: b.second.0, paddr: b.second.1, dva: plan.second_dva },
        second_in_front: false,
        frame_delay_us: delay,
    }
}

/// How long a buffer stays on the screen.
pub open spec fn delay_of(timing: DcpTimingMode) -> u64 {
    if timing.fps == 0 {
        17_667u64
    } else {
        (ceil_div(65_536_000_000, timing.fps as int) + 1_000) as u64
    }
}

/// How far lighting the panel up went.
pub struct LightUp {
    pub start: PanelStart,
    pub mode: Result<(DcpTimingMode, DcpColorMode), DcpError>,
    pub started_calls: Seq<IbootCall>,
    pub started_ops: Seq<Op>,
    pub answers: (Option<(usize, u64)>, Option<(usize, u64)>, Option<(usize, u64)>),
    pub buffers: Result<Buffers, DcpProbeError>,
    pub made_ops: Seq<Op>,
    pub marks: Seq<Seq<Op>>,
    pub mapped: Result<(), DcpError>,
    pub mapped_ops: Seq<Op>,
    pub shown: Result<(), DcpError>,
}

/// Requests and accesses before and after a step.
pub struct Span {
    pub calls: (Seq<IbootCall>, Seq<IbootCall>),
    pub ops: (Seq<Op>, Seq<Op>),
    pub asked: (Seq<BufferCall>, Seq<BufferCall>),
}

/// The display reported a failure.
pub open spec fn reported<T>(r: Result<T, DcpProbeError>, e: DcpError) -> bool {
    r is Err && r->Err_0 is Display && r->Err_0->Display_0 == e
}

/// The buffers of a panel that runs in the given mode were mapped and the first
/// of them was shown.
pub open spec fn shown_with(
    dcp: &Translation,
    display: &Translation,
    channel: u32,
    span: Span,
    timing: DcpTimingMode,
    plan: ScanoutPlan,
    b: Buffers,
    r: Result<AppleDcpGraphics, DcpProbeError>,
    w: LightUp,
) -> bool {
    &&& jobs_done(
        scanout_jobs(
            dcp.table.root_vaddr,
            display.table.root_vaddr,
            scanout_range(plan.first_dva, b.first, plan.allocation_size),
            scanout_range(plan.second_dva, b.second, plan.allocation_size),
        ),
        w.made_ops,
        w.mapped_ops,
        w.mapped,
        w.marks,
    )
    &&& match w.mapped {
        Err(e) => reported(r, e) && span.ops.1 == w.mapped_ops && span.calls.1 == w.started_calls,
        Ok(_) => {
            &&& span.ops.1 == (w.mapped_ops + dcp.on_ops() + display.on_ops()).push(Op::Fence)
            &&& commanded(
                w.started_calls,
                span.calls.1,
                span.ops.1.len(),
                channel,
                1,
                layer_bytes(layer_of(config_of(timing), plan.first_dva)),
                w.shown,
            )
            &&& match w.shown {
                Err(e) => reported(r, e),
                Ok(_) => r is Ok && r->Ok_0 == display_with(timing, plan, b, delay_of(timing)),
            }
        },
    }
}

/// The panel was lit up: started, its buffers planned, made, mapped and shown,
/// up to the first failure.
pub open spec fn lit_up(
    dcp: &Translation,
    display: &Translation,
    page_size: u64,
    channel: u32,
    span: Span,
    r: Result<AppleDcpGraphics, DcpProbeError>,
    w: LightUp,
) -> bool {
    &&& panel_started(
        span.calls.0,
        w.started_calls,
        span.ops.0,
        w.started_ops,
        channel,
        w.mode,
        w.start,
    )
    &&& match w.mode {
        Err(e) => {
            &&& reported(r, e)
            &&& span.calls.1 == w.started_calls
            &&& span.ops.1 == w.started_ops
            &&& span.asked.1 == span.asked.0
        },
        Ok((timing, color)) => {
            let visible = surface_size(config_of(timing)) as u64;
            match plan_of(visible, page_size) {
                None => {
                    &&& reported(r, DcpError::ScanoutOverflow)
                    &&& span.calls.1 == w.started_calls
                    &&& span.ops.1 == w.started_ops
                    &&& span.asked.1 == span.asked.0
                },
                Some(plan) => {
                    &&& buffers_made(
                        plan,
                        visible,
                        page_size,
                        span.asked,
                        (w.started_ops, w.made_ops),
                        w.buffers,
                        w.answers,
                    )
                    &&& match w.buffers {
                        Err(e) => {
                            &&& r is Err && r->Err_0 == e
                            &&& span.calls.1 == w.started_calls
                            &&& span.ops.1 == w.made_ops
                        },
                        Ok(b) => shown_with(dcp, display, channel, span, timing, plan, b, r, w),
                    }
                },
            }
        },
    }
}

/// Light the panel up: start it, make and map its buffers, and show the first
/// of them.
#[verifier::rlimit(60)]
pub fn light_up<M: Mmio, F: FrameSource, S: BufferSource, T: IbootTransport>(
    bus: &mut Bus<M>,
    frames: &mut F,
    port: &mut BufferPort<S>,
    iboot: &mut DcpIboot<T>,
    dcp: &mut Translation,
    display: &mut Translation,
    page_size: u64,
) -> (r: Result<AppleDcpGraphics, DcpProbeError>)
    requires
        old(dcp).wf(),
        old(display).wf(),
        0 < page_size <= 0x1_0000,
    ensures
        *final(dcp) == *old(dcp),
        *final(display) == *old(display),
        final(iboot).same_service(old(iboot)),
        exists|w: LightUp| #[trigger]
            lit_up(
                old(dcp),
                old(display),
                page_size,
                old(iboot).channel,
                (Span {
                    calls: (old(iboot).calls(), final(iboot).calls()),
                    ops: (old(bus).ops(), final(bus).ops()),
                    asked: (old(port).log(), final(port).log()),
                }),
                r,
                w,
            ),
{
    let ghost calls = iboot.calls();
    let ghost ops = bus.ops();
    let ghost asked = port.log();
    let mode = start_panel(bus, iboot);
    let ghost mut w: LightUp = arbitrary();
    proof {
        let start = choose|p: PanelStart| #[trigger]
            panel_started(calls, iboot.calls(), ops, bus.ops(), iboot.channel, mode, p);
        w = LightUp { start, mode, started_calls: iboot.calls(), started_ops: bus.ops(), ..w };
    }
    let timing: DcpTimingMode = match mode {
        Ok((timing, _)) => timing,
        Err(e) => {
            let r = Err(DcpProbeError::Display(e));
            let ghost span = Span {
                calls: (calls, iboot.calls()),
                ops: (ops, bus.ops()),
                asked: (asked, port.log()),
            };
            assert(lit_up(dcp, display, page_size, iboot.channel, span, r, w));
            return r;
        },
    };
    let config = framebuffer_config(&timing);
    proof {
        assert(0 <= config.stride * config.height <= 0xffff_ffff * 0xffff_ffff) by (nonlinear_arith)
            requires
                0 <= config.stride <= 0xffff_ffff,
                0 <= config.height <= 0xffff_ffff,
        ;
    }
    let visible: u64 = config.stride as u64 * config.height as u64;
    let plan: ScanoutPlan = match plan_scanout(visible, page_size) {
        Ok(plan) => plan,
        Err(e) => {
            let r = Err(DcpProbeError::Display(e));
            let ghost span = Span {
                calls: (calls, iboot.calls()),
                ops: (ops, bus.ops()),
                asked: (asked, port.log()),
            };
            assert(lit_up(dcp, display, page_size, iboot.channel, span, r, w));
            return r;
        },
    };
    assert(plan_of(visible, page_size) == Some(plan));
    let made = make_buffers(bus, port, &plan, visible, page_size);
    proof {
        let answers = choose|
            answers: (Option<(usize, u64)>, Option<(usize, u64)>, Option<(usize, u64)>),
        |
            #[trigger] buffers_made(
                plan,
                visible,
                page_size,
                (asked, port.log()),
                (w.started_ops, bus.ops()),
                made,
                answers,
            );
        w = LightUp { answers, buffers: made, made_ops: bus.ops(), ..w };
    }
    let buffers: Buffers = match made {
        Ok(buffers) => buffers,
        Err(e) => {
            let r = Err(e);
            let ghost span = Span {
                calls: (calls, iboot.calls()),
                ops: (ops, bus.ops()),
                asked: (asked, port.log()),
            };
            assert(lit_up(dcp, display, page_size, iboot.channel, span, r, w));
            return r;
        },
    };
    let first = HandoffRegion {
        iova: plan.first_dva,
        paddr: buffers.first.1,
        size: plan.allocation_size,
    };
    let second = HandoffRegion {
        iova: plan.second_dva,
        paddr: buffers.second.1,
        size: plan.allocation_size,
    };
    let mapped = map_scanouts(bus, frames, &mut dcp.table, &mut display.table, &first, &second);
    proof {
        let marks = choose|marks: Seq<Seq<Op>>| #[trigger]
            jobs_done(
                scanout_jobs(dcp.table.root_vaddr, display.table.root_vaddr, first, second),
                w.made_ops,
                bus.ops(),
                mapped,
                marks,
            );
        w = LightUp { marks, mapped, mapped_ops: bus.ops(), ..w };
    }
    match mapped {
        Ok(_) => {},
        Err(e) => {
            let r = Err(DcpProbeError::Display(e));
            let ghost span = Span {
                calls: (calls, iboot.calls()),
                ops: (ops, bus.ops()),
                asked: (asked, port.log()),
            };
            assert(shown_with(dcp, display, iboot.channel, span, timing, plan, buffers, r, w));
            assert(lit_up(dcp, display, page_size, iboot.channel, span, r, w));
            return r;
        },
    }
    dcp.enable(bus);
    display.enable(bus);
    bus.barrier();
    let layer = make_layer(&config, plan.first_dva);
    let shown = iboot.set_surface(bus, &layer);
    proof {
        w = LightUp { shown, ..w };
    }
    let ghost span = Span {
        calls: (calls, iboot.calls()),
        ops: (ops, bus.ops()),
        asked: (asked, port.log()),
    };
    let r = match shown {
        Err(e) => Err(DcpProbeError::Display(e)),
        Ok(_) => Ok(
            AppleDcpGraphics {
                config,
                render_virt: buffers.render.0,
                render_paddr: buffers.render.1,
                scanout0: Scanout {
                    virt: buffers.first.0,
                    paddr: buffers.first.1,
                    dva: plan.first_dva,
                },
                scanout1: Scanout {
                    virt: buffers.second.0,
                    paddr: buffers.second.1,
                    dva: plan.second_dva,
                },
                second_in_front: false,
                frame_delay_us: frame_delay_us(&timing),
            },
        ),
    };
    assert(shown_with(dcp, display, iboot.channel, span, timing, plan, buffers, r, w));
    assert(lit_up(dcp, display, page_size, iboot.channel, span, r, w));
    r
}

/// A panel that lights up shows a usable timing and finds both buffers in
/// different places, behind one another.
pub proof fn lit_panel_shows_a_usable_mode(
    dcp: &Translation,
    display: &Translation,
    page_size: u64,
    channel: u32,
    span: Span,
    r: Result<AppleDcpGraphics, DcpProbeError>,
    w: LightUp,
)
    requires
        0 < page_size <= 0x1_0000,
        lit_up(dcp, display, page_size, channel, span, r, w),
        r is Ok,
    ensures
        r->Ok_0.config.width != 0,
        r->Ok_0.config.height != 0,
        r->Ok_0.scanout0.dva == 0x4000_0000,
        r->Ok_0.scanout1.dva - r->Ok_0.scanout0.dva >= surface_size(r->Ok_0.config),
{
    let timing = (w.mode->Ok_0).0;
    let timings = w.start.offer.timings->Ok_0;
    assert(is_timing_choice(timings, timing));
    reveal(is_timing_choice);
    let i = choose|i: int| #[trigger] best_timing(timings, i) && timings[i] == timing;
    assert(usable_timing(timings[i]));
    let config = config_of(timing);
    assert(0 <= config.stride * config.height <= 0xffff_ffff * 0xffff_ffff) by (nonlinear_arith)
        requires
            0 <= config.stride <= 0xffff_ffff,
            0 <= config.height <= 0xffff_ffff,
    ;
    let visible = surface_size(config) as u64;
    ceil_div_counts(visible + 24 * page_size, page_size as int);
}

} // verus!
