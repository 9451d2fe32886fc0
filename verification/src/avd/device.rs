//! A decoder instance: power and reset, firmware start, command submission and
//! the firmware mailbox.

use crate::avd::firmware::{classified, AvdFirmwareMessage};
use crate::avd::h264::H264FrontendError;
use crate::avd::h264_stream::{AvdH264InstructionStream, H264DecodeRequest};
use crate::avd::image::{image_check, validate_firmware_image, ImageError};
use crate::avd::registers::{
    clear_mailbox_ops, engine_ops, hold_ops, init_ops, instruction_ops, irq_enable_ops, run_ops,
    stage_ops, AvdRegisters, AvdStatusSnapshot, REG_MCPU_CODE,
};
use crate::avd::trace::{AvdTraceEvent, AvdTraceKind, AvdTraceLog, TraceView};
use crate::avd::words::kept;
use crate::bus::{rd, wait, wr, Bus, Mmio, Op};
use crate::bytes::{from_be64, read_be_u64};
use crate::platform::{first_mem_resource, first_of, span, Resource, ResourceKind};
use crate::text::same_text;
use crate::ports::video::{AvdPlatform, AvdPort, PlatformCall};
use vstd::prelude::*;

verus! {

/// Events that the trace of a decoder retains.
pub const AVD_TRACE_CAPACITY: usize = 128;

/// Clears every completion and error bit of the H.264 engine.
pub const H264_STATUS_CLEAR: u32 = 0x0084_210b;

/// Why a request to the decoder failed.
#[derive(Clone, Copy, Debug)]
pub enum AvdError {
    MissingMmio,
    EmptyMmio,
    /// A resource that is needed is not there yet; probing is tried again.
    ProbeDeferred,
    MalformedClockGates,
    ClockGateOutOfRange,
    ClockGateMissing,
    /// What the platform's power or reset code reported.
    Platform(&'static str),
    Image(ImageError),
    RunTimeout,
    FirmwareFaultedBefore,
    FirmwareFaulted,
    FirmwareNotRunning,
    EmptyInstructionStream,
    UnsupportedSession,
    UnsupportedFormat,
    EmptyInput,
    OutputTooSmall,
    InputTooLarge,
    DecodePending,
    NoFreeSessions,
    InvalidStream,
    InactiveStream,
    FormatMismatch,
    MissingSps,
    OutputSlotOverflow,
    ReferenceSlotOverflow,
    FrameExceedsPool,
    InputMap,
    OutputMap,
    WorkspaceAllocation,
    WorkspaceMap,
    /// Buffers lie where the decoder's addressing does not reach.
    AddressRange,
    EngineError,
    DecodeTimeout,
    BackendGone,
    H264(H264FrontendError),
}

impl AvdError {
    pub open spec fn text(self) -> Seq<char> {
        match self {
            AvdError::MissingMmio => "apple-avd: missing MMIO resource"@,
            AvdError::EmptyMmio => "apple-avd: empty MMIO resource"@,
            AvdError::ProbeDeferred => "apple-avd: probe deferred"@,
            AvdError::MalformedClockGates =>
                "apple-avd: malformed PMGR clock gate paddr property"@,
            AvdError::ClockGateOutOfRange => "apple-avd: PMGR clock gate paddr out of range"@,
            AvdError::ClockGateMissing => "apple-avd: PMGR ADT clock gate missing"@,
            AvdError::Platform(message) => message@,
            AvdError::Image(ImageError::TooSmall) => "apple-avd: firmware image is too small"@,
            AvdError::Image(ImageError::StillElf) =>
                "apple-avd: firmware image is still an ELF file"@,
            AvdError::Image(ImageError::TooLarge) =>
                "apple-avd: firmware image exceeds CM3 code window"@,
            AvdError::Image(ImageError::InvalidStackPointer) =>
                "apple-avd: firmware image has invalid stack pointer"@,
            AvdError::Image(ImageError::InvalidResetVector) =>
                "apple-avd: firmware image has invalid reset vector"@,
            AvdError::RunTimeout => "apple-avd: CM3 run status did not assert"@,
            AvdError::FirmwareFaultedBefore => "apple-avd: firmware is faulted"@,
            AvdError::FirmwareFaulted => "apple-avd: firmware faulted"@,
            AvdError::FirmwareNotRunning => "apple-avd: firmware is not running"@,
            AvdError::EmptyInstructionStream => "apple-avd: empty H.264 instruction stream"@,
            AvdError::UnsupportedSession => "apple-avd: only H.264 sessions are supported"@,
            AvdError::UnsupportedFormat => "apple-avd: unsupported coded format"@,
            AvdError::EmptyInput => "apple-avd: empty input access unit"@,
            AvdError::OutputTooSmall => "apple-avd: output buffer is too small"@,
            AvdError::InputTooLarge => "apple-avd: input exceeds mapped input buffer"@,
            AvdError::DecodePending => "apple-avd: decode already pending"@,
            AvdError::NoFreeSessions => "apple-avd: no free video sessions"@,
            AvdError::InvalidStream => "apple-avd: invalid stream id"@,
            AvdError::InactiveStream => "apple-avd: inactive stream id"@,
            AvdError::FormatMismatch => "apple-avd: stream format mismatch"@,
            AvdError::MissingSps => "apple-avd: missing H.264 SPS before first slice"@,
            AvdError::OutputSlotOverflow => "apple-avd: output slot size overflow"@,
            AvdError::ReferenceSlotOverflow => "apple-avd: reference slot size overflow"@,
            AvdError::FrameExceedsPool =>
                "apple-avd: decoded frame exceeds mapped output slot pool"@,
            AvdError::InputMap => "apple-avd: input DMA map failed"@,
            AvdError::OutputMap => "apple-avd: output DMA map failed"@,
            AvdError::WorkspaceAllocation => "apple-avd: workspace allocation failed"@,
            AvdError::WorkspaceMap => "apple-avd: workspace DMA map failed"@,
            AvdError::AddressRange => "apple-avd: buffer addresses out of range"@,
            AvdError::EngineError => "apple-avd: H.264 engine reported an error"@,
            AvdError::DecodeTimeout => "apple-avd: decode timed out"@,
            AvdError::BackendGone => "apple-avd: backend instance disappeared"@,
            AvdError::H264(H264FrontendError::InvalidDimensions) =>
                "apple-avd: H.264 dimensions are invalid"@,
            AvdError::H264(H264FrontendError::UnsupportedSps) =>
                "apple-avd: H.264 SPS uses unsupported features"@,
            AvdError::H264(H264FrontendError::MalformedSlice) =>
                "apple-avd: H.264 slice header is malformed"@,
            AvdError::H264(H264FrontendError::InvalidSliceRange) =>
                "apple-avd: H.264 slice lies outside the input"@,
            AvdError::H264(H264FrontendError::InstructionStreamTooLarge) =>
                "apple-avd: generated H.264 instruction stream is too large"@,
        }
    }

    /// What is reported to the user of the decoder.
    pub fn message(self) -> (r: &'static str)
        ensures
            r@ == self.text(),
    {
        match self {
            AvdError::MissingMmio => "apple-avd: missing MMIO resource",
            AvdError::EmptyMmio => "apple-avd: empty MMIO resource",
            AvdError::ProbeDeferred => "apple-avd: probe deferred",
            AvdError::MalformedClockGates => "apple-avd: malformed PMGR clock gate paddr property",
            AvdError::ClockGateOutOfRange => "apple-avd: PMGR clock gate paddr out of range",
            AvdError::ClockGateMissing => "apple-avd: PMGR ADT clock gate missing",
            AvdError::Platform(message) => message,
            AvdError::Image(ImageError::TooSmall) => "apple-avd: firmware image is too small",
            AvdError::Image(ImageError::StillElf) => "apple-avd: firmware image is still an ELF file",
            AvdError::Image(ImageError::TooLarge) =>
                "apple-avd: firmware image exceeds CM3 code window",
            AvdError::Image(ImageError::InvalidStackPointer) =>
                "apple-avd: firmware image has invalid stack pointer",
            AvdError::Image(ImageError::InvalidResetVector) =>
                "apple-avd: firmware image has invalid reset vector",
            AvdError::RunTimeout => "apple-avd: CM3 run status did not assert",
            AvdError::FirmwareFaultedBefore => "apple-avd: firmware is faulted",
            AvdError::FirmwareFaulted => "apple-avd: firmware faulted",
            AvdError::FirmwareNotRunning => "apple-avd: firmware is not running",
            AvdError::EmptyInstructionStream => "apple-avd: empty H.264 instruction stream",
            AvdError::UnsupportedSession => "apple-avd: only H.264 sessions are supported",
            AvdError::UnsupportedFormat => "apple-avd: unsupported coded format",
            AvdError::EmptyInput => "apple-avd: empty input access unit",
            AvdError::OutputTooSmall => "apple-avd: output buffer is too small",
            AvdError::InputTooLarge => "apple-avd: input exceeds mapped input buffer",
            AvdError::DecodePending => "apple-avd: decode already pending",
            AvdError::NoFreeSessions => "apple-avd: no free video sessions",
            AvdError::InvalidStream => "apple-avd: invalid stream id",
            AvdError::InactiveStream => "apple-avd: inactive stream id",
            AvdError::FormatMismatch => "apple-avd: stream format mismatch",
            AvdError::MissingSps => "apple-avd: missing H.264 SPS before first slice",
            AvdError::OutputSlotOverflow => "apple-avd: output slot size overflow",
            AvdError::ReferenceSlotOverflow => "apple-avd: reference slot size overflow",
            AvdError::FrameExceedsPool =>
                "apple-avd: decoded frame exceeds mapped output slot pool",
            AvdError::InputMap => "apple-avd: input DMA map failed",
            AvdError::OutputMap => "apple-avd: output DMA map failed",
            AvdError::WorkspaceAllocation => "apple-avd: workspace allocation failed",
            AvdError::WorkspaceMap => "apple-avd: workspace DMA map failed",
            AvdError::AddressRange => "apple-avd: buffer addresses out of range",
            AvdError::EngineError => "apple-avd: H.264 engine reported an error",
            AvdError::DecodeTimeout => "apple-avd: decode timed out",
            AvdError::BackendGone => "apple-avd: backend instance disappeared",
            AvdError::H264(H264FrontendError::InvalidDimensions) =>
                "apple-avd: H.264 dimensions are invalid",
            AvdError::H264(H264FrontendError::UnsupportedSps) =>
                "apple-avd: H.264 SPS uses unsupported features",
            AvdError::H264(H264FrontendError::MalformedSlice) =>
                "apple-avd: H.264 slice header is malformed",
            AvdError::H264(H264FrontendError::InvalidSliceRange) =>
                "apple-avd: H.264 slice lies outside the input",
            AvdError::H264(H264FrontendError::InstructionStreamTooLarge) =>
                "apple-avd: generated H.264 instruction stream is too large",
        }
    }
}

/// System on chip that a decoder is part of.
#[derive(Clone, Copy, Debug, PartialEq, Eq, Structural)]
pub enum AppleAvdSoc {
    T8103,
    T6000,
    T6020,
    T8112,
    Unknown,
}

/// What one compatible string stands for.
pub open spec fn soc_named(text: Seq<char>) -> AppleAvdSoc {
    if text == "apple,t8103-avd"@ {
        AppleAvdSoc::T8103
    } else if text == "apple,t6000-avd"@ {
        AppleAvdSoc::T6000
    } else if text == "apple,t6020-avd"@ {
        AppleAvdSoc::T6020
    } else if text == "apple,t8112-avd"@ {
        AppleAvdSoc::T8112
    } else {
        AppleAvdSoc::Unknown
    }
}

/// What the first known compatible string from `from` on stands for.
pub open spec fn soc_listed(entries: Seq<&str>, from: int) -> AppleAvdSoc
    decreases entries.len() - from,
{
    if from < 0 || from >= entries.len() {
        AppleAvdSoc::Unknown
    } else if soc_named(entries[from]@) != AppleAvdSoc::Unknown {
        soc_named(entries[from]@)
    } else {
        soc_listed(entries, from + 1)
    }
}

impl AppleAvdSoc {
    /// The system of a device with the given compatible strings.
    pub fn from_compatible(entries: &[&str]) -> (r: Self)
        ensures
            r == soc_listed(entries@, 0),
    {
        let mut i: usize = 0;
        while i < entries.len()
            invariant
                i <= entries@.len(),
                soc_listed(entries@, 0) == soc_listed(entries@, i as int),
            decreases entries@.len() - i,
        {
            let text = entries[i];
            if same_text(text, "apple,t8103-avd") {
                return AppleAvdSoc::T8103;
            }
            if same_text(text, "apple,t6000-avd") {
                return AppleAvdSoc::T6000;
            }
            if same_text(text, "apple,t6020-avd") {
                return AppleAvdSoc::T6020;
            }
            if same_text(text, "apple,t8112-avd") {
                return AppleAvdSoc::T8112;
            }
            i = i + 1;
        }
        AppleAvdSoc::Unknown
    }

    pub open spec fn label(self) -> Seq<char> {
        match self {
            AppleAvdSoc::T8103 => "t8103"@,
            AppleAvdSoc::T6000 => "t6000"@,
            AppleAvdSoc::T6020 => "t6020"@,
            AppleAvdSoc::T8112 => "t8112"@,
            AppleAvdSoc::Unknown => "unknown"@,
        }
    }

    pub fn name(self) -> (r: &'static str)
        ensures
            r@ == self.label(),
    {
        match self {
            AppleAvdSoc::T8103 => "t8103",
            AppleAvdSoc::T6000 => "t6000",
            AppleAvdSoc::T6020 => "t6020",
            AppleAvdSoc::T8112 => "t8112",
            AppleAvdSoc::Unknown => "unknown",
        }
    }
}

/// Life cycle of the coprocessor's firmware.
#[derive(Clone, Copy, Debug, PartialEq, Eq, Structural)]
pub enum AvdFirmwareState {
    Missing,
    Staged,
    Running,
    Faulted,
}

/// What the changing part of a decoder holds.
pub struct AvdView {
    pub state: AvdFirmwareState,
    /// Byte length of the image that was started.
    pub image: Option<usize>,
    pub trace: TraceView,
}

impl AvdView {
    pub open spec fn traced(self, kind: AvdTraceKind, arg0: u64, arg1: u64) -> AvdView {
        AvdView { trace: self.trace.traced(kind, arg0, arg1), ..self }
    }

    pub open spec fn in_state(self, state: AvdFirmwareState) -> AvdView {
        AvdView { state, ..self }
    }
}

/// A mailbox command as the firmware's protocol encodes it.
#[derive(Clone, Copy, Debug, PartialEq, Eq, Structural)]
pub struct AvdFirmwareCommand {
    /// Word for the mailbox.
    pub raw: u32,
    /// Driver-local tag of the command.
    pub tag: u32,
}

/// Decoder instance. `D` is whatever the machine uses to map memory for it.
pub struct AppleAvd<D> {
    pub name: &'static str,
    pub soc: AppleAvdSoc,
    pub paddr: usize,
    pub size: usize,
    pub irq: Option<u32>,
    pub registers: AvdRegisters,
    pub dma: D,
    pub has_power: bool,
    pub has_reset: bool,
    /// Error bit of the firmware's mailbox protocol.
    pub vp_error: u32,
    pub trace: AvdTraceLog,
    pub firmware_state: AvdFirmwareState,
    pub firmware_image: Option<usize>,
}

/// What came back while the hardware was reset.
pub struct ResetReplies {
    pub on: bool,
    pub enabled: Result<(), &'static str>,
    pub reset: Result<(), &'static str>,
}

/// The platform calls of a reset: power is switched on where it is off, then
/// the reset line is pulsed where there is one.
pub open spec fn reset_calls(has_power: bool, has_reset: bool, q: ResetReplies) -> Seq<PlatformCall> {
    let power = if !has_power {
        Seq::empty()
    } else if q.on {
        seq![PlatformCall::PowerIsOn(true)]
    } else {
        seq![PlatformCall::PowerIsOn(false), PlatformCall::PowerEnable(q.enabled)]
    };
    if reset_power_failed(has_power, q) || !has_reset {
        power
    } else {
        power.push(PlatformCall::Reset(q.reset))
    }
}

/// Power could not be switched on.
pub open spec fn reset_power_failed(has_power: bool, q: ResetReplies) -> bool {
    has_power && !q.on && q.enabled is Err
}

/// The waits of a reset, one behind each step that was taken.
pub open spec fn reset_ops(has_power: bool, has_reset: bool, q: ResetReplies) -> Seq<Op> {
    (if has_power && !q.on && q.enabled is Ok {
        seq![wait(10)]
    } else {
        Seq::empty()
    }) + (if !reset_power_failed(has_power, q) && has_reset && q.reset is Ok {
        seq![wait(10)]
    } else {
        Seq::empty()
    })
}

/// How a reset goes.
pub open spec fn reset_result(has_power: bool, has_reset: bool, q: ResetReplies) -> Result<
    (),
    AvdError,
> {
    if reset_power_failed(has_power, q) {
        Err(AvdError::Platform(q.enabled->Err_0))
    } else if has_reset && q.reset is Err {
        Err(AvdError::Platform(q.reset->Err_0))
    } else {
        Ok(())
    }
}

/// A decoder behind a reset that succeeded.
pub open spec fn after_reset(s: AvdView) -> AvdView {
    s.in_state(AvdFirmwareState::Missing).traced(AvdTraceKind::Firmware, 0, 0)
}

/// What one look at the mailbox does.
pub open spec fn after_poll(s: AvdView, raw: u32, vp_error: u32) -> AvdView {
    let message = classified(raw, vp_error);
    if raw == 0 {
        s
    } else if message.completes() {
        s.traced(AvdTraceKind::MailboxRx, raw as u64, 0).traced(
            AvdTraceKind::DecodeComplete,
            raw as u64,
            0,
        )
    } else {
        s.traced(AvdTraceKind::MailboxRx, raw as u64, 0).in_state(AvdFirmwareState::Faulted).traced(
            AvdTraceKind::Fault,
            raw as u64,
            0,
        )
    }
}

/// The accesses of one look at the mailbox that found `raw`.
pub open spec fn poll_ops(base: usize, raw: u32) -> Seq<Op> {
    seq![rd(base, 0x1098064, raw)] + (if raw == 0 {
        Seq::empty()
    } else {
        clear_mailbox_ops(base)
    })
}

/// What one look at the mailbox returns.
pub open spec fn poll_result(raw: u32, vp_error: u32) -> Option<AvdFirmwareMessage> {
    if raw == 0 {
        None
    } else {
        Some(classified(raw, vp_error))
    }
}

/// What came back while the firmware was started.
pub struct BootReplies {
    pub reset: ResetReplies,
    /// The coprocessor reported to run.
    pub running: bool,
    /// First mailbox word.
    pub word: u32,
}

/// The accesses that bring the hardware up and place the image.
pub open spec fn prepare_ops(base: usize, image: Seq<u8>) -> Seq<Op> {
    init_ops(base) + hold_ops(base) + stage_ops(base, image) + clear_mailbox_ops(base)
}

/// The accesses of a firmware start.
pub open spec fn boot_ops<D>(avd: &AppleAvd<D>, image: Seq<u8>, q: BootReplies) -> Seq<Op> {
    let base = avd.registers.base;
    if image_check(image) is Err {
        Seq::empty()
    } else if reset_result(avd.has_power, avd.has_reset, q.reset) is Err {
        reset_ops(avd.has_power, avd.has_reset, q.reset)
    } else {
        reset_ops(avd.has_power, avd.has_reset, q.reset) + prepare_ops(base, image)
            + irq_enable_ops(base, 2, 8) + run_ops(base, q.running) + (if q.running {
            poll_ops(base, q.word)
        } else {
            Seq::empty()
        })
    }
}

/// The platform calls of a firmware start.
pub open spec fn boot_calls<D>(avd: &AppleAvd<D>, image: Seq<u8>, q: BootReplies) -> Seq<
    PlatformCall,
> {
    if image_check(image) is Err {
        Seq::empty()
    } else {
        reset_calls(avd.has_power, avd.has_reset, q.reset)
    }
}

/// How a firmware start goes.
pub open spec fn boot_result<D>(avd: &AppleAvd<D>, image: Seq<u8>, q: BootReplies) -> Result<
    (),
    AvdError,
> {
    if image_check(image) is Err {
        Err(AvdError::Image(image_check(image)->Err_0))
    } else if reset_result(avd.has_power, avd.has_reset, q.reset) is Err {
        reset_result(avd.has_power, avd.has_reset, q.reset)
    } else if !q.running {
        Err(AvdError::RunTimeout)
    } else if q.word != 0 && classified(q.word, avd.vp_error).fatal() {
        Err(AvdError::FirmwareFaulted)
    } else {
        Ok(())
    }
}

/// A decoder behind a firmware start.
pub open spec fn after_boot<D>(avd: &AppleAvd<D>, image: Seq<u8>, q: BootReplies) -> AvdView {
    let s = avd.view();
    if image_check(image) is Err || reset_result(avd.has_power, avd.has_reset, q.reset) is Err {
        s
    } else {
        let staged = after_reset(s).in_state(AvdFirmwareState::Staged).traced(
            AvdTraceKind::Firmware,
            0x1080000,
            image.len() as u64,
        );
        if !q.running {
            staged.in_state(AvdFirmwareState::Faulted).traced(AvdTraceKind::Fault, 0x1098_0090, 0)
        } else {
            let started = staged.in_state(AvdFirmwareState::Running).traced(
                AvdTraceKind::Firmware,
                1,
                0,
            );
            after_poll(
                AvdView { image: Some(image.len() as usize), ..started },
                q.word,
                avd.vp_error,
            )
        }
    }
}

/// Everything a firmware start did.
pub open spec fn booted<D>(
    before: &AppleAvd<D>,
    after: &AppleAvd<D>,
    image: Seq<u8>,
    ops: (Seq<Op>, Seq<Op>),
    calls: (Seq<PlatformCall>, Seq<PlatformCall>),
    r: Result<(), AvdError>,
    q: BootReplies,
) -> bool {
    &&& ops.1 == ops.0 + boot_ops(before, image, q)
    &&& calls.1 == calls.0 + boot_calls(before, image, q)
    &&& after.same_device(*before)
    &&& after.view() == after_boot(before, image, q)
    &&& r == boot_result(before, image, q)
}

/// Everything a reset did.
pub open spec fn was_reset<D>(
    before: &AppleAvd<D>,
    after: &AppleAvd<D>,
    ops: (Seq<Op>, Seq<Op>),
    calls: (Seq<PlatformCall>, Seq<PlatformCall>),
    r: Result<(), AvdError>,
    q: ResetReplies,
) -> bool {
    &&& ops.1 == ops.0 + reset_ops(before.has_power, before.has_reset, q)
    &&& calls.1 == calls.0 + reset_calls(before.has_power, before.has_reset, q)
    &&& after.same_device(*before)
    &&& r == reset_result(before.has_power, before.has_reset, q)
    &&& after.view() == if r is Ok {
        after_reset(before.view())
    } else {
        before.view()
    }
}

/// Everything one look at the mailbox did that found `raw`.
pub open spec fn polled<D>(
    before: &AppleAvd<D>,
    after: &AppleAvd<D>,
    ops: (Seq<Op>, Seq<Op>),
    r: Option<AvdFirmwareMessage>,
    raw: u32,
) -> bool {
    &&& ops.1 == ops.0 + poll_ops(before.registers.base, raw)
    &&& after.same_device(*before)
    &&& after.view() == after_poll(before.view(), raw, before.vp_error)
    &&& r == poll_result(raw, before.vp_error)
}

impl<D> AppleAvd<D> {
    /// What changes while the decoder is used.
    pub open spec fn view(&self) -> AvdView {
        AvdView {
            state: self.firmware_state,
            image: self.firmware_image,
            trace: self.trace@,
        }
    }

    /// What never changes.
    pub open spec fn same_device(&self, other: AppleAvd<D>) -> bool {
        &&& self.name == other.name
        &&& self.soc == other.soc
        &&& self.paddr == other.paddr
        &&& self.size == other.size
        &&& self.irq == other.irq
        &&& self.registers == other.registers
        &&& self.dma == other.dma
        &&& self.has_power == other.has_power
        &&& self.has_reset == other.has_reset
        &&& self.vp_error == other.vp_error
    }

    /// Registers lie in the address space and the trace is within its bound.
    pub open spec fn wf(&self) -> bool {
        self.registers.wf() && self.trace@.wf()
    }

    pub fn new(
        name: &'static str,
        soc: AppleAvdSoc,
        paddr: usize,
        size: usize,
        irq: Option<u32>,
        registers: AvdRegisters,
        dma: D,
        has_power: bool,
        has_reset: bool,
        vp_error: u32,
    ) -> (r: Self)
        ensures
            r.name == name,
            r.soc == soc,
            r.paddr == paddr,
            r.size == size,
            r.irq == irq,
            r.registers == registers,
            r.dma == dma,
            r.has_power == has_power,
            r.has_reset == has_reset,
            r.vp_error == vp_error,
            r.view() == (AvdView {
                state: AvdFirmwareState::Missing,
                image: None,
                trace: TraceView { entries: Seq::empty(), next_sequence: 0, capacity: 128 },
            }),
            r.wf() == registers.wf(),
    {
        AppleAvd {
            name,
            soc,
            paddr,
            size,
            irq,
            registers,
            dma,
            has_power,
            has_reset,
            vp_error,
            trace: AvdTraceLog::new(AVD_TRACE_CAPACITY),
            firmware_state: AvdFirmwareState::Missing,
            firmware_image: None,
        }
    }

    /// Return the firmware node name used for this instance.
    pub fn name(&self) -> (r: &'static str)
        ensures
            r == self.name,
    {
        self.name
    }

    /// Return the physical address of the register aperture.
    pub fn paddr(&self) -> (r: usize)
        ensures
            r == self.paddr,
    {
        self.paddr
    }

    /// Return the byte length of the register aperture.
    pub fn size(&self) -> (r: usize)
        ensures
            r == self.size,
    {
        self.size
    }

    /// Return the detected system name.
    pub fn soc_name(&self) -> (r: &'static str)
        ensures
            r@ == self.soc.label(),
    {
        self.soc.name()
    }

    /// Return the interrupt line, where there is one.
    pub fn irq(&self) -> (r: Option<u32>)
        ensures
            r == self.irq,
    {
        self.irq
    }

    /// Return what maps memory for the device.
    pub fn dma_context(&self) -> (r: &D)
        ensures
            *r == self.dma,
    {
        &self.dma
    }

    /// Return retained trace events, oldest first.
    pub fn trace_entries(&self) -> (r: &[AvdTraceEvent])
        ensures
            r@ == self.trace@.entries,
    {
        self.trace.entries()
    }

    /// Clear retained trace events.
    pub fn clear_trace(&mut self)
        requires
            old(self).wf(),
        ensures
            final(self).same_device(*old(self)),
            final(self).wf(),
            final(self).view() == (AvdView {
                trace: TraceView { entries: Seq::empty(), ..old(self).trace@ },
                ..old(self).view()
            }),
    {
        self.trace.clear();
    }

    /// Append one trace event.
    pub fn record(&mut self, kind: AvdTraceKind, arg0: u64, arg1: u64)
        requires
            old(self).wf(),
        ensures
            final(self).same_device(*old(self)),
            final(self).wf(),
            final(self).view() == old(self).view().traced(kind, arg0, arg1),
    {
        self.trace.push(kind, arg0, arg1);
    }

    /// Return the name of the firmware's state.
    pub fn firmware_state_name(&self) -> (r: &'static str)
        ensures
            r@ == (match self.firmware_state {
                AvdFirmwareState::Missing => "missing"@,
                AvdFirmwareState::Staged => "staged"@,
                AvdFirmwareState::Running => "running"@,
                AvdFirmwareState::Faulted => "faulted"@,
            }),
    {
        match self.firmware_state {
            AvdFirmwareState::Missing => "missing",
            AvdFirmwareState::Staged => "staged",
            AvdFirmwareState::Running => "running",
            AvdFirmwareState::Faulted => "faulted",
        }
    }

    /// Return the device-visible address of the firmware image: it is copied
    /// into the device and never mapped.
    pub fn firmware_dma_addr(&self) -> (r: Option<u64>)
        ensures
            r is None,
    {
        None
    }

    /// Return the size of the image that was started.
    pub fn firmware_image_size(&self) -> (r: Option<usize>)
        ensures
            r == self.firmware_image,
    {
        self.firmware_image
    }

    /// Return a snapshot of the status registers.
    pub fn debug_snapshot<M: Mmio>(&self, bus: &mut Bus<M>) -> (r: AvdStatusSnapshot)
        requires
            self.wf(),
        ensures
            final(bus).ops() == old(bus).ops() + seq![
                rd(self.registers.base, 0x1098090, r.status),
                rd(self.registers.base, 0x1098048, r.irq_status),
                rd(self.registers.base, 0x109805c, r.mailbox),
            ],
    {
        self.registers.snapshot(bus)
    }

    /// Bring the H.264 engine to its defaults.
    pub fn init_h264_engine<M: Mmio>(&mut self, bus: &mut Bus<M>)
        requires
            old(self).wf(),
        ensures
            final(self).same_device(*old(self)),
            final(self).wf(),
            final(self).view() == old(self).view().traced(AvdTraceKind::Firmware, 0x1104_0000, 0),
            final(bus).ops() == old(bus).ops() + engine_ops(old(self).registers.base),
    {
        self.registers.init_h264_engine(bus);
        self.trace.push(AvdTraceKind::Firmware, 0x1104_0000, 0);
    }

    /// Switches power on where it is off and resets the decoder.
    pub fn reset_hardware<M: Mmio, P: AvdPlatform>(
        &mut self,
        bus: &mut Bus<M>,
        port: &mut AvdPort<P>,
    ) -> (r: Result<(), AvdError>)
        requires
            old(self).wf(),
        ensures
            final(self).wf(),
            exists|q: ResetReplies| #[trigger]
                was_reset(
                    &*old(self),
                    &*final(self),
                    (old(bus).ops(), final(bus).ops()),
                    (old(port).log(), final(port).log()),
                    r,
                    q,
                ),
    {
        let ghost before = *self;
        let ghost ops = bus.ops();
        let ghost calls = port.log();
        let ghost mut q = ResetReplies { on: true, enabled: Ok(()), reset: Ok(()) };
        if self.has_power {
            let on = port.power_is_on();
            proof {
                q = ResetReplies { on, ..q };
            }
            if !on {
                let enabled = port.power_enable();
                proof {
                    q = ResetReplies { enabled, ..q };
                }
                if let Err(message) = enabled {
                    let r: Result<(), AvdError> = Err(AvdError::Platform(message));
                    proof {
                        assert(bus.ops() =~= ops + reset_ops(
                            before.has_power,
                            before.has_reset,
                            q,
                        ));
                        assert(port.log() =~= calls + reset_calls(
                            before.has_power,
                            before.has_reset,
                            q,
                        ));
                        assert(was_reset(
                            &before,
                            &*self,
                            (ops, bus.ops()),
                            (calls, port.log()),
                            r,
                            q,
                        ));
                    }
                    return r;
                }
                bus.udelay(10);
            }
        }
        if self.has_reset {
            let reset = port.reset();
            proof {
                q = ResetReplies { reset, ..q };
            }
            if let Err(message) = reset {
                let r: Result<(), AvdError> = Err(AvdError::Platform(message));
                proof {
                    assert(bus.ops() =~= ops + reset_ops(before.has_power, before.has_reset, q));
                    assert(port.log() =~= calls + reset_calls(
                        before.has_power,
                        before.has_reset,
                        q,
                    ));
                    assert(was_reset(
                        &before,
                        &*self,
                        (ops, bus.ops()),
                        (calls, port.log()),
                        r,
                        q,
                    ));
                }
                return r;
            }
            bus.udelay(10);
        }
        self.firmware_state = AvdFirmwareState::Missing;
        self.trace.push(AvdTraceKind::Firmware, 0, 0);
        let r: Result<(), AvdError> = Ok(());
        proof {
            assert(bus.ops() =~= ops + reset_ops(before.has_power, before.has_reset, q));
            assert(port.log() =~= calls + reset_calls(before.has_power, before.has_reset, q));
            assert(was_reset(&before, &*self, (ops, bus.ops()), (calls, port.log()), r, q));
        }
        r
    }

    /// Poll one firmware mailbox message; an empty mailbox reads as zero.
    pub fn poll_firmware_message<M: Mmio>(&mut self, bus: &mut Bus<M>) -> (r: Option<
        AvdFirmwareMessage,
    >)
        requires
            old(self).wf(),
        ensures
            final(self).wf(),
            exists|raw: u32| #[trigger]
                polled(
                    &*old(self),
                    &*final(self),
                    (old(bus).ops(), final(bus).ops()),
                    r,
                    raw,
                ),
    {
        let ghost before = *self;
        let ghost ops = bus.ops();
        let raw: u32 = self.registers.recv_mailbox(bus);
        if raw == 0 {
            let r: Option<AvdFirmwareMessage> = None;
            proof {
                assert(bus.ops() =~= ops + poll_ops(before.registers.base, raw));
                assert(polled(&before, &*self, (ops, bus.ops()), r, raw));
            }
            return r;
        }
        let message = AvdFirmwareMessage::decode(raw, self.vp_error);
        self.registers.clear_recv_mailbox(bus);
        self.trace.push(AvdTraceKind::MailboxRx, raw as u64, 0);
        if message.is_completion() {
            self.trace.push(AvdTraceKind::DecodeComplete, raw as u64, 0);
        } else {
            self.firmware_state = AvdFirmwareState::Faulted;
            self.trace.push(AvdTraceKind::Fault, raw as u64, 0);
        }
        let r = Some(message);
        proof {
            assert(bus.ops() =~= ops + poll_ops(before.registers.base, raw));
            assert(polled(&before, &*self, (ops, bus.ops()), r, raw));
        }
        r
    }

    /// Brings the hardware up with the coprocessor held in reset and places the
    /// image.
    fn prepare_for_firmware<M: Mmio>(&mut self, bus: &mut Bus<M>, image: &[u8])
        requires
            old(self).wf(),
            image@.len() <= 0xc000,
        ensures
            final(self).wf(),
            final(self).same_device(*old(self)),
            final(self).view() == old(self).view().in_state(AvdFirmwareState::Staged).traced(
                AvdTraceKind::Firmware,
                0x1080000,
                image@.len() as u64,
            ),
            final(bus).ops() == old(bus).ops() + prepare_ops(old(self).registers.base, image@),
    {
        let ghost start = bus.ops();
        self.registers.init_hardware(bus);
        self.registers.hold_cm3_in_reset(bus);
        let staged = self.registers.stage_firmware_image(bus, image);
        assert(staged);
        self.registers.clear_recv_mailbox(bus);
        assert(bus.ops() =~= start + prepare_ops(self.registers.base, image@));
        self.firmware_state = AvdFirmwareState::Staged;
        self.trace.push(AvdTraceKind::Firmware, REG_MCPU_CODE as u64, image.len() as u64);
    }

    /// Lets the coprocessor run.
    fn start_firmware<M: Mmio>(&mut self, bus: &mut Bus<M>) -> (r: Result<(), AvdError>)
        requires
            old(self).wf(),
        ensures
            final(self).wf(),
            final(self).same_device(*old(self)),
            r is Err ==> r == Err::<(), AvdError>(AvdError::RunTimeout),
            final(self).view() == if r is Ok {
                old(self).view().in_state(AvdFirmwareState::Running).traced(
                    AvdTraceKind::Firmware,
                    1,
                    0,
                )
            } else {
                old(self).view().in_state(AvdFirmwareState::Faulted).traced(
                    AvdTraceKind::Fault,
                    0x1098_0090,
                    0,
                )
            },
            final(bus).ops() == old(bus).ops() + irq_enable_ops(old(self).registers.base, 2, 8)
                + run_ops(old(self).registers.base, r is Ok),
    {
        self.registers.enable_irqs(bus);
        if let Err(_) = self.registers.run_cm3(bus) {
            self.firmware_state = AvdFirmwareState::Faulted;
            self.trace.push(AvdTraceKind::Fault, 0x1098_0090, 0);
            return Err(AvdError::RunTimeout);
        }
        self.firmware_state = AvdFirmwareState::Running;
        self.trace.push(AvdTraceKind::Firmware, 1, 0);
        Ok(())
    }

    /// Stage and start a firmware image.
    pub fn boot_firmware<M: Mmio, P: AvdPlatform>(
        &mut self,
        bus: &mut Bus<M>,
        port: &mut AvdPort<P>,
        image: &[u8],
    ) -> (r: Result<(), AvdError>)
        requires
            old(self).wf(),
        ensures
            final(self).wf(),
            exists|q: BootReplies| #[trigger]
                booted(
                    &*old(self),
                    &*final(self),
                    image@,
                    (old(bus).ops(), final(bus).ops()),
                    (old(port).log(), final(port).log()),
                    r,
                    q,
                ),
    {
        let ghost before = *self;
        let ghost ops = bus.ops();
        let ghost calls = port.log();
        let ghost mut q = BootReplies {
            reset: ResetReplies { on: true, enabled: Ok(()), reset: Ok(()) },
            running: false,
            word: 0,
        };
        if let Err(error) = validate_firmware_image(image) {
            let r: Result<(), AvdError> = Err(AvdError::Image(error));
            proof {
                assert(bus.ops() =~= ops + boot_ops(&before, image@, q));
                assert(port.log() =~= calls + boot_calls(&before, image@, q));
                assert(booted(&before, &*self, image@, (ops, bus.ops()), (calls, port.log()), r, q));
            }
            return r;
        }
        let reset = self.reset_hardware(bus, port);
        proof {
            let w = choose|w: ResetReplies| #[trigger]
                was_reset(&before, &*self, (ops, bus.ops()), (calls, port.log()), reset, w);
            q = BootReplies { reset: w, ..q };
        }
        if let Err(error) = reset {
            let r: Result<(), AvdError> = Err(error);
            proof {
                assert(booted(&before, &*self, image@, (ops, bus.ops()), (calls, port.log()), r, q));
            }
            return r;
        }
        self.prepare_for_firmware(bus, image);
        let run = self.start_firmware(bus);
        proof {
            q = BootReplies { running: run is Ok, ..q };
        }
        if let Err(_) = run {
            let r: Result<(), AvdError> = Err(AvdError::RunTimeout);
            proof {
                assert(bus.ops() =~= ops + boot_ops(&before, image@, q));
                assert(booted(&before, &*self, image@, (ops, bus.ops()), (calls, port.log()), r, q));
            }
            return r;
        }
        self.firmware_image = Some(image.len());
        let ghost started = *self;
        let ghost started_ops = bus.ops();
        let message = self.poll_firmware_message(bus);
        proof {
            let w = choose|w: u32| #[trigger]
                polled(&started, &*self, (started_ops, bus.ops()), message, w);
            q = BootReplies { word: w, ..q };
            assert(bus.ops() =~= ops + boot_ops(&before, image@, q));
        }
        let r: Result<(), AvdError> = match message {
            Some(message) => if message.is_fault() {
                Err(AvdError::FirmwareFaulted)
            } else {
                Ok(())
            },
            None => Ok(()),
        };
        proof {
            assert(booted(&before, &*self, image@, (ops, bus.ops()), (calls, port.log()), r, q));
        }
        r
    }

    /// Ensure the firmware is running before a hardware decode is submitted.
    pub fn ensure_firmware_running<M: Mmio, P: AvdPlatform>(
        &mut self,
        bus: &mut Bus<M>,
        port: &mut AvdPort<P>,
        image: &[u8],
    ) -> (r: Result<(), AvdError>)
        requires
            old(self).wf(),
        ensures
            final(self).wf(),
            firmware_ensured(
                &*old(self),
                &*final(self),
                image@,
                (old(bus).ops(), final(bus).ops()),
                (old(port).log(), final(port).log()),
                r,
            ),
    {
        if self.firmware_state == AvdFirmwareState::Running {
            return Ok(());
        }
        if self.firmware_state == AvdFirmwareState::Faulted {
            return Err(AvdError::FirmwareFaultedBefore);
        }
        let ghost before = *self;
        let ghost ops = bus.ops();
        let ghost calls = port.log();
        self.init_h264_engine(bus);
        let ghost ready = *self;
        let ghost ready_ops = bus.ops();
        let r = self.boot_firmware(bus, port, image);
        proof {
            let q = choose|q: BootReplies| #[trigger]
                booted(
                    &ready,
                    &*self,
                    image@,
                    (ready_ops, bus.ops()),
                    (calls, port.log()),
                    r,
                    q,
                );
            assert(engine_ready(&before, &ready));
            assert(booted_from(
                &before,
                &ready,
                &*self,
                image@,
                (ops, bus.ops()),
                (calls, port.log()),
                r,
                q,
            ));
        }
        r
    }

    /// Submit a request to the firmware mailbox, as the command that the
    /// mailbox protocol encodes it to.
    pub fn submit_h264_request<M: Mmio>(
        &mut self,
        bus: &mut Bus<M>,
        request: &H264DecodeRequest,
        command: AvdFirmwareCommand,
    ) -> (r: Result<u32, AvdError>)
        requires
            old(self).wf(),
        ensures
            final(self).wf(),
            final(self).same_device(*old(self)),
            if old(self).firmware_state != AvdFirmwareState::Running {
                &&& r == Err::<u32, AvdError>(AvdError::FirmwareNotRunning)
                &&& final(self).view() == old(self).view()
                &&& final(bus).ops() == old(bus).ops()
            } else {
                &&& r == Ok::<u32, AvdError>(command.tag)
                &&& final(self).view() == old(self).view().traced(
                    AvdTraceKind::DecodeSubmit,
                    request.session_id,
                    request.frame_number as u64,
                ).traced(AvdTraceKind::MailboxTx, command.raw as u64, command.tag as u64)
                &&& final(bus).ops() == old(bus).ops().push(
                    wr(old(self).registers.base, 0x1098054, command.raw),
                )
            },
    {
        if self.firmware_state != AvdFirmwareState::Running {
            return Err(AvdError::FirmwareNotRunning);
        }
        self.registers.send_mailbox(bus, command.raw);
        self.trace.push(
            AvdTraceKind::DecodeSubmit,
            request.session_id,
            request.frame_number as u64,
        );
        self.trace.push(AvdTraceKind::MailboxTx, command.raw as u64, command.tag as u64);
        Ok(command.tag)
    }

    /// Submit an instruction stream to the engine. Returns the status register
    /// as it was immediately before.
    pub fn submit_h264_mmio<M: Mmio>(
        &mut self,
        bus: &mut Bus<M>,
        request: &H264DecodeRequest,
        instructions: &AvdH264InstructionStream,
    ) -> (r: Result<u32, AvdError>)
        requires
            old(self).wf(),
            instructions.wf(),
        ensures
            final(self).wf(),
            final(self).same_device(*old(self)),
            ({
                let all = instructions.emitted();
                let words = all.take(kept(all.len() as int, 1024));
                if words.len() == 0 {
                    &&& r == Err::<u32, AvdError>(AvdError::EmptyInstructionStream)
                    &&& final(self).view() == old(self).view()
                    &&& final(bus).ops() == old(bus).ops()
                } else {
                    &&& r is Ok
                    &&& final(self).view() == old(self).view().traced(
                        AvdTraceKind::DecodeSubmit,
                        request.input.dma_addr,
                        words.len() as u64,
                    )
                    &&& final(bus).ops() == old(bus).ops() + submit_ops(
                        old(self).registers.base,
                        words,
                        r->Ok_0,
                    )
                }
            }),
    {
        let words = instructions.words();
        if words.len() == 0 {
            return Err(AvdError::EmptyInstructionStream);
        }
        let ghost ops = bus.ops();
        self.registers.write_h264_instructions(bus, words);
        self.registers.clear_h264_status(bus, H264_STATUS_CLEAR);
        let status_before: u32 = self.registers.h264_status(bus);
        self.registers.submit_h264(bus);
        self.trace.push(AvdTraceKind::DecodeSubmit, request.input.dma_addr, words.len() as u64);
        assert(bus.ops() =~= ops + submit_ops(self.registers.base, words@, status_before));
        Ok(status_before)
    }

    /// Return the current H.264 status register.
    pub fn h264_status<M: Mmio>(&self, bus: &mut Bus<M>) -> (value: u32)
        requires
            self.wf(),
        ensures
            final(bus).ops() == old(bus).ops().push(rd(self.registers.base, 0x1104060, value)),
    {
        self.registers.h264_status(bus)
    }

    /// Clear the engine's status and bring it to its defaults after an error.
    pub fn recover_h264_engine<M: Mmio>(&mut self, bus: &mut Bus<M>, reason: u64)
        requires
            old(self).wf(),
        ensures
            final(self).wf(),
            final(self).same_device(*old(self)),
            final(self).view() == recovered(old(self).view(), reason),
            final(bus).ops() == old(bus).ops() + recover_ops(old(self).registers.base),
    {
        let ghost ops = bus.ops();
        self.trace.push(AvdTraceKind::Fault, reason, 0);
        self.registers.clear_h264_status(bus, H264_STATUS_CLEAR);
        self.registers.init_h264_engine(bus);
        self.registers.clear_recv_mailbox(bus);
        self.trace.push(AvdTraceKind::Firmware, 0x1104_0000, 1);
        assert(bus.ops() =~= ops + recover_ops(self.registers.base));
    }

    /// First contact with a decoder: its status is noted, its interrupts are
    /// masked, the coprocessor is held in reset, and the firmware is started.
    pub fn bring_up<M: Mmio, P: AvdPlatform>(
        &mut self,
        bus: &mut Bus<M>,
        port: &mut AvdPort<P>,
        image: &[u8],
    ) -> (r: (AvdStatusSnapshot, Result<(), AvdError>))
        requires
            old(self).wf(),
        ensures
            final(self).wf(),
            brought_up(
                &*old(self),
                &*final(self),
                image@,
                (old(bus).ops(), final(bus).ops()),
                (old(port).log(), final(port).log()),
                r.0,
                r.1,
            ),
    {
        let ghost before = *self;
        let ghost ops = bus.ops();
        let ghost calls = port.log();
        let snapshot = self.registers.snapshot(bus);
        self.trace.push(AvdTraceKind::Probe, self.paddr as u64, self.size as u64);
        self.registers.mask_irqs(bus);
        self.registers.hold_cm3_in_reset(bus);
        let ghost ready = *self;
        let ghost ready_ops = bus.ops();
        assert(ready_ops =~= ops + contact_ops(before.registers.base, snapshot));
        let r = self.boot_firmware(bus, port, image);
        proof {
            let q = choose|q: BootReplies| #[trigger]
                booted(
                    &ready,
                    &*self,
                    image@,
                    (ready_ops, bus.ops()),
                    (calls, port.log()),
                    r,
                    q,
                );
            assert(contacted(&before, &ready));
            assert(brought_up_from(
                &before,
                &ready,
                &*self,
                image@,
                (ops, bus.ops()),
                (calls, port.log()),
                snapshot,
                r,
                q,
            ));
        }
        (snapshot, r)
    }
}

/// The engine was brought to its defaults and nothing else changed.
pub open spec fn engine_ready<D>(before: &AppleAvd<D>, ready: &AppleAvd<D>) -> bool {
    &&& ready.same_device(*before)
    &&& ready.view() == before.view().traced(AvdTraceKind::Firmware, 0x1104_0000, 0)
}

/// A firmware start behind the engine's bring-up.
pub open spec fn booted_from<D>(
    before: &AppleAvd<D>,
    ready: &AppleAvd<D>,
    after: &AppleAvd<D>,
    image: Seq<u8>,
    ops: (Seq<Op>, Seq<Op>),
    calls: (Seq<PlatformCall>, Seq<PlatformCall>),
    r: Result<(), AvdError>,
    q: BootReplies,
) -> bool {
    &&& engine_ready(before, ready)
    &&& booted(
        ready,
        after,
        image,
        (ops.0 + engine_ops(before.registers.base), ops.1),
        calls,
        r,
        q,
    )
}

/// The engine was brought up and the firmware start was tried.
pub open spec fn ensured<D>(
    before: &AppleAvd<D>,
    after: &AppleAvd<D>,
    image: Seq<u8>,
    ops: (Seq<Op>, Seq<Op>),
    calls: (Seq<PlatformCall>, Seq<PlatformCall>),
    r: Result<(), AvdError>,
) -> bool {
    exists|ready: &AppleAvd<D>, q: BootReplies| #[trigger]
        booted_from(before, ready, after, image, ops, calls, r, q)
}

/// What ensuring that the firmware runs does: nothing where it runs already,
/// nothing but an error where it has faulted, else a start.
pub open spec fn firmware_ensured<D>(
    before: &AppleAvd<D>,
    after: &AppleAvd<D>,
    image: Seq<u8>,
    ops: (Seq<Op>, Seq<Op>),
    calls: (Seq<PlatformCall>, Seq<PlatformCall>),
    r: Result<(), AvdError>,
) -> bool {
    match before.firmware_state {
        AvdFirmwareState::Running => {
            &&& r == Ok::<(), AvdError>(())
            &&& *after == *before
            &&& ops.1 == ops.0
            &&& calls.1 == calls.0
        },
        AvdFirmwareState::Faulted => {
            &&& r == Err::<(), AvdError>(AvdError::FirmwareFaultedBefore)
            &&& *after == *before
            &&& ops.1 == ops.0
            &&& calls.1 == calls.0
        },
        _ => ensured(before, after, image, ops, calls, r),
    }
}

/// The accesses of first contact.
pub open spec fn contact_ops(base: usize, snapshot: AvdStatusSnapshot) -> Seq<Op> {
    seq![
        rd(base, 0x1098090, snapshot.status),
        rd(base, 0x1098048, snapshot.irq_status),
        rd(base, 0x109805c, snapshot.mailbox),
    ] + irq_enable_ops(base, 0, 0) + hold_ops(base)
}

/// The contact was noted and nothing else changed.
pub open spec fn contacted<D>(before: &AppleAvd<D>, ready: &AppleAvd<D>) -> bool {
    &&& ready.same_device(*before)
    &&& ready.view() == before.view().traced(
        AvdTraceKind::Probe,
        before.paddr as u64,
        before.size as u64,
    )
}

/// A firmware start behind first contact.
pub open spec fn brought_up_from<D>(
    before: &AppleAvd<D>,
    ready: &AppleAvd<D>,
    after: &AppleAvd<D>,
    image: Seq<u8>,
    ops: (Seq<Op>, Seq<Op>),
    calls: (Seq<PlatformCall>, Seq<PlatformCall>),
    snapshot: AvdStatusSnapshot,
    r: Result<(), AvdError>,
    q: BootReplies,
) -> bool {
    &&& contacted(before, ready)
    &&& booted(
        ready,
        after,
        image,
        (ops.0 + contact_ops(before.registers.base, snapshot), ops.1),
        calls,
        r,
        q,
    )
}

/// First contact was made and the firmware start was tried.
pub open spec fn brought_up<D>(
    before: &AppleAvd<D>,
    after: &AppleAvd<D>,
    image: Seq<u8>,
    ops: (Seq<Op>, Seq<Op>),
    calls: (Seq<PlatformCall>, Seq<PlatformCall>),
    snapshot: AvdStatusSnapshot,
    r: Result<(), AvdError>,
) -> bool {
    exists|ready: &AppleAvd<D>, q: BootReplies| #[trigger]
        brought_up_from(before, ready, after, image, ops, calls, snapshot, r, q)
}

/// The accesses of a submission that found `status`.
pub open spec fn submit_ops(base: usize, words: Seq<u32>, status: u32) -> Seq<Op> {
    instruction_ops(base, words) + seq![
        wr(base, 0x1104060, 0x0084_210b),
        rd(base, 0x1104060, status),
        wr(base, 0x1104014, 0x2b00_0107),
    ]
}

/// The accesses of a recovery.
pub open spec fn recover_ops(base: usize) -> Seq<Op> {
    seq![wr(base, 0x1104060, 0x0084_210b)] + engine_ops(base) + clear_mailbox_ops(base)
}

/// A decoder behind a recovery.
pub open spec fn recovered(s: AvdView, reason: u64) -> AvdView {
    s.traced(AvdTraceKind::Fault, reason, 0).traced(AvdTraceKind::Firmware, 0x1104_0000, 1)
}

/// The register aperture of a device, where it is described and not empty.
pub fn probe_mmio(resources: &[Resource]) -> (r: Result<(usize, usize), AvdError>)
    ensures
        r == (match first_of(resources@, ResourceKind::Mem, 0) {
            None => Err::<(usize, usize), AvdError>(AvdError::MissingMmio),
            Some(m) => match span(m) {
                None => Err(AvdError::EmptyMmio),
                Some(n) => Ok((m.start, n as usize)),
            },
        }),
{
    match first_mem_resource(resources) {
        None => Err(AvdError::MissingMmio),
        Some((paddr, size)) => if size == 0 {
            Err(AvdError::EmptyMmio)
        } else {
            Ok((paddr, size))
        },
    }
}

/// The physical addresses of a property of big-endian double words.
pub fn read_be_u64_cells(bytes: &[u8]) -> (r: Result<Vec<usize>, AvdError>)
    ensures
        if bytes@.len() % 8 != 0 {
            r is Err && r->Err_0 == AvdError::MalformedClockGates
        } else if exists|i: int|
            0 <= i < bytes@.len() / 8 && #[trigger] from_be64(bytes@, 8 * i) > usize::MAX {
            r is Err && r->Err_0 == AvdError::ClockGateOutOfRange
        } else {
            r is Ok && r->Ok_0@.len() == bytes@.len() / 8 && forall|i: int|
                0 <= i < bytes@.len() / 8 ==> #[trigger] r->Ok_0@[i] == from_be64(bytes@, 8 * i)
        },
{
    if bytes.len() % 8 != 0 {
        return Err(AvdError::MalformedClockGates);
    }
    let total: usize = bytes.len();
    let mut out: Vec<usize> = Vec::new();
    let mut i: usize = 0;
    while i < total / 8
        invariant
            total == bytes@.len(),
            total % 8 == 0,
            i <= total / 8,
            out@.len() == i,
            forall|k: int| 0 <= k < i ==> #[trigger] out@[k] == from_be64(bytes@, 8 * k),
            forall|k: int| 0 <= k < i ==> #[trigger] from_be64(bytes@, 8 * k) <= usize::MAX,
        decreases total / 8 - i,
    {
        let raw: u64 = read_be_u64(bytes, 8 * i).unwrap();
        assert(raw == from_be64(bytes@, 8 * (i as int)));
        if raw > usize::MAX as u64 {
            return Err(AvdError::ClockGateOutOfRange);
        }
        out.push(raw as usize);
        i = i + 1;
    }
    Ok(out)
}

/// What the failure of one clock gate means: a missing registry defers the
/// probe, an unknown register is an error of its own, anything else is passed
/// on.
pub open spec fn gate_failure(message: Seq<char>, raw: &'static str) -> AvdError {
    if message == "pmgr: registry not initialized"@ {
        AvdError::ProbeDeferred
    } else if message == "pmgr: register paddr not found"@ {
        AvdError::ClockGateMissing
    } else {
        AvdError::Platform(raw)
    }
}

/// The calls that enabled the first gates of a list.
pub open spec fn gates_opened(paddrs: Seq<usize>) -> Seq<PlatformCall> {
    Seq::new(paddrs.len(), |i: int| PlatformCall::GateEnable(paddrs[i], Ok(())))
}

/// Gates were enabled in order up to the first failure.
pub open spec fn gates_walked(
    before: Seq<PlatformCall>,
    after: Seq<PlatformCall>,
    paddrs: Seq<usize>,
    r: Result<(), AvdError>,
) -> bool {
    &&& r is Ok ==> after == before + gates_opened(paddrs)
    &&& r is Err ==> exists|n: int, message: &'static str| #[trigger]
        gate_stopped(before, after, paddrs, r->Err_0, n, message)
}

/// Clock gate number `n` was the first that failed.
pub open spec fn gate_stopped(
    before: Seq<PlatformCall>,
    after: Seq<PlatformCall>,
    paddrs: Seq<usize>,
    e: AvdError,
    n: int,
    message: &'static str,
) -> bool {
    &&& 0 <= n < paddrs.len()
    &&& after == (before + gates_opened(paddrs.take(n))).push(
        PlatformCall::GateEnable(paddrs[n], Err(message)),
    )
    &&& e == gate_failure(message@, message)
}

/// Enables the clock gates that firmware lists for the decoder, in order.
pub fn enable_adt_pmgr_clock_gates<P: AvdPlatform>(
    port: &mut AvdPort<P>,
    paddrs: &[usize],
) -> (r: Result<(), AvdError>)
    ensures
        gates_walked(old(port).log(), final(port).log(), paddrs@, r),
{
    let ghost before = port.log();
    let mut i: usize = 0;
    while i < paddrs.len()
        invariant
            i <= paddrs@.len(),
            before == old(port).log(),
            port.log() == before + gates_opened(paddrs@.take(i as int)),
        decreases paddrs@.len() - i,
    {
        let paddr: usize = paddrs[i];
        let opened = port.gate_enable(paddr);
        if let Err(message) = opened {
            let error = if same_text(message, "pmgr: registry not initialized") {
                AvdError::ProbeDeferred
            } else if same_text(message, "pmgr: register paddr not found") {
                AvdError::ClockGateMissing
            } else {
                AvdError::Platform(message)
            };
            let r: Result<(), AvdError> = Err(error);
            proof {
                assert(gate_stopped(
                    before,
                    port.log(),
                    paddrs@,
                    r->Err_0,
                    i as int,
                    message,
                ));
                assert(gates_walked(before, port.log(), paddrs@, r));
            }
            return r;
        }
        proof {
            match opened {
                Ok(unit) => assert(opened == Ok::<(), &'static str>(())),
                Err(_) => {},
            }
        }
        assert(port.log() =~= before + gates_opened(paddrs@.take(i + 1)));
        i = i + 1;
    }
    assert(paddrs@.take(paddrs@.len() as int) =~= paddrs@);
    Ok(())
}

/// Whether a decoder has a reset line: one that is not described is done
/// without, one that is not there yet defers the probe.
pub fn resolve_avd_reset(found: Result<(), &'static str>, deferred: bool) -> (r: Result<
    bool,
    AvdError,
>)
    ensures
        r == (match found {
            Ok(_) => Ok::<bool, AvdError>(true),
            Err(message) => if deferred {
                Err(AvdError::ProbeDeferred)
            } else if message@ == "reset: resets missing"@ || message@
                == "reset: index out of range"@ {
                Ok(false)
            } else {
                Err(AvdError::Platform(message))
            },
        }),
{
    match found {
        Ok(_) => Ok(true),
        Err(message) => if deferred {
            Err(AvdError::ProbeDeferred)
        } else if same_text(message, "reset: resets missing") || same_text(
            message,
            "reset: index out of range",
        ) {
            Ok(false)
        } else {
            Err(AvdError::Platform(message))
        },
    }
}

/// Whether a decoder has a power domain, from the lookup by label and, where
/// that found one, from switching it on.
pub fn resolve_avd_power_domain(
    found: Result<(), &'static str>,
    enabled: Result<(), &'static str>,
) -> (r: Result<bool, AvdError>)
    ensures
        r == (match found {
            Ok(_) => match enabled {
                Ok(_) => Ok::<bool, AvdError>(true),
                Err(message) => Err(AvdError::Platform(message)),
            },
            Err(message) => if message@ == "pmgr: registry not initialized"@ {
                Err(AvdError::ProbeDeferred)
            } else if message@ == "pmgr: domain label not found"@ {
                Ok(false)
            } else {
                Err(AvdError::Platform(message))
            },
        }),
{
    match found {
        Ok(_) => match enabled {
            Ok(_) => Ok(true),
            Err(message) => Err(AvdError::Platform(message)),
        },
        Err(message) => if same_text(message, "pmgr: registry not initialized") {
            Err(AvdError::ProbeDeferred)
        } else if same_text(message, "pmgr: domain label not found") {
            Ok(false)
        } else {
            Err(AvdError::Platform(message))
        },
    }
}

/// Adds a decoder to the list of instances and returns its index.
pub fn register_avd<D>(registry: &mut Vec<AppleAvd<D>>, avd: AppleAvd<D>) -> (id: u32)
    requires
        old(registry)@.len() <= u32::MAX,
    ensures
        id == old(registry)@.len(),
        final(registry)@ == old(registry)@.push(avd),
{
    let id: u32 = registry.len() as u32;
    registry.push(avd);
    id
}

/// Return a registered decoder by index.
pub fn get_apple_avd<D>(registry: &Vec<AppleAvd<D>>, id: u32) -> (r: Option<&AppleAvd<D>>)
    ensures
        r == if id < registry@.len() {
            Some(&registry@[id as int])
        } else {
            None
        },
{
    let at: usize = id as usize;
    if at < registry.len() {
        Some(&registry[at])
    } else {
        None
    }
}

/// A start that succeeds leaves the firmware running; one that fails behind
/// the reset leaves it faulted.
pub proof fn boot_decides_the_state<D>(avd: &AppleAvd<D>, image: Seq<u8>, q: BootReplies)
    ensures
        boot_result(avd, image, q) is Ok ==> after_boot(avd, image, q).state
            == AvdFirmwareState::Running && after_boot(avd, image, q).image == Some(
            image.len() as usize,
        ),
        boot_result(avd, image, q) is Err && image_check(image) is Ok && reset_result(
            avd.has_power,
            avd.has_reset,
            q.reset,
        ) is Ok ==> after_boot(avd, image, q).state == AvdFirmwareState::Faulted,
{
}

/// An image that the driver accepts fits the coprocessor's code window.
pub proof fn accepted_images_fit(image: Seq<u8>)
    requires
        image_check(image) is Ok,
    ensures
        8 <= image.len() <= 0xc000,
{
}

} // verus!
