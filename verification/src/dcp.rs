//! Display coprocessor: panel modes, surfaces and double buffering.

use crate::arith::{ceil_div, ceil_div_counts, div_ceil_u64};
use crate::bus::{append_assoc, Bus, Mmio, Op};
use crate::bytes::{
    from_be32, from_be64, from_le32, from_le64, le32, le64, push_bytes, push_le32, push_le64,
    push_zeros, read_be_u32, read_be_u64, read_le32, read_le64,
};
use crate::dart::{
    mapped_range, page_count, translate_ops, unmap_ok, unmap_ops, unmapped_with, DartError,
    DartInstance, DartPageTable, Descent,
};
use crate::devicetree::{
    all_nodes, child_named, children, compatible_with, find_top_node, first_value,
    last_value, node_contents, property, texts_in, tree_contents, NodeView,
};
use crate::epic::zeros;
use crate::memory::{
    bytes_at, faithful, memory_after, memory_append, memory_push, sees, stored, Memory,
};
use crate::platform::FrameSource;
use fdt::Fdt;
use crate::ports::display::{IbootCall, IbootPort, IbootTransport};
use vstd::prelude::*;

verus! {

pub const DCP_IBOOT_EP: u8 = 0x23;

pub const DCP_IBOOT_SUBTYPE: u16 = 0xc0;

pub const DCP_SERVICE_TIMEOUT_US: u64 = 5_000_000;

pub const DCP_STATUS_RETRIES: u32 = 20;

pub const DCP_STATUS_RETRY_US: u64 = 100_000;

pub const DCP_DYNAMIC_IOVA_BASE: u64 = 0x3000_0000;

pub const DCP_SCANOUT_IOVA_BASE: u64 = 0x4000_0000;

pub const DCP_DART_FLAGS: u64 = 1;

pub const IBOOT_SET_SURFACE: u32 = 1;

pub const IBOOT_SET_POWER: u32 = 2;

pub const IBOOT_GET_HPD: u32 = 3;

pub const IBOOT_GET_TIMING_MODES: u32 = 4;

pub const IBOOT_GET_COLOR_MODES: u32 = 5;

pub const IBOOT_SET_MODE: u32 = 6;

pub const IBOOT_SWAP_BEGIN: u32 = 15;

pub const IBOOT_SWAP_SET_LAYER: u32 = 16;

pub const IBOOT_SWAP_END: u32 = 18;

pub const SURFACE_FMT_BGRA8888: u32 = 1;

pub const ADDR_FORMAT_PLANAR: u32 = 1;

pub const COLORSPACE_DISPLAY_P3: u32 = 2;

pub const EOTF_GAMMA_SDR: u32 = 1;

/// Highest refresh rate that is preferred, in 1/65536 Hz.
pub const PREFERRED_FPS: u32 = 0x3c_0000;

/// Why a display request failed.
#[derive(Clone, Copy, Debug)]
pub enum DcpError {
    CommandTooLarge,
    ShortReply,
    BadReplyLength,
    ShortStatus,
    MissingTimingCount,
    TruncatedTimings,
    MissingColorCount,
    TruncatedColors,
    NotConnected,
    NoTiming,
    NoColor,
    SurfaceMismatch,
    BadScanoutIndex,
    AlreadyFront,
    ScanoutOverflow,
    NoReservedMemory,
    NoHandoff,
    /// A handoff range reaches beyond the address space.
    HandoffOverflow,
    /// A page table could not be extended.
    Table(DartError),
    /// The transport failed with this message.
    Transport(&'static str),
}

impl DcpError {
    /// The message as contracts speak of it.
    pub open spec fn text(self) -> Seq<char> {
        match self {
            DcpError::CommandTooLarge => "apple-dcp: iBoot command too large"@,
            DcpError::ShortReply => "apple-dcp: short iBoot reply"@,
            DcpError::BadReplyLength => "apple-dcp: invalid iBoot reply length"@,
            DcpError::ShortStatus => "apple-dcp: short display status reply"@,
            DcpError::MissingTimingCount => "apple-dcp: missing timing count"@,
            DcpError::TruncatedTimings => "apple-dcp: truncated timing modes"@,
            DcpError::MissingColorCount => "apple-dcp: missing color count"@,
            DcpError::TruncatedColors => "apple-dcp: truncated color modes"@,
            DcpError::NotConnected => "apple-dcp: internal panel is not connected"@,
            DcpError::NoTiming => "apple-dcp: no usable timing mode"@,
            DcpError::NoColor => "apple-dcp: no usable color mode"@,
            DcpError::SurfaceMismatch => "apple-dcp: framebuffer does not match render surface"@,
            DcpError::BadScanoutIndex => "apple-dcp: invalid scanout buffer index"@,
            DcpError::AlreadyFront => "apple-dcp: scanout buffer is already front-most"@,
            DcpError::ScanoutOverflow => "apple-dcp: scanout size overflow"@,
            DcpError::NoReservedMemory => "apple-dcp: reserved-memory missing"@,
            DcpError::NoHandoff => "apple-dcp: no firmware handoff mappings"@,
            DcpError::HandoffOverflow => "apple-dcp: handoff range out of reach"@,
            DcpError::Table(error) => error.text(),
            DcpError::Transport(message) => message@,
        }
    }

    /// The message for the kernel log.
    pub fn message(self) -> (r: &'static str)
        ensures
            r@ == self.text(),
    {
        match self {
            DcpError::CommandTooLarge => "apple-dcp: iBoot command too large",
            DcpError::ShortReply => "apple-dcp: short iBoot reply",
            DcpError::BadReplyLength => "apple-dcp: invalid iBoot reply length",
            DcpError::ShortStatus => "apple-dcp: short display status reply",
            DcpError::MissingTimingCount => "apple-dcp: missing timing count",
            DcpError::TruncatedTimings => "apple-dcp: truncated timing modes",
            DcpError::MissingColorCount => "apple-dcp: missing color count",
            DcpError::TruncatedColors => "apple-dcp: truncated color modes",
            DcpError::NotConnected => "apple-dcp: internal panel is not connected",
            DcpError::NoTiming => "apple-dcp: no usable timing mode",
            DcpError::NoColor => "apple-dcp: no usable color mode",
            DcpError::SurfaceMismatch => "apple-dcp: framebuffer does not match render surface",
            DcpError::BadScanoutIndex => "apple-dcp: invalid scanout buffer index",
            DcpError::AlreadyFront => "apple-dcp: scanout buffer is already front-most",
            DcpError::ScanoutOverflow => "apple-dcp: scanout size overflow",
            DcpError::NoReservedMemory => "apple-dcp: reserved-memory missing",
            DcpError::NoHandoff => "apple-dcp: no firmware handoff mappings",
            DcpError::HandoffOverflow => "apple-dcp: handoff range out of reach",
            DcpError::Table(error) => error.message(),
            DcpError::Transport(message) => message,
        }
    }
}

/// A panel timing.
#[derive(Clone, Copy, Debug, PartialEq, Eq, Structural)]
pub struct DcpTimingMode {
    pub valid: u32,
    pub width: u32,
    pub height: u32,
    /// Refresh rate in 1/65536 Hz.
    pub fps: u32,
    pub pad: u64,
}

/// A panel color mode.
#[derive(Clone, Copy, Debug, PartialEq, Eq, Structural)]
pub struct DcpColorMode {
    pub valid: u32,
    pub colorimetry: u32,
    pub eotf: u32,
    pub encoding: u32,
    pub bpp: u32,
    pub pad: u32,
}

/// The 24 bytes of a timing.
pub open spec fn timing_bytes(m: DcpTimingMode) -> Seq<u8> {
    le32(m.valid) + le32(m.width) + le32(m.height) + le32(m.fps) + le64(m.pad)
}

/// The 24 bytes of a color mode.
pub open spec fn color_bytes(m: DcpColorMode) -> Seq<u8> {
    le32(m.valid) + le32(m.colorimetry) + le32(m.eotf) + le32(m.encoding) + le32(m.bpp) + le32(
        m.pad,
    )
}

/// The timing at an offset.
pub open spec fn timing_at(s: Seq<u8>, at: int) -> DcpTimingMode {
    DcpTimingMode {
        valid: from_le32(s, at) as u32,
        width: from_le32(s, at + 4) as u32,
        height: from_le32(s, at + 8) as u32,
        fps: from_le32(s, at + 12) as u32,
        pad: from_le64(s, at + 16) as u64,
    }
}

/// The color mode at an offset.
pub open spec fn color_at(s: Seq<u8>, at: int) -> DcpColorMode {
    DcpColorMode {
        valid: from_le32(s, at) as u32,
        colorimetry: from_le32(s, at + 4) as u32,
        eotf: from_le32(s, at + 8) as u32,
        encoding: from_le32(s, at + 12) as u32,
        bpp: from_le32(s, at + 16) as u32,
        pad: from_le32(s, at + 20) as u32,
    }
}

/// A mode that was read is written back with the same bytes.
pub proof fn modes_survive_the_round_trip(t: DcpTimingMode, c: DcpColorMode)
    ensures
        timing_bytes(t).len() == 24,
        timing_at(timing_bytes(t), 0) == t,
        color_bytes(c).len() == 24,
        color_at(color_bytes(c), 0) == c,
{
    let s = timing_bytes(t);
    crate::bytes::le32_round_trip(t.valid);
    crate::bytes::le32_round_trip(t.width);
    crate::bytes::le32_round_trip(t.height);
    crate::bytes::le32_round_trip(t.fps);
    crate::bytes::le64_round_trip(t.pad);
    assert(s.subrange(0, 4) =~= le32(t.valid));
    assert(s.subrange(4, 8) =~= le32(t.width));
    assert(s.subrange(8, 12) =~= le32(t.height));
    assert(s.subrange(12, 16) =~= le32(t.fps));
    assert(s.subrange(16, 24) =~= le64(t.pad));
    assert(from_le32(s, 0) == from_le32(s.subrange(0, 4), 0));
    assert(from_le32(s, 4) == from_le32(s.subrange(4, 8), 0));
    assert(from_le32(s, 8) == from_le32(s.subrange(8, 12), 0));
    assert(from_le32(s, 12) == from_le32(s.subrange(12, 16), 0));
    assert(from_le64(s, 16) == from_le64(s.subrange(16, 24), 0));
    let d = color_bytes(c);
    crate::bytes::le32_round_trip(c.valid);
    crate::bytes::le32_round_trip(c.colorimetry);
    crate::bytes::le32_round_trip(c.eotf);
    crate::bytes::le32_round_trip(c.encoding);
    crate::bytes::le32_round_trip(c.bpp);
    crate::bytes::le32_round_trip(c.pad);
    assert(d.subrange(0, 4) =~= le32(c.valid));
    assert(d.subrange(4, 8) =~= le32(c.colorimetry));
    assert(d.subrange(8, 12) =~= le32(c.eotf));
    assert(d.subrange(12, 16) =~= le32(c.encoding));
    assert(d.subrange(16, 20) =~= le32(c.bpp));
    assert(d.subrange(20, 24) =~= le32(c.pad));
    assert(from_le32(d, 0) == from_le32(d.subrange(0, 4), 0));
    assert(from_le32(d, 4) == from_le32(d.subrange(4, 8), 0));
    assert(from_le32(d, 8) == from_le32(d.subrange(8, 12), 0));
    assert(from_le32(d, 12) == from_le32(d.subrange(12, 16), 0));
    assert(from_le32(d, 16) == from_le32(d.subrange(16, 20), 0));
    assert(from_le32(d, 20) == from_le32(d.subrange(20, 24), 0));
}

/// Layout of pixels.
#[derive(Clone, Copy, Debug, PartialEq, Eq, Structural)]
pub enum PixelFormat {
    BGRA8888,
}

/// A framebuffer.
#[derive(Clone, Copy, Debug, PartialEq, Eq, Structural)]
pub struct FramebufferConfig {
    pub width: u32,
    pub height: u32,
    pub format: PixelFormat,
    /// Bytes from one row to the next.
    pub stride: u32,
}

/// A surface with one plane.
#[derive(Clone, Copy, Debug, PartialEq, Eq, Structural)]
pub struct DcpLayer {
    pub addr: u64,
    pub stride: u32,
    pub width: u32,
    pub height: u32,
}

/// The 44 bytes of a plane.
pub open spec fn plane_bytes(addr: u64, stride: u32, addr_format: u32) -> Seq<u8> {
    le32(0) + le64(addr) + le32(0) + le32(stride) + zeros(16) + le32(addr_format) + zeros(4)
}

/// The 164 bytes of a layer: one plane in use and two empty ones, then the
/// surface.
pub open spec fn layer_bytes(l: DcpLayer) -> Seq<u8> {
    plane_bytes(l.addr, l.stride, 1) + zeros(88) + le32(0) + le32(1) + le32(l.width) + le32(l.height)
        + le32(1) + le32(2) + le32(1) + zeros(4)
}

/// A rectangle at the origin.
pub open spec fn rect_bytes(width: u32, height: u32) -> Seq<u8> {
    le32(width) + le32(height) + zeros(8)
}

/// The payload that puts a layer on the screen; newer firmware has eight more
/// bytes behind the layer.
pub open spec fn swap_bytes(v13: bool, l: DcpLayer, width: u32, height: u32) -> Seq<u8> {
    zeros(8) + layer_bytes(l) + zeros(
        if v13 {
            8
        } else {
            0
        },
    ) + rect_bytes(width, height) + rect_bytes(width, height) + zeros(4)
}

impl DcpLayer {
    pub fn encode(&self) -> (r: Vec<u8>)
        ensures
            r@ == layer_bytes(*self),
            r@.len() == 164,
    {
        let mut v: Vec<u8> = Vec::new();
        push_le32(&mut v, 0);
        push_le64(&mut v, self.addr);
        push_le32(&mut v, 0);
        push_le32(&mut v, self.stride);
        push_zeros(&mut v, 16);
        push_le32(&mut v, ADDR_FORMAT_PLANAR);
        push_zeros(&mut v, 4);
        assert(v@ =~= plane_bytes(self.addr, self.stride, 1));
        push_zeros(&mut v, 88);
        push_le32(&mut v, 0);
        push_le32(&mut v, 1);
        push_le32(&mut v, self.width);
        push_le32(&mut v, self.height);
        push_le32(&mut v, SURFACE_FMT_BGRA8888);
        push_le32(&mut v, COLORSPACE_DISPLAY_P3);
        push_le32(&mut v, EOTF_GAMMA_SDR);
        push_zeros(&mut v, 4);
        assert(v@ =~= layer_bytes(*self));
        v
    }
}

/// The layer that shows a framebuffer.
pub fn make_layer(config: &FramebufferConfig, dva: u64) -> (r: DcpLayer)
    ensures
        r == layer_of(*config, dva),
{
    DcpLayer { addr: dva, stride: config.stride, width: config.width, height: config.height }
}

/// The layer that shows a framebuffer.
pub open spec fn layer_of(config: FramebufferConfig, dva: u64) -> DcpLayer {
    DcpLayer { addr: dva, stride: config.stride, width: config.width, height: config.height }
}

/// A timing that can be used.
pub open spec fn usable_timing(m: DcpTimingMode) -> bool {
    m.valid != 0 && m.width != 0 && m.height != 0
}

/// One timing is preferred to another, or as good: a rate of at most 60 Hz
/// first, then more pixels, then the higher rate.
pub open spec fn timing_at_least(a: DcpTimingMode, b: DcpTimingMode) -> bool {
    let a_ok = a.fps <= 0x3c_0000;
    let b_ok = b.fps <= 0x3c_0000;
    let a_area = a.width * a.height;
    let b_area = b.width * b.height;
    if a_ok != b_ok {
        a_ok
    } else if a_area != b_area {
        a_area > b_area
    } else {
        a.fps >= b.fps
    }
}

/// The timing at `i` is usable, at least as good as every usable one and
/// better than every usable one behind it.
pub open spec fn best_timing(modes: Seq<DcpTimingMode>, i: int) -> bool {
    &&& 0 <= i < modes.len()
    &&& usable_timing(modes[i])
    &&& forall|j: int|
        0 <= j < modes.len() && usable_timing(#[trigger] modes[j]) ==> timing_at_least(
            modes[i],
            modes[j],
        )
    &&& forall|j: int|
        i < j < modes.len() && usable_timing(#[trigger] modes[j]) ==> !timing_at_least(
            modes[j],
            modes[i],
        )
}

fn timing_better(a: &DcpTimingMode, b: &DcpTimingMode) -> (r: bool)
    ensures
        r == timing_at_least(*a, *b),
{
    let a_ok = a.fps <= PREFERRED_FPS;
    let b_ok = b.fps <= PREFERRED_FPS;
    assert(a.width * a.height <= 0xffff_ffff * 0xffff_ffff) by (nonlinear_arith)
        requires
            a.width <= 0xffff_ffff,
            a.height <= 0xffff_ffff,
    ;
    assert(b.width * b.height <= 0xffff_ffff * 0xffff_ffff) by (nonlinear_arith)
        requires
            b.width <= 0xffff_ffff,
            b.height <= 0xffff_ffff,
    ;
    let a_area: u64 = a.width as u64 * a.height as u64;
    let b_area: u64 = b.width as u64 * b.height as u64;
    if a_ok != b_ok {
        a_ok
    } else if a_area != b_area {
        a_area > b_area
    } else {
        a.fps >= b.fps
    }
}

/// Choose a panel timing.
pub fn choose_timing(modes: &[DcpTimingMode]) -> (r: Option<DcpTimingMode>)
    ensures
        match r {
            Some(m) => exists|i: int| #[trigger] best_timing(modes@, i) && modes@[i] == m,
            None => forall|j: int| 0 <= j < modes@.len() ==> !usable_timing(#[trigger] modes@[j]),
        },
{
    let mut best: Option<DcpTimingMode> = None;
    let ghost mut at: int = 0;
    let mut i: usize = 0;
    while i < modes.len()
        invariant
            i <= modes@.len(),
            best is None ==> forall|j: int| 0 <= j < i ==> !usable_timing(#[trigger] modes@[j]),
            best is Some ==> best_timing(modes@.take(i as int), at) && best->0 == modes@[at],
        decreases modes@.len() - i,
    {
        let mode = modes[i];
        let ghost seen = modes@.take(i as int);
        let ghost next = modes@.take(i + 1);
        assert(forall|j: int| 0 <= j < i ==> #[trigger] next[j] == seen[j]);
        assert(next[i as int] == mode);
        if mode.valid != 0 && mode.width != 0 && mode.height != 0 {
            let take = match &best {
                Some(b) => timing_better(&mode, b),
                None => true,
            };
            if take {
                proof {
                    if best is Some {
                        assert forall|j: int|
                            0 <= j < next.len() && usable_timing(
                                #[trigger] next[j],
                            ) implies timing_at_least(mode, next[j]) by {
                            if j < i {
                                assert(usable_timing(seen[j]));
                                assert(timing_at_least(seen[at], seen[j]));
                            }
                        }
                    }
                    at = i as int;
                    assert(best_timing(next, at));
                }
                best = Some(mode);
            } else {
                proof {
                    assert(best_timing(next, at)) by {
                        assert(usable_timing(seen[at]));
                        assert forall|j: int|
                            0 <= j < next.len() && usable_timing(
                                #[trigger] next[j],
                            ) implies timing_at_least(next[at], next[j]) by {
                            if j < i {
                                assert(timing_at_least(seen[at], seen[j]));
                            }
                        }
                        assert forall|j: int|
                            at < j < next.len() && usable_timing(
                                #[trigger] next[j],
                            ) implies !timing_at_least(next[j], next[at]) by {
                            if j < i {
                                assert(!timing_at_least(seen[j], seen[at]));
                            }
                        }
                    }
                }
            }
        } else {
            proof {
                if best is Some {
                    assert(best_timing(next, at)) by {
                        assert forall|j: int|
                            0 <= j < next.len() && usable_timing(
                                #[trigger] next[j],
                            ) implies timing_at_least(next[at], next[j]) by {
                            assert(timing_at_least(seen[at], seen[j]));
                        }
                        assert forall|j: int|
                            at < j < next.len() && usable_timing(
                                #[trigger] next[j],
                            ) implies !timing_at_least(next[j], next[at]) by {
                            assert(!timing_at_least(seen[j], seen[at]));
                        }
                    }
                }
            }
        }
        i = i + 1;
    }
    assert(modes@.take(i as int) =~= modes@);
    assert(best is Some ==> best_timing(modes@, at));
    best
}

/// One color mode is preferred to another, or as good: at most 32 bits per
/// pixel first, then more bits.
pub open spec fn color_at_least(a: DcpColorMode, b: DcpColorMode) -> bool {
    if (a.bpp <= 32) != (b.bpp <= 32) {
        a.bpp <= 32
    } else {
        a.bpp >= b.bpp
    }
}

/// The color mode at `i` is valid, at least as good as every valid one and
/// better than every valid one behind it.
pub open spec fn best_color(modes: Seq<DcpColorMode>, i: int) -> bool {
    &&& 0 <= i < modes.len()
    &&& modes[i].valid != 0
    &&& forall|j: int|
        0 <= j < modes.len() && (#[trigger] modes[j]).valid != 0 ==> color_at_least(
            modes[i],
            modes[j],
        )
    &&& forall|j: int|
        i < j < modes.len() && (#[trigger] modes[j]).valid != 0 ==> !color_at_least(
            modes[j],
            modes[i],
        )
}

/// Choose a color mode.
pub fn choose_color(modes: &[DcpColorMode]) -> (r: Option<DcpColorMode>)
    ensures
        match r {
            Some(m) => exists|i: int| #[trigger] best_color(modes@, i) && modes@[i] == m,
            None => forall|j: int| 0 <= j < modes@.len() ==> (#[trigger] modes@[j]).valid == 0,
        },
{
    let mut best: Option<DcpColorMode> = None;
    let ghost mut at: int = 0;
    let mut i: usize = 0;
    while i < modes.len()
        invariant
            i <= modes@.len(),
            best is None ==> forall|j: int| 0 <= j < i ==> (#[trigger] modes@[j]).valid == 0,
            best is Some ==> best_color(modes@.take(i as int), at) && best->0 == modes@[at],
        decreases modes@.len() - i,
    {
        let mode = modes[i];
        let ghost seen = modes@.take(i as int);
        let ghost next = modes@.take(i + 1);
        assert(forall|j: int| 0 <= j < i ==> #[trigger] next[j] == seen[j]);
        assert(next[i as int] == mode);
        if mode.valid != 0 {
            let take = match &best {
                Some(b) => {
                    if (mode.bpp <= 32) != (b.bpp <= 32) {
                        mode.bpp <= 32
                    } else {
                        mode.bpp >= b.bpp
                    }
                },
                None => true,
            };
            if take {
                proof {
                    if best is Some {
                        assert forall|j: int|
                            0 <= j < next.len() && (#[trigger] next[j]).valid
                                != 0 implies color_at_least(mode, next[j]) by {
                            if j < i {
                                assert(color_at_least(seen[at], seen[j]));
                            }
                        }
                    }
                    at = i as int;
                    assert(best_color(next, at));
                }
                best = Some(mode);
            } else {
                proof {
                    assert(best_color(next, at)) by {
                        assert forall|j: int|
                            0 <= j < next.len() && (#[trigger] next[j]).valid
                                != 0 implies color_at_least(next[at], next[j]) by {
                            if j < i {
                                assert(color_at_least(seen[at], seen[j]));
                            }
                        }
                        assert forall|j: int|
                            at < j < next.len() && (#[trigger] next[j]).valid
                                != 0 implies !color_at_least(next[j], next[at]) by {
                            if j < i {
                                assert(!color_at_least(seen[j], seen[at]));
                            }
                        }
                    }
                }
            }
        } else {
            proof {
                if best is Some {
                    assert(best_color(next, at)) by {
                        assert forall|j: int|
                            0 <= j < next.len() && (#[trigger] next[j]).valid
                                != 0 implies color_at_least(next[at], next[j]) by {
                            assert(color_at_least(seen[at], seen[j]));
                        }
                        assert forall|j: int|
                            at < j < next.len() && (#[trigger] next[j]).valid
                                != 0 implies !color_at_least(next[j], next[at]) by {
                            assert(!color_at_least(seen[j], seen[at]));
                        }
                    }
                }
            }
        }
        i = i + 1;
    }
    assert(modes@.take(i as int) =~= modes@);
    assert(best is Some ==> best_color(modes@, at));
    best
}

/// A command: operation, length, eight spare bytes, payload.
pub open spec fn command_bytes(operation: u32, payload: Seq<u8>) -> Seq<u8> {
    le32(operation) + le32((16 + payload.len()) as u32) + zeros(8) + payload
}

/// An operation whose reply carries data.
pub open spec fn expects_output(operation: u32) -> bool {
    operation == 3 || operation == 4 || operation == 5 || operation == 15
}

/// The data in a reply. Replies to operations without data may be anything.
pub open spec fn reply_data(operation: u32, reply: Seq<u8>) -> Result<Seq<u8>, DcpError> {
    if reply.len() < 8 {
        if expects_output(operation) {
            Err(DcpError::ShortReply)
        } else {
            Ok(Seq::empty())
        }
    } else if from_le32(reply, 4) < 8 {
        if expects_output(operation) {
            Err(DcpError::BadReplyLength)
        } else {
            Ok(Seq::empty())
        }
    } else if from_le32(reply, 4) < reply.len() {
        Ok(reply.subrange(8, from_le32(reply, 4)))
    } else {
        Ok(reply.skip(8))
    }
}

/// Takes the data out of a reply.
pub fn reply_payload(operation: u32, reply: &[u8]) -> (r: Result<Vec<u8>, DcpError>)
    ensures
        data_view(r) == reply_data(operation, reply@),
{
    let wants = operation == IBOOT_GET_HPD || operation == IBOOT_GET_TIMING_MODES || operation
        == IBOOT_GET_COLOR_MODES || operation == IBOOT_SWAP_BEGIN;
    if reply.len() < 8 {
        return if wants {
            Err(DcpError::ShortReply)
        } else {
            Ok(Vec::new())
        };
    }
    let reply_len: u32 = read_le32(reply, 4);
    if reply_len < 8 {
        return if wants {
            Err(DcpError::BadReplyLength)
        } else {
            Ok(Vec::new())
        };
    }
    let end: usize = if (reply_len as u64) < reply.len() as u64 {
        reply_len as usize
    } else {
        reply.len()
    };
    let data = crate::bytes::copy_range(reply, 8, end);
    assert(data@ =~= reply_data(operation, reply@)->Ok_0);
    Ok(data)
}

/// The result of a call that brought the given reply.
pub open spec fn answers(
    operation: u32,
    reply: Result<Seq<u8>, &'static str>,
    r: Result<Seq<u8>, DcpError>,
) -> bool {
    match reply {
        Ok(bytes) => r == reply_data(operation, bytes),
        Err(message) => r == Err::<Seq<u8>, DcpError>(DcpError::Transport(message)),
    }
}

/// A call was made, behind `at` accesses, and answered.
pub open spec fn called(
    before: Seq<IbootCall>,
    after: Seq<IbootCall>,
    at: nat,
    channel: u32,
    operation: u32,
    payload: Seq<u8>,
    r: Result<Seq<u8>, DcpError>,
) -> bool {
    &&& after.len() == before.len() + 1
    &&& after == before.push(
        IbootCall {
            after: at,
            channel,
            subtype: 0xc0,
            command: command_bytes(operation, payload),
            reply: after.last().reply,
        },
    )
    &&& answers(operation, after.last().reply, r)
}

/// The bytes of a result.
pub open spec fn data_view(r: Result<Vec<u8>, DcpError>) -> Result<Seq<u8>, DcpError> {
    match r {
        Ok(bytes) => Ok(bytes@),
        Err(e) => Err(e),
    }
}

/// What the panel says of itself.
#[derive(Clone, Copy, Debug, PartialEq, Eq, Structural)]
pub struct PanelStatus {
    pub connected: bool,
    pub timing_count: u32,
    pub color_count: u32,
}

/// The status in a reply.
pub open spec fn status_in(data: Result<Seq<u8>, DcpError>) -> Result<PanelStatus, DcpError> {
    match data {
        Ok(bytes) => if bytes.len() < 12 {
            Err(DcpError::ShortStatus)
        } else {
            Ok(
                PanelStatus {
                    connected: bytes[0] != 0,
                    timing_count: from_le32(bytes, 4) as u32,
                    color_count: from_le32(bytes, 8) as u32,
                },
            )
        },
        Err(e) => Err(e),
    }
}

/// The timings in a reply.
pub open spec fn timings_in(data: Result<Seq<u8>, DcpError>) -> Result<Seq<DcpTimingMode>, DcpError> {
    match data {
        Ok(bytes) => if bytes.len() < 4 {
            Err(DcpError::MissingTimingCount)
        } else if 4 + 24 * from_le32(bytes, 0) > bytes.len() {
            Err(DcpError::TruncatedTimings)
        } else {
            Ok(
                Seq::new(
                    from_le32(bytes, 0) as nat,
                    |i: int| timing_at(bytes, 4 + 24 * i),
                ),
            )
        },
        Err(e) => Err(e),
    }
}

/// The color modes in a reply.
pub open spec fn colors_in(data: Result<Seq<u8>, DcpError>) -> Result<Seq<DcpColorMode>, DcpError> {
    match data {
        Ok(bytes) => if bytes.len() < 4 {
            Err(DcpError::MissingColorCount)
        } else if 4 + 24 * from_le32(bytes, 0) > bytes.len() {
            Err(DcpError::TruncatedColors)
        } else {
            Ok(Seq::new(from_le32(bytes, 0) as nat, |i: int| color_at(bytes, 4 + 24 * i)))
        },
        Err(e) => Err(e),
    }
}

/// The modes of a result.
pub open spec fn modes_view<T>(r: Result<Vec<T>, DcpError>) -> Result<Seq<T>, DcpError> {
    match r {
        Ok(modes) => Ok(modes@),
        Err(e) => Err(e),
    }
}

/// The display service of the coprocessor.
pub struct DcpIboot<T: IbootTransport> {
    pub port: IbootPort<T>,
    pub channel: u32,
    pub firmware_v13: bool,
}

/// A call whose data does not matter.
pub open spec fn commanded(
    before: Seq<IbootCall>,
    after: Seq<IbootCall>,
    at: nat,
    channel: u32,
    operation: u32,
    payload: Seq<u8>,
    r: Result<(), DcpError>,
) -> bool {
    exists|data: Result<Seq<u8>, DcpError>|
        {
            &&& #[trigger] called(before, after, at, channel, operation, payload, data)
            &&& r is Ok <==> data is Ok
            &&& r is Err ==> r->Err_0 == data->Err_0
        }
}

/// A call whose data was read as `T`.
pub open spec fn asked<U>(
    before: Seq<IbootCall>,
    after: Seq<IbootCall>,
    at: nat,
    channel: u32,
    operation: u32,
    r: Result<U, DcpError>,
    reading: spec_fn(Result<Seq<u8>, DcpError>) -> Result<U, DcpError>,
) -> bool {
    exists|data: Result<Seq<u8>, DcpError>|
        #[trigger] called(before, after, at, channel, operation, Seq::empty(), data) && r == reading(
            data,
        )
}

/// A layer was put on the screen in three calls, up to the first that failed.
pub open spec fn swapped(
    before: Seq<IbootCall>,
    after: Seq<IbootCall>,
    at: nat,
    channel: u32,
    v13: bool,
    layer: DcpLayer,
    width: u32,
    height: u32,
    r: Result<(), DcpError>,
) -> bool {
    exists|first: Seq<IbootCall>, second: Seq<IbootCall>, a: Result<(), DcpError>, b: Result<
        (),
        DcpError,
    >|
        #[trigger] swap_steps(
            before,
            first,
            second,
            after,
            at,
            channel,
            v13,
            layer,
            width,
            height,
            a,
            b,
            r,
        )
}

/// The three calls of a swap.
pub open spec fn swap_steps(
    before: Seq<IbootCall>,
    first: Seq<IbootCall>,
    second: Seq<IbootCall>,
    after: Seq<IbootCall>,
    at: nat,
    channel: u32,
    v13: bool,
    layer: DcpLayer,
    width: u32,
    height: u32,
    a: Result<(), DcpError>,
    b: Result<(), DcpError>,
    r: Result<(), DcpError>,
) -> bool {
    &&& commanded(before, first, at, channel, 15, Seq::empty(), a)
    &&& if a is Err {
        after == first && r == a
    } else {
        &&& commanded(first, second, at, channel, 16, swap_bytes(v13, layer, width, height), b)
        &&& if b is Err {
            after == second && r == b
        } else {
            commanded(second, after, at, channel, 18, zeros(12), r)
        }
    }
}

impl<T: IbootTransport> DcpIboot<T> {
    /// All calls so far.
    pub open spec fn calls(&self) -> Seq<IbootCall> {
        self.port.log()
    }

    /// The same service.
    pub open spec fn same_service(&self, other: &Self) -> bool {
        self.channel == other.channel && self.firmware_v13 == other.firmware_v13
    }

    pub fn new(transport: T, channel: u32, firmware_v13: bool) -> (r: Self)
        ensures
            r.channel == channel,
            r.firmware_v13 == firmware_v13,
            r.calls() == Seq::<IbootCall>::empty(),
    {
        DcpIboot { port: IbootPort::new(transport), channel, firmware_v13 }
    }

    /// Call the display service.
    pub fn call<M: Mmio>(&mut self, bus: &Bus<M>, operation: u32, payload: &[u8]) -> (r: Result<
        Vec<u8>,
        DcpError,
    >)
        ensures
            final(self).same_service(old(self)),
            16 + payload@.len() > usize::MAX ==> r == Err::<Vec<u8>, _>(DcpError::CommandTooLarge)
                && final(self).calls() == old(self).calls(),
            16 + payload@.len() <= usize::MAX ==> called(
                old(self).calls(),
                final(self).calls(),
                bus.ops().len(),
                old(self).channel,
                operation,
                payload@,
                data_view(r),
            ),
    {
        let total: usize = match payload.len().checked_add(16) {
            Some(total) => total,
            None => {
                return Err(DcpError::CommandTooLarge);
            },
        };
        let mut command: Vec<u8> = Vec::new();
        push_le32(&mut command, operation);
        push_le32(&mut command, total as u32);
        push_zeros(&mut command, 8);
        push_bytes(&mut command, payload);
        assert(command@ =~= command_bytes(operation, payload@));
        let outcome = self.port.call_raw_by_channel(
            bus,
            self.channel,
            DCP_IBOOT_SUBTYPE,
            command.as_slice(),
        );
        let reply = match outcome {
            Ok(reply) => reply,
            Err(message) => {
                return Err(DcpError::Transport(message));
            },
        };
        reply_payload(operation, reply.as_slice())
    }

    /// Call the display service where the data does not matter.
    fn command<M: Mmio>(&mut self, bus: &Bus<M>, operation: u32, payload: &[u8]) -> (r: Result<
        (),
        DcpError,
    >)
        requires
            16 + payload@.len() <= usize::MAX,
        ensures
            final(self).same_service(old(self)),
            commanded(
                old(self).calls(),
                final(self).calls(),
                bus.ops().len(),
                old(self).channel,
                operation,
                payload@,
                r,
            ),
    {
        let data = self.call(bus, operation, payload);
        assert(called(
            old(self).calls(),
            self.calls(),
            bus.ops().len(),
            old(self).channel,
            operation,
            payload@,
            data_view(data),
        ));
        match data {
            Ok(_) => Ok(()),
            Err(e) => Err(e),
        }
    }

    pub fn set_power<M: Mmio>(&mut self, bus: &Bus<M>, enabled: bool) -> (r: Result<(), DcpError>)
        ensures
            final(self).same_service(old(self)),
            commanded(
                old(self).calls(),
                final(self).calls(),
                bus.ops().len(),
                old(self).channel,
                2,
                seq![
                    if enabled {
                        1u8
                    } else {
                        0u8
                    },
                ],
                r,
            ),
    {
        let payload: [u8; 1] = [if enabled {
            1
        } else {
            0
        }];
        assert(payload@ =~= seq![
            if enabled {
                1u8
            } else {
                0u8
            },
        ]);
        self.command(bus, IBOOT_SET_POWER, payload.as_slice())
    }

    pub fn display_status<M: Mmio>(&mut self, bus: &Bus<M>) -> (r: Result<PanelStatus, DcpError>)
        ensures
            final(self).same_service(old(self)),
            asked(
                old(self).calls(),
                final(self).calls(),
                bus.ops().len(),
                old(self).channel,
                3,
                r,
                |data: Result<Seq<u8>, DcpError>| status_in(data),
            ),
    {
        let none: [u8; 0] = [];
        assert(none@ =~= Seq::<u8>::empty());
        let data = self.call(bus, IBOOT_GET_HPD, none.as_slice());
        let ghost view = data_view(data);
        assert(called(
            old(self).calls(),
            self.calls(),
            bus.ops().len(),
            old(self).channel,
            3,
            Seq::empty(),
            view,
        ));
        match data {
            Ok(bytes) => read_status(bytes.as_slice()),
            Err(e) => Err(e),
        }
    }

    pub fn timing_modes<M: Mmio>(&mut self, bus: &Bus<M>) -> (r: Result<Vec<DcpTimingMode>, DcpError>)
        ensures
            final(self).same_service(old(self)),
            asked(
                old(self).calls(),
                final(self).calls(),
                bus.ops().len(),
                old(self).channel,
                4,
                modes_view(r),
                |data: Result<Seq<u8>, DcpError>| timings_in(data),
            ),
    {
        let none: [u8; 0] = [];
        assert(none@ =~= Seq::<u8>::empty());
        let data = self.call(bus, IBOOT_GET_TIMING_MODES, none.as_slice());
        let ghost view = data_view(data);
        assert(called(
            old(self).calls(),
            self.calls(),
            bus.ops().len(),
            old(self).channel,
            4,
            Seq::empty(),
            view,
        ));
        match data {
            Ok(bytes) => {
                let r = read_timings(bytes.as_slice());
                assert(modes_view(r) == timings_in(view));
                r
            },
            Err(e) => Err(e),
        }
    }

    pub fn color_modes<M: Mmio>(&mut self, bus: &Bus<M>) -> (r: Result<Vec<DcpColorMode>, DcpError>)
        ensures
            final(self).same_service(old(self)),
            asked(
                old(self).calls(),
                final(self).calls(),
                bus.ops().len(),
                old(self).channel,
                5,
                modes_view(r),
                |data: Result<Seq<u8>, DcpError>| colors_in(data),
            ),
    {
        let none: [u8; 0] = [];
        assert(none@ =~= Seq::<u8>::empty());
        let data = self.call(bus, IBOOT_GET_COLOR_MODES, none.as_slice());
        let ghost view = data_view(data);
        assert(called(
            old(self).calls(),
            self.calls(),
            bus.ops().len(),
            old(self).channel,
            5,
            Seq::empty(),
            view,
        ));
        match data {
            Ok(bytes) => {
                let r = read_colors(bytes.as_slice());
                assert(modes_view(r) == colors_in(view));
                r
            },
            Err(e) => Err(e),
        }
    }

    pub fn set_mode<M: Mmio>(
        &mut self,
        bus: &Bus<M>,
        timing: &DcpTimingMode,
        color: &DcpColorMode,
    ) -> (r: Result<(), DcpError>)
        ensures
            final(self).same_service(old(self)),
            commanded(
                old(self).calls(),
                final(self).calls(),
                bus.ops().len(),
                old(self).channel,
                6,
                timing_bytes(*timing) + color_bytes(*color),
                r,
            ),
    {
        let mut payload: Vec<u8> = Vec::new();
        push_le32(&mut payload, timing.valid);
        push_le32(&mut payload, timing.width);
        push_le32(&mut payload, timing.height);
        push_le32(&mut payload, timing.fps);
        push_le64(&mut payload, timing.pad);
        assert(payload@ =~= timing_bytes(*timing));
        push_le32(&mut payload, color.valid);
        push_le32(&mut payload, color.colorimetry);
        push_le32(&mut payload, color.eotf);
        push_le32(&mut payload, color.encoding);
        push_le32(&mut payload, color.bpp);
        push_le32(&mut payload, color.pad);
        assert(payload@ =~= timing_bytes(*timing) + color_bytes(*color));
        self.command(bus, IBOOT_SET_MODE, payload.as_slice())
    }

    pub fn set_surface<M: Mmio>(&mut self, bus: &Bus<M>, layer: &DcpLayer) -> (r: Result<(), DcpError>)
        ensures
            final(self).same_service(old(self)),
            commanded(
                old(self).calls(),
                final(self).calls(),
                bus.ops().len(),
                old(self).channel,
                1,
                layer_bytes(*layer),
                r,
            ),
    {
        let payload = layer.encode();
        self.command(bus, IBOOT_SET_SURFACE, payload.as_slice())
    }

    /// Put a layer on the screen.
    pub fn swap<M: Mmio>(&mut self, bus: &Bus<M>, layer: &DcpLayer, width: u32, height: u32) -> (r:
        Result<(), DcpError>)
        ensures
            final(self).same_service(old(self)),
            swapped(
                old(self).calls(),
                final(self).calls(),
                bus.ops().len(),
                old(self).channel,
                old(self).firmware_v13,
                *layer,
                width,
                height,
                r,
            ),
    {
        let ghost before = self.calls();
        let none: [u8; 0] = [];
        assert(none@ =~= Seq::<u8>::empty());
        let a = self.command(bus, IBOOT_SWAP_BEGIN, none.as_slice());
        let ghost first = self.calls();
        match a {
            Ok(()) => {},
            Err(_) => {
                assert(swap_steps(
                    before,
                    first,
                    first,
                    self.calls(),
                    bus.ops().len(),
                    self.channel,
                    self.firmware_v13,
                    *layer,
                    width,
                    height,
                    a,
                    a,
                    a,
                ));
                return a;
            },
        }
        let payload = swap_payload(self.firmware_v13, layer, width, height);
        let b = self.command(bus, IBOOT_SWAP_SET_LAYER, payload.as_slice());
        let ghost second = self.calls();
        match b {
            Ok(()) => {},
            Err(_) => {
                assert(swap_steps(
                    before,
                    first,
                    second,
                    self.calls(),
                    bus.ops().len(),
                    self.channel,
                    self.firmware_v13,
                    *layer,
                    width,
                    height,
                    a,
                    b,
                    b,
                ));
                return b;
            },
        }
        let mut tail: Vec<u8> = Vec::new();
        push_zeros(&mut tail, 12);
        assert(tail@ =~= zeros(12));
        let r = self.command(bus, IBOOT_SWAP_END, tail.as_slice());
        assert(swap_steps(
            before,
            first,
            second,
            self.calls(),
            bus.ops().len(),
            self.channel,
            self.firmware_v13,
            *layer,
            width,
            height,
            a,
            b,
            r,
        ));
        r
    }
}

fn swap_payload(v13: bool, layer: &DcpLayer, width: u32, height: u32) -> (r: Vec<u8>)
    ensures
        r@ == swap_bytes(v13, *layer, width, height),
        r@.len() <= 256,
{
    let mut v: Vec<u8> = Vec::new();
    push_zeros(&mut v, 8);
    let encoded = layer.encode();
    push_bytes(&mut v, encoded.as_slice());
    push_zeros(
        &mut v,
        if v13 {
            8
        } else {
            0
        },
    );
    let rect = rect_payload(width, height);
    push_bytes(&mut v, rect.as_slice());
    push_bytes(&mut v, rect.as_slice());
    push_zeros(&mut v, 4);
    assert(v@ =~= swap_bytes(v13, *layer, width, height));
    v
}

fn rect_payload(width: u32, height: u32) -> (r: Vec<u8>)
    ensures
        r@ == rect_bytes(width, height),
        r@.len() == 16,
{
    let mut v: Vec<u8> = Vec::new();
    push_le32(&mut v, width);
    push_le32(&mut v, height);
    push_zeros(&mut v, 8);
    assert(v@ =~= rect_bytes(width, height));
    v
}

/// Reads the status of the panel.
pub fn read_status(bytes: &[u8]) -> (r: Result<PanelStatus, DcpError>)
    ensures
        r == status_in(Ok(bytes@)),
{
    if bytes.len() < 12 {
        return Err(DcpError::ShortStatus);
    }
    Ok(
        PanelStatus {
            connected: bytes[0] != 0,
            timing_count: read_le32(bytes, 4),
            color_count: read_le32(bytes, 8),
        },
    )
}

/// Reads the timings of the panel.
pub fn read_timings(bytes: &[u8]) -> (r: Result<Vec<DcpTimingMode>, DcpError>)
    ensures
        modes_view(r) == timings_in(Ok(bytes@)),
{
    if bytes.len() < 4 {
        return Err(DcpError::MissingTimingCount);
    }
    let count: u32 = read_le32(bytes, 0);
    let mut modes: Vec<DcpTimingMode> = Vec::new();
    let mut index: u32 = 0;
    let mut at: usize = 4;
    while index < count
        invariant
            index <= count,
            count == from_le32(bytes@, 0),
            4 <= bytes@.len(),
            at == 4 + 24 * index,
            at <= bytes@.len(),
            modes@ == Seq::new(index as nat, |i: int| timing_at(bytes@, 4 + 24 * i)),
        decreases count - index,
    {
        if bytes.len() - at < 24 {
            return Err(DcpError::TruncatedTimings);
        }
        modes.push(
            DcpTimingMode {
                valid: read_le32(bytes, at),
                width: read_le32(bytes, at + 4),
                height: read_le32(bytes, at + 8),
                fps: read_le32(bytes, at + 12),
                pad: read_le64(bytes, at + 16),
            },
        );
        at = at + 24;
        index = index + 1;
        assert(modes@ =~= Seq::new(index as nat, |i: int| timing_at(bytes@, 4 + 24 * i)));
    }
    Ok(modes)
}

/// Reads the color modes of the panel.
pub fn read_colors(bytes: &[u8]) -> (r: Result<Vec<DcpColorMode>, DcpError>)
    ensures
        modes_view(r) == colors_in(Ok(bytes@)),
{
    if bytes.len() < 4 {
        return Err(DcpError::MissingColorCount);
    }
    let count: u32 = read_le32(bytes, 0);
    let mut modes: Vec<DcpColorMode> = Vec::new();
    let mut index: u32 = 0;
    let mut at: usize = 4;
    while index < count
        invariant
            index <= count,
            count == from_le32(bytes@, 0),
            4 <= bytes@.len(),
            at == 4 + 24 * index,
            at <= bytes@.len(),
            modes@ == Seq::new(index as nat, |i: int| color_at(bytes@, 4 + 24 * i)),
        decreases count - index,
    {
        if bytes.len() - at < 24 {
            return Err(DcpError::TruncatedColors);
        }
        modes.push(
            DcpColorMode {
                valid: read_le32(bytes, at),
                colorimetry: read_le32(bytes, at + 4),
                eotf: read_le32(bytes, at + 8),
                encoding: read_le32(bytes, at + 12),
                bpp: read_le32(bytes, at + 16),
                pad: read_le32(bytes, at + 20),
            },
        );
        at = at + 24;
        index = index + 1;
        assert(modes@ =~= Seq::new(index as nat, |i: int| color_at(bytes@, 4 + 24 * i)));
    }
    Ok(modes)
}

/// Digits as a number, where they are all digits and it fits.
pub open spec fn decimal(s: Seq<u8>, n: int) -> Option<int>
    decreases n,
{
    if n <= 0 {
        Some(0)
    } else {
        match decimal(s, n - 1) {
            Some(high) => {
                let b = s[n - 1];
                if 48 <= b && b <= 57 && high * 10 + (b - 48) <= u32::MAX {
                    Some(high * 10 + (b - 48))
                } else {
                    None
                }
            },
            None => None,
        }
    }
}

/// A number as text, with or without a plus sign in front.
pub open spec fn parsed_number(s: Seq<u8>) -> Option<int> {
    let digits = if s.len() > 0 && s[0] == 43 {
        s.skip(1)
    } else {
        s
    };
    if digits.len() == 0 {
        None
    } else {
        decimal(digits, digits.len() as int)
    }
}

/// Bytes in front of the first dot.
pub open spec fn dot_at(s: Seq<u8>, from: int) -> int
    decreases s.len() - from,
{
    if from < 0 || from >= s.len() || s[from] == 46 {
        from
    } else {
        dot_at(s, from + 1)
    }
}

/// Whether a version is 13 or later; where there is none, or none that can be
/// read, it counts as such.
pub open spec fn is_v13(version: Option<Seq<u8>>) -> bool {
    match version {
        Some(s) => match parsed_number(s.take(dot_at(s, 0))) {
            Some(major) => major >= 13,
            None => true,
        },
        None => true,
    }
}

fn parse_number(s: &[u8], len: usize) -> (r: Option<u32>)
    requires
        len <= s@.len(),
    ensures
        match parsed_number(s@.take(len as int)) {
            Some(n) => r is Some && r->0 == n,
            None => r is None,
        },
{
    let ghost text = s@.take(len as int);
    let from: usize = if len > 0 && s[0] == 43 {
        1
    } else {
        0
    };
    let ghost digits = if text.len() > 0 && text[0] == 43 {
        text.skip(1)
    } else {
        text
    };
    if from == len {
        return None;
    }
    let mut value: u32 = 0;
    let mut i: usize = from;
    while i < len
        invariant
            from <= i <= len <= s@.len(),
            from <= 1,
            text == s@.take(len as int),
            from == 1 ==> digits == text.skip(1),
            from == 0 ==> digits == text,
            decimal(digits, i - from) == Some(value as int),
            digits.len() > 0,
            parsed_number(text) == decimal(digits, digits.len() as int),
        decreases len - i,
    {
        let b: u8 = s[i];
        assert(digits[i - from] == b);
        if b < 48 || b > 57 {
            proof {
                assert(decimal(digits, i - from + 1) is None);
                decimal_stays_none(digits, i - from + 1, digits.len() as int);
            }
            return None;
        }
        let next: u64 = value as u64 * 10 + (b - 48) as u64;
        if next > 0xffff_ffff {
            proof {
                assert(decimal(digits, i - from + 1) is None);
                decimal_stays_none(digits, i - from + 1, digits.len() as int);
            }
            return None;
        }
        value = next as u32;
        i = i + 1;
    }
    Some(value)
}

proof fn decimal_stays_none(s: Seq<u8>, n: int, m: int)
    requires
        0 <= n <= m,
        decimal(s, n) is None,
    ensures
        decimal(s, m) is None,
    decreases m,
{
    if n < m {
        decimal_stays_none(s, n, m - 1);
    }
}

/// Whether the firmware has the layout of version 13.
pub fn firmware_is_v13(version: Option<&[u8]>) -> (r: bool)
    ensures
        r == is_v13(
            match version {
                Some(bytes) => Some(bytes@),
                None => None,
            },
        ),
{
    match version {
        Some(bytes) => {
            let mut end: usize = 0;
            while end < bytes.len() && bytes[end] != 46
                invariant
                    end <= bytes@.len(),
                    dot_at(bytes@, 0) == dot_at(bytes@, end as int),
                decreases bytes@.len() - end,
            {
                end = end + 1;
            }
            match parse_number(bytes, end) {
                Some(major) => major >= 13,
                None => true,
            }
        },
        None => true,
    }
}

/// IOMMU phandle, stream and own phandle of a display node.
pub open spec fn display_of(node: NodeView) -> Option<Option<(u32, usize, u32)>> {
    let phandle = match first_value(node.properties, "phandle"@, 0) {
        Some(value) => Some(value),
        None => first_value(node.properties, "linux,phandle"@, 0),
    };
    match (
        last_value(node.properties, "compatible"@),
        first_value(node.properties, "iommus"@, 0),
        phandle,
    ) {
        (Some(compatible), Some(iommus), Some(own)) => if !texts_in(compatible, 0).contains(
            "apple,display-subsystem"@,
        ) {
            None
        } else if iommus.len() < 8 || own.len() < 4 {
            Some(None)
        } else {
            Some(
                Some(
                    (
                        from_be32(iommus, 0) as u32,
                        from_be32(iommus, 4) as usize,
                        from_be32(own, 0) as u32,
                    ),
                ),
            )
        },
        _ => None,
    }
}

/// The first display node from `from` on decides.
pub open spec fn first_display(nodes: Seq<NodeView>, from: int) -> Option<(u32, usize, u32)>
    decreases nodes.len() - from,
{
    if from < 0 || from >= nodes.len() {
        None
    } else {
        match display_of(nodes[from]) {
            Some(found) => found,
            None => first_display(nodes, from + 1),
        }
    }
}

/// Find the IOMMU of the display subsystem.
pub fn find_display_iommu(tree: &Fdt<'_>) -> (r: Option<(u32, usize, u32)>)
    requires
        tree_contents(*tree) is Some,
    ensures
        r == first_display(tree_contents(*tree)->0.listed, 0),
{
    let nodes = all_nodes(tree);
    let ghost views = tree_contents(*tree)->0.listed;
    let mut i: usize = 0;
    while i < nodes.len()
        invariant
            i <= nodes@.len(),
            views == tree_contents(*tree)->0.listed,
            nodes@.len() == views.len(),
            forall|k: int|
                0 <= k < nodes@.len() ==> node_contents(#[trigger] nodes@[k]) == Some(views[k]),
            first_display(views, 0) == first_display(views, i as int),
        decreases nodes@.len() - i,
    {
        assert(node_contents(nodes@[i as int]) == Some(views[i as int]));
        let node = &nodes[i];
        let own = match property(node, "phandle") {
            Some(value) => Some(value),
            None => property(node, "linux,phandle"),
        };
        if compatible_with(node, "apple,display-subsystem") {
            match (property(node, "iommus"), own) {
                (Some(iommus), Some(own)) => {
                    let found = match (
                        read_be_u32(iommus, 0),
                        read_be_u32(iommus, 4),
                        read_be_u32(own, 0),
                    ) {
                        (Some(dart), Some(stream), Some(phandle)) => Some(
                            (dart, stream as usize, phandle),
                        ),
                        _ => None,
                    };
                    assert(display_of(views[i as int]) == Some(found));
                    return found;
                },
                _ => {},
            }
        }
        assert(display_of(views[i as int]) is None);
        i = i + 1;
    }
    None
}

/// A range that firmware has already handed to a device.
#[derive(Clone, Copy, Debug, PartialEq, Eq, Structural)]
pub struct HandoffRegion {
    pub iova: u64,
    pub paddr: u64,
    pub size: u64,
}

/// The ranges for a device in the entries of a node from entry `from` on.
/// Entries have 20 bytes: a phandle, an address and a size.
pub open spec fn handoffs_in(addresses: Seq<u8>, paddr: u64, phandle: u32, n: int) -> Seq<
    HandoffRegion,
>
    decreases n,
{
    if n <= 0 {
        Seq::empty()
    } else {
        let at = 20 * (n - 1);
        let earlier = handoffs_in(addresses, paddr, phandle, n - 1);
        if from_be32(addresses, at) == phandle {
            earlier.push(
                HandoffRegion {
                    iova: from_be64(addresses, at + 4) as u64,
                    paddr,
                    size: from_be64(addresses, at + 12) as u64,
                },
            )
        } else {
            earlier
        }
    }
}

/// The ranges for a device in a node of reserved memory.
pub open spec fn node_handoffs(node: NodeView, phandle: u32) -> Seq<HandoffRegion> {
    match (
        first_value(node.properties, "reg"@, 0),
        first_value(node.properties, "iommu-addresses"@, 0),
    ) {
        (Some(reg), Some(addresses)) => if reg.len() < 8 {
            Seq::empty()
        } else {
            handoffs_in(
                addresses,
                from_be64(reg, 0) as u64,
                phandle,
                addresses.len() as int / 20,
            )
        },
        _ => Seq::empty(),
    }
}

/// The ranges for a device in the first `n` nodes.
pub open spec fn all_handoffs(nodes: Seq<NodeView>, phandle: u32, n: int) -> Seq<HandoffRegion>
    decreases n,
{
    if n <= 0 || n > nodes.len() {
        Seq::empty()
    } else {
        all_handoffs(nodes, phandle, n - 1) + node_handoffs(nodes[n - 1], phandle)
    }
}

fn read_handoffs(
    regions: &mut Vec<HandoffRegion>,
    addresses: &[u8],
    paddr: u64,
    phandle: u32,
)
    ensures
        final(regions)@ == old(regions)@ + handoffs_in(
            addresses@,
            paddr,
            phandle,
            addresses@.len() as int / 20,
        ),
{
    let ghost start = regions@;
    let mut at: usize = 0;
    let ghost mut n: int = 0;
    assert(start + handoffs_in(addresses@, paddr, phandle, 0) =~= start);
    while addresses.len() - at >= 20
        invariant
            0 <= n,
            at == 20 * n,
            at <= addresses@.len(),
            regions@ == start + handoffs_in(addresses@, paddr, phandle, n),
        decreases addresses@.len() - at,
    {
        let total: usize = addresses.len();
        assert(at + 20 <= total);
        match (
            read_be_u32(addresses, at),
            read_be_u64(addresses, at + 4),
            read_be_u64(addresses, at + 12),
        ) {
            (Some(found), Some(iova), Some(size)) => {
                if found == phandle {
                    let ghost before = regions@;
                    regions.push(HandoffRegion { iova, paddr, size });
                    assert(regions@ =~= start + handoffs_in(addresses@, paddr, phandle, n + 1));
                }
            },
            _ => {},
        }
        proof {
            n = n + 1;
        }
        at = at + 20;
    }
    assert(n == addresses@.len() as int / 20);
}

/// The ranges that firmware has handed to a device.
pub fn handoff_regions(tree: &Fdt<'_>, phandle: u32) -> (r: Result<Vec<HandoffRegion>, DcpError>)
    requires
        tree_contents(*tree) is Some,
    ensures
        match child_named(tree_contents(*tree)->0.top, "/reserved-memory"@.skip(1), 0) {
            Some(reserved) => r is Ok && (r->Ok_0)@ == all_handoffs(
                reserved.children,
                phandle,
                reserved.children.len() as int,
            ),
            None => r is Err && r->Err_0 is NoReservedMemory,
        },
{
    let reserved = match find_top_node(tree, "/reserved-memory") {
        Some(node) => node,
        None => {
            return Err(DcpError::NoReservedMemory);
        },
    };
    let nodes = children(&reserved);
    let ghost views = node_contents(reserved)->0.children;
    let mut regions: Vec<HandoffRegion> = Vec::new();
    let mut i: usize = 0;
    while i < nodes.len()
        invariant
            i <= nodes@.len(),
            nodes@.len() == views.len(),
            forall|k: int|
                0 <= k < nodes@.len() ==> node_contents(#[trigger] nodes@[k]) == Some(views[k]),
            regions@ == all_handoffs(views, phandle, i as int),
        decreases nodes@.len() - i,
    {
        assert(node_contents(nodes@[i as int]) == Some(views[i as int]));
        let node = &nodes[i];
        let ghost before = regions@;
        match (property(node, "reg"), property(node, "iommu-addresses")) {
            (Some(reg), Some(addresses)) => {
                match read_be_u64(reg, 0) {
                    Some(paddr) => {
                        read_handoffs(&mut regions, addresses, paddr, phandle);
                    },
                    None => {},
                }
            },
            _ => {},
        }
        assert(regions@ =~= before + node_handoffs(views[i as int], phandle));
        i = i + 1;
    }
    Ok(regions)
}

/// A range whose pages lie in the address space.
pub open spec fn reachable(region: HandoffRegion) -> bool {
    page_count(region.size) > 0 ==> region.iova + (page_count(region.size) - 1) * 0x4000
        <= u64::MAX && region.paddr + (page_count(region.size) - 1) * 0x4000 <= u64::MAX
}

/// Ranges were mapped one behind the other; `marks` holds the record behind
/// each of them.
pub open spec fn regions_mapped(
    root: usize,
    before: Seq<Op>,
    regions: Seq<HandoffRegion>,
    marks: Seq<Seq<Op>>,
) -> bool {
    &&& marks.len() <= regions.len()
    &&& forall|i: int|
        0 <= i < marks.len() ==> region_mapped(
            root,
            mark_before(before, marks, i),
            #[trigger] marks[i],
            regions[i],
            Ok(()),
        )
}

/// The record in front of a step.
pub open spec fn mark_before<A>(before: Seq<A>, marks: Seq<Seq<A>>, i: int) -> Seq<A> {
    if i <= 0 {
        before
    } else {
        marks[i - 1]
    }
}

/// A range was mapped, or not for want of a table.
#[verifier::opaque]
pub open spec fn region_mapped(
    root: usize,
    before: Seq<Op>,
    after: Seq<Op>,
    region: HandoffRegion,
    r: Result<(), DartError>,
) -> bool {
    reachable(region) && exists|steps: Seq<Descent>| #[trigger]
        mapped_range(root, before, after, region.iova, region.paddr, region.size, 1, r, steps)
}

/// The record behind the steps that were taken.
pub open spec fn last_mark<A>(before: Seq<A>, marks: Seq<Seq<A>>) -> Seq<A> {
    if marks.len() == 0 {
        before
    } else {
        marks.last()
    }
}

/// How mapping a list of ranges went.
pub open spec fn handoff_mapped(
    root: usize,
    before: Seq<Op>,
    after: Seq<Op>,
    regions: Seq<HandoffRegion>,
    r: Result<usize, DcpError>,
    marks: Seq<Seq<Op>>,
) -> bool {
    &&& regions_mapped(root, before, regions, marks)
    &&& match r {
        Ok(n) => n == regions.len() && marks.len() == regions.len() && after == last_mark(
            before,
            marks,
        ),
        Err(e) => {
            &&& marks.len() < regions.len()
            &&& match e {
                DcpError::HandoffOverflow => !reachable(regions[marks.len() as int]) && after
                    == last_mark(before, marks),
                DcpError::Table(error) => region_mapped(
                    root,
                    last_mark(before, marks),
                    after,
                    regions[marks.len() as int],
                    Err(error),
                ),
                _ => false,
            }
        },
    }
}

proof fn marks_extended(
    root: usize,
    before: Seq<Op>,
    regions: Seq<HandoffRegion>,
    marks: Seq<Seq<Op>>,
    after: Seq<Op>,
)
    requires
        marks.len() < regions.len(),
        regions_mapped(root, before, regions, marks),
        region_mapped(
            root,
            last_mark(before, marks),
            after,
            regions[marks.len() as int],
            Ok(()),
        ),
    ensures
        regions_mapped(root, before, regions, marks.push(after)),
{
    let next = marks.push(after);
    assert forall|k: int| 0 <= k < next.len() implies region_mapped(
        root,
        mark_before(before, next, k),
        #[trigger] next[k],
        regions[k],
        Ok(()),
    ) by {
        if k < marks.len() {
            assert(region_mapped(
                root,
                mark_before(before, marks, k),
                marks[k],
                regions[k],
                Ok(()),
            ));
            assert(mark_before(before, next, k) == mark_before(before, marks, k));
        } else {
            assert(mark_before(before, next, k) == last_mark(before, marks));
        }
    }
}

/// Map one range.
pub fn map_region<M: Mmio, F: FrameSource>(
    bus: &mut Bus<M>,
    frames: &mut F,
    table: &mut DartPageTable,
    region: &HandoffRegion,
) -> (r: Result<(), DcpError>)
    requires
        old(table).wf(),
    ensures
        *final(table) == *old(table),
        match r {
            Ok(()) => region_mapped(
                old(table).root_vaddr,
                old(bus).ops(),
                final(bus).ops(),
                *region,
                Ok(()),
            ),
            Err(DcpError::HandoffOverflow) => !reachable(*region) && final(bus).ops() == old(
                bus,
            ).ops(),
            Err(DcpError::Table(error)) => region_mapped(
                old(table).root_vaddr,
                old(bus).ops(),
                final(bus).ops(),
                *region,
                Err(error),
            ),
            _ => false,
        },
{
    let pages: u64 = div_ceil_u64(region.size, 0x4000);
    let reach: u64 = if pages > 0 {
        (pages - 1) * 0x4000
    } else {
        0
    };
    if region.iova > u64::MAX - reach || region.paddr > u64::MAX - reach {
        return Err(DcpError::HandoffOverflow);
    }
    let outcome = table.map_contiguous(
        bus,
        frames,
        region.iova,
        region.paddr,
        region.size,
        DCP_DART_FLAGS,
    );
    proof {
        reveal(region_mapped);
        assert(region_mapped(table.root_vaddr, old(bus).ops(), bus.ops(), *region, outcome));
        match outcome {
            Ok(unit) => {
                assert(outcome == Ok::<(), DartError>(()));
            },
            Err(error) => {},
        }
    }
    match outcome {
        Ok(()) => Ok(()),
        Err(error) => Err(DcpError::Table(error)),
    }
}

/// Map the ranges that firmware has handed to a device; returns their number.
pub fn map_handoff_regions<M: Mmio, F: FrameSource>(
    bus: &mut Bus<M>,
    frames: &mut F,
    table: &mut DartPageTable,
    regions: &Vec<HandoffRegion>,
) -> (r: Result<usize, DcpError>)
    requires
        old(table).wf(),
    ensures
        *final(table) == *old(table),
        exists|marks: Seq<Seq<Op>>| #[trigger]
            handoff_mapped(
                old(table).root_vaddr,
                old(bus).ops(),
                final(bus).ops(),
                regions@,
                r,
                marks,
            ),
{
    let ghost before = bus.ops();
    let root: usize = table.root_vaddr;
    let ghost mut marks: Seq<Seq<Op>> = Seq::empty();
    let mut i: usize = 0;
    while i < regions.len()
        invariant
            i <= regions@.len(),
            *table == *old(table),
            table.wf(),
            root == table.root_vaddr,
            before == old(bus).ops(),
            marks.len() == i,
            regions_mapped(root, before, regions@, marks),
            bus.ops() == last_mark(before, marks),
        decreases regions@.len() - i,
    {
        let ghost start = bus.ops();
        match map_region(bus, frames, table, &regions[i]) {
            Ok(()) => {
                proof {
                    marks_extended(root, before, regions@, marks, bus.ops());
                    marks = marks.push(bus.ops());
                }
            },
            Err(e) => {
                let r = Err(e);
                assert(handoff_mapped(root, before, bus.ops(), regions@, r, marks));
                return r;
            },
        }
        i = i + 1;
    }
    let r = Ok(i);
    assert(handoff_mapped(root, before, bus.ops(), regions@, r, marks));
    r
}

/// Why the coprocessor's memory could not be mapped.
#[derive(Clone, Copy, Debug, PartialEq, Eq, Structural)]
pub enum RemoteprocError {
    LoadFailed,
}

/// Mappings for memory that is handed to the coprocessor at run time.
pub struct DcpDmaMapper {
    pub table: DartPageTable,
    pub dart: DartInstance,
    pub stream: usize,
    /// Levels of the page table.
    pub levels: u32,
    /// Where the next mapping goes.
    pub next_iova: u64,
    pub page_size: u64,
}

/// A size in whole pages.
pub open spec fn rounded(size: u64, page_size: u64) -> int {
    ceil_div(size as int, page_size as int) * page_size
}

/// A mapping that can be placed: aligned, and within the address space.
pub open spec fn placeable(mapper: &DcpDmaMapper, paddr: u64, size: u64) -> bool {
    let whole = rounded(size, mapper.page_size);
    mapper.next_iova + whole <= u64::MAX && paddr + whole <= u64::MAX
}

/// Memory was mapped and the stream pointed to the table.
pub open spec fn dma_mapped(
    mapper: &DcpDmaMapper,
    before: Seq<Op>,
    after: Seq<Op>,
    paddr: u64,
    size: u64,
    r: Result<u64, RemoteprocError>,
    middle: Seq<Op>,
    table: Result<(), DartError>,
    steps: Seq<Descent>,
) -> bool {
    &&& mapped_range(
        mapper.table.root_vaddr,
        before,
        middle,
        mapper.next_iova,
        paddr,
        rounded(size, mapper.page_size) as u64,
        1,
        table,
        steps,
    )
    &&& match table {
        Ok(()) => r == Ok::<u64, RemoteprocError>(mapper.next_iova) && after == middle
            + translate_ops(
            mapper.dart.base_addr,
            mapper.stream as int,
            mapper.table.root_paddr,
            mapper.levels,
        ),
        Err(_) => r == Err::<u64, _>(RemoteprocError::LoadFailed) && after == middle,
    }
}

impl DcpDmaMapper {
    pub open spec fn wf(&self) -> bool {
        &&& self.table.wf()
        &&& self.dart.wf()
        &&& self.stream < 256
        &&& self.page_size > 0
    }

    pub fn new(
        table: DartPageTable,
        dart: DartInstance,
        stream: usize,
        levels: u32,
        page_size: u64,
    ) -> (r: Self)
        ensures
            r.table == table,
            r.dart == dart,
            r.stream == stream,
            r.levels == levels,
            r.page_size == page_size,
            r.next_iova == 0x3000_0000,
    {
        DcpDmaMapper {
            table,
            dart,
            stream,
            levels,
            next_iova: DCP_DYNAMIC_IOVA_BASE,
            page_size,
        }
    }

    pub fn alignment(&self) -> (r: u64)
        ensures
            r == self.page_size,
    {
        self.page_size
    }

    /// Map memory for the coprocessor; returns its address there.
    pub fn map<M: Mmio, F: FrameSource>(
        &mut self,
        bus: &mut Bus<M>,
        frames: &mut F,
        paddr: u64,
        size: u64,
    ) -> (r: Result<u64, RemoteprocError>)
        requires
            old(self).wf(),
            placeable(old(self), paddr, size),
        ensures
            final(self).wf(),
            final(self).table == old(self).table,
            final(self).page_size == old(self).page_size,
            paddr % old(self).page_size != 0 ==> r == Err::<u64, _>(RemoteprocError::LoadFailed)
                && final(self).next_iova == old(self).next_iova && final(bus).ops() == old(
                bus,
            ).ops(),
            paddr % old(self).page_size == 0 ==> {
                &&& final(self).next_iova == old(self).next_iova + rounded(
                    size,
                    old(self).page_size,
                )
                &&& exists|middle: Seq<Op>, table: Result<(), DartError>, steps: Seq<Descent>|
                    #[trigger] dma_mapped(
                        old(self),
                        old(bus).ops(),
                        final(bus).ops(),
                        paddr,
                        size,
                        r,
                        middle,
                        table,
                        steps,
                    )
            },
    {
        if paddr % self.page_size != 0 {
            return Err(RemoteprocError::LoadFailed);
        }
        let ghost before = bus.ops();
        let page: u64 = self.page_size;
        let whole: u64 = div_ceil_u64(size, page) * page;
        let iova: u64 = self.next_iova;
        self.next_iova = iova + whole;
        let table = self.table.map_contiguous(bus, frames, iova, paddr, whole, DCP_DART_FLAGS);
        let ghost middle = bus.ops();
        let ghost steps = choose|steps: Seq<Descent>| #[trigger]
            mapped_range(
                self.table.root_vaddr,
                before,
                middle,
                iova,
                paddr,
                whole,
                1,
                table,
                steps,
            );
        match table {
            Ok(()) => {
                let root: u64 = self.table.root_paddr();
                self.dart.enable_translation(bus, self.stream, root, self.levels);
                let r = Ok(iova);
                assert(dma_mapped(
                    old(self),
                    before,
                    bus.ops(),
                    paddr,
                    size,
                    r,
                    middle,
                    table,
                    steps,
                ));
                r
            },
            Err(_) => {
                let r = Err(RemoteprocError::LoadFailed);
                assert(dma_mapped(
                    old(self),
                    before,
                    bus.ops(),
                    paddr,
                    size,
                    r,
                    middle,
                    table,
                    steps,
                ));
                r
            },
        }
    }
}

impl DcpDmaMapper {
    /// Take a mapping away, page by page.
    pub fn unmap<M: Mmio, F: FrameSource>(
        &mut self,
        bus: &mut Bus<M>,
        frames: &mut F,
        dva: u64,
        size: u64,
    )
        requires
            old(self).wf(),
            dva + size <= u64::MAX,
        ensures
            *final(self) == *old(self),
            exists|steps: Seq<Descent>| #[trigger]
                pages_unmapped(old(self), old(bus).ops(), final(bus).ops(), dva, size, steps),
    {
        let ghost before = bus.ops();
        let page_size: u64 = self.page_size;
        let root: usize = self.table.root_vaddr;
        let pages: u64 = div_ceil_u64(size, page_size);
        let mut page: u64 = 0;
        let ghost mut steps: Seq<Descent> = Seq::empty();
        assert(before + page_run(root, dva, page_size, steps) =~= before);
        while page < pages
            invariant
                page <= pages,
                *self == *old(self),
                self.wf(),
                root == self.table.root_vaddr,
                page_size == self.page_size,
                pages == ceil_div(size as int, page_size as int),
                dva + size <= u64::MAX,
                steps.len() == page,
                forall|i: int| 0 <= i < steps.len() ==> unmap_ok(#[trigger] steps[i]),
                bus.ops() == before + page_run(root, dva, page_size, steps),
            decreases pages - page,
        {
            proof {
                page_starts_inside(size, page_size, page);
            }
            let ghost start = bus.ops();
            let at: u64 = dva + page * page_size;
            self.table.unmap_page(bus, frames, at);
            proof {
                let d = choose|d: Descent| #[trigger]
                    unmapped_with(root, start, bus.ops(), at, d);
                let next = steps.push(d);
                assert(next.drop_last() =~= steps);
                append_assoc(
                    before,
                    page_run(root, dva, page_size, steps),
                    unmap_ops(root, at, d),
                );
                steps = next;
            }
            page = page + 1;
        }
        assert(pages_unmapped(old(self), before, bus.ops(), dva, size, steps));
    }
}

proof fn page_starts_inside(size: u64, page_size: u64, page: u64)
    requires
        page_size > 0,
        page < ceil_div(size as int, page_size as int),
    ensures
        0 <= page * page_size < size,
{
    let s = size as int;
    let p = page_size as int;
    let k = page as int;
    let c = ceil_div(s, p);
    ceil_div_counts(s, p);
    assert(k * p <= c * p - p) by (nonlinear_arith)
        requires
            k <= c - 1,
            p > 0,
    ;
    assert(0 <= k * p) by (nonlinear_arith)
        requires
            0 <= k,
            p > 0,
    ;
}

/// The accesses of taking pages away one behind the other.
pub open spec fn page_run(root: usize, dva: u64, page_size: u64, steps: Seq<Descent>) -> Seq<Op>
    decreases steps.len(),
{
    if steps.len() == 0 {
        Seq::empty()
    } else {
        page_run(root, dva, page_size, steps.drop_last()) + unmap_ops(
            root,
            (dva + (steps.len() - 1) * page_size) as u64,
            steps.last(),
        )
    }
}

/// Every page of a mapping was taken away.
pub open spec fn pages_unmapped(
    mapper: &DcpDmaMapper,
    before: Seq<Op>,
    after: Seq<Op>,
    dva: u64,
    size: u64,
    steps: Seq<Descent>,
) -> bool {
    &&& steps.len() == ceil_div(size as int, mapper.page_size as int)
    &&& forall|i: int| 0 <= i < steps.len() ==> unmap_ok(#[trigger] steps[i])
    &&& after == before + page_run(mapper.table.root_vaddr, dva, mapper.page_size, steps)
}

/// The panel was asked for its status.
#[verifier::opaque]
pub open spec fn status_asked(
    before: Seq<IbootCall>,
    after: Seq<IbootCall>,
    at: nat,
    channel: u32,
    r: Result<PanelStatus, DcpError>,
) -> bool {
    asked(before, after, at, channel, 3, r, |data: Result<Seq<u8>, DcpError>| status_in(data))
}

/// A panel that is connected and has modes.
pub open spec fn panel_ready(status: PanelStatus) -> bool {
    status.connected && status.timing_count > 0 && status.color_count > 0
}

/// The panel was asked time and again, with one wait in between.
pub open spec fn statuses_asked(
    before: Seq<IbootCall>,
    marks: Seq<Seq<IbootCall>>,
    at: nat,
    channel: u32,
    results: Seq<Result<PanelStatus, DcpError>>,
) -> bool {
    &&& marks.len() == results.len()
    &&& forall|i: int|
        0 <= i < marks.len() ==> status_asked(
            mark_before(before, marks, i),
            #[trigger] marks[i],
            at + i as nat,
            channel,
            results[i],
        )
}

/// An answer that calls for another try.
pub open spec fn not_ready(r: Result<PanelStatus, DcpError>) -> bool {
    r is Ok && !panel_ready(r->Ok_0)
}

/// The waits behind answers that call for another try.
pub open spec fn retry_waits(n: nat) -> Seq<Op> {
    Seq::new(n, |i: int| Op::Delay { us: 100_000 })
}

/// The panel was waited for: at most twenty times, until it was ready or
/// could not be asked.
pub open spec fn panel_awaited(
    before: Seq<IbootCall>,
    after: Seq<IbootCall>,
    ops_before: Seq<Op>,
    ops_after: Seq<Op>,
    channel: u32,
    r: Result<(), DcpError>,
    marks: Seq<Seq<IbootCall>>,
    results: Seq<Result<PanelStatus, DcpError>>,
) -> bool {
    let n = results.len();
    &&& statuses_asked(before, marks, ops_before.len(), channel, results)
    &&& 1 <= n <= 20
    &&& after == marks.last()
    &&& forall|i: int| 0 <= i < n - 1 ==> not_ready(#[trigger] results[i])
    &&& not_ready(results.last()) ==> n == 20
    &&& ops_after == ops_before + retry_waits(
        if not_ready(results.last()) {
            n
        } else {
            (n - 1) as nat
        },
    )
    &&& match results.last() {
        Ok(status) => if status.connected {
            r is Ok
        } else {
            r is Err && r->Err_0 is NotConnected
        },
        Err(e) => r is Err && r->Err_0 == e,
    }
}

/// The panel was asked for its timings.
#[verifier::opaque]
pub open spec fn timings_asked(
    before: Seq<IbootCall>,
    after: Seq<IbootCall>,
    at: nat,
    channel: u32,
    r: Result<Seq<DcpTimingMode>, DcpError>,
) -> bool {
    asked(before, after, at, channel, 4, r, |data: Result<Seq<u8>, DcpError>| timings_in(data))
}

/// The panel was asked for its color modes.
#[verifier::opaque]
pub open spec fn colors_asked(
    before: Seq<IbootCall>,
    after: Seq<IbootCall>,
    at: nat,
    channel: u32,
    r: Result<Seq<DcpColorMode>, DcpError>,
) -> bool {
    asked(before, after, at, channel, 5, r, |data: Result<Seq<u8>, DcpError>| colors_in(data))
}

/// A mode was set.
#[verifier::opaque]
pub open spec fn mode_commanded(
    before: Seq<IbootCall>,
    after: Seq<IbootCall>,
    at: nat,
    channel: u32,
    timing: DcpTimingMode,
    color: DcpColorMode,
    r: Result<(), DcpError>,
) -> bool {
    commanded(before, after, at, channel, 6, timing_bytes(timing) + color_bytes(color), r)
}

/// No timing can be used.
#[verifier::opaque]
pub open spec fn no_usable_timing(timings: Seq<DcpTimingMode>) -> bool {
    forall|j: int| 0 <= j < timings.len() ==> !usable_timing(#[trigger] timings[j])
}

/// No color mode can be used.
#[verifier::opaque]
pub open spec fn no_usable_color(colors: Seq<DcpColorMode>) -> bool {
    forall|j: int| 0 <= j < colors.len() ==> (#[trigger] colors[j]).valid == 0
}

/// A timing that was chosen.
#[verifier::opaque]
pub open spec fn is_timing_choice(modes: Seq<DcpTimingMode>, m: DcpTimingMode) -> bool {
    exists|i: int| #[trigger] best_timing(modes, i) && modes[i] == m
}

/// A color mode that was chosen.
#[verifier::opaque]
pub open spec fn is_color_choice(modes: Seq<DcpColorMode>, m: DcpColorMode) -> bool {
    exists|i: int| #[trigger] best_color(modes, i) && modes[i] == m
}

/// What the panel offered.
pub struct Offer {
    pub timings: Result<Seq<DcpTimingMode>, DcpError>,
    pub after_timings: Seq<IbootCall>,
    pub colors: Result<Seq<DcpColorMode>, DcpError>,
    pub after_colors: Seq<IbootCall>,
    pub timing: DcpTimingMode,
    pub color: DcpColorMode,
    pub set: Result<(), DcpError>,
}

/// A mode was selected: the best of each list, in that order, up to the first
/// failure.
pub open spec fn mode_selected_with(
    before: Seq<IbootCall>,
    after: Seq<IbootCall>,
    at: nat,
    channel: u32,
    r: Result<(DcpTimingMode, DcpColorMode), DcpError>,
    o: Offer,
) -> bool {
    &&& timings_asked(before, o.after_timings, at, channel, o.timings)
    &&& match o.timings {
        Err(e) => after == o.after_timings && r is Err && r->Err_0 == e,
        Ok(timings) => if no_usable_timing(timings) {
            after == o.after_timings && r is Err && r->Err_0 is NoTiming
        } else {
            &&& is_timing_choice(timings, o.timing)
            &&& colors_asked(o.after_timings, o.after_colors, at, channel, o.colors)
            &&& match o.colors {
                Err(e) => after == o.after_colors && r is Err && r->Err_0 == e,
                Ok(colors) => if no_usable_color(colors) {
                    after == o.after_colors && r is Err && r->Err_0 is NoColor
                } else {
                    &&& is_color_choice(colors, o.color)
                    &&& mode_commanded(
                        o.after_colors,
                        after,
                        at,
                        channel,
                        o.timing,
                        o.color,
                        o.set,
                    )
                    &&& match o.set {
                        Ok(()) => r == Ok::<(DcpTimingMode, DcpColorMode), DcpError>(
                            (o.timing, o.color),
                        ),
                        Err(e) => r is Err && r->Err_0 == e,
                    }
                },
            }
        },
    }
}

impl<T: IbootTransport> DcpIboot<T> {
    /// Wait until the panel is ready; in the end it is enough that it is
    /// connected.
    pub fn wait_for_panel<M: Mmio>(&mut self, bus: &mut Bus<M>) -> (r: Result<(), DcpError>)
        ensures
            final(self).same_service(old(self)),
            exists|marks: Seq<Seq<IbootCall>>, results: Seq<Result<PanelStatus, DcpError>>|
                #[trigger] panel_awaited(
                    old(self).calls(),
                    final(self).calls(),
                    old(bus).ops(),
                    final(bus).ops(),
                    old(self).channel,
                    r,
                    marks,
                    results,
                ),
    {
        let ghost before = self.calls();
        let ghost ops = bus.ops();
        let ghost mut marks: Seq<Seq<IbootCall>> = Seq::empty();
        let ghost mut results: Seq<Result<PanelStatus, DcpError>> = Seq::empty();
        let mut tries: u32 = 0;
        assert(ops + retry_waits(0) =~= ops);
        while tries < DCP_STATUS_RETRIES
            invariant
                tries < 20,
                self.same_service(old(self)),
                before == old(self).calls(),
                ops == old(bus).ops(),
                results.len() == tries,
                statuses_asked(before, marks, ops.len(), self.channel, results),
                self.calls() == last_mark(before, marks),
                forall|i: int| 0 <= i < results.len() ==> not_ready(#[trigger] results[i]),
                bus.ops() == ops + retry_waits(tries as nat),
            decreases 20 - tries,
        {
            let ghost start = self.calls();
            let answer = self.display_status(bus);
            proof {
                assert(bus.ops().len() == ops.len() + tries);
                assert(status_asked(
                    start,
                    self.calls(),
                    ops.len() + tries as nat,
                    self.channel,
                    answer,
                )) by {
                    reveal(status_asked);
                }
                statuses_extended(
                    before,
                    marks,
                    ops.len(),
                    self.channel,
                    results,
                    self.calls(),
                    answer,
                );
                marks = marks.push(self.calls());
                results = results.push(answer);
                assert(results.drop_last() =~= results.take(tries as int));
            }
            match answer {
                Ok(status) => {
                    if status.connected && status.timing_count > 0 && status.color_count > 0 {
                        assert(panel_awaited(
                            before,
                            self.calls(),
                            ops,
                            bus.ops(),
                            self.channel,
                            Ok(()),
                            marks,
                            results,
                        ));
                        return Ok(());
                    }
                    bus.udelay(DCP_STATUS_RETRY_US);
                    assert(bus.ops() =~= ops + retry_waits((tries + 1) as nat));
                    if tries == 19 {
                        let r = if status.connected {
                            Ok(())
                        } else {
                            Err(DcpError::NotConnected)
                        };
                        assert(panel_awaited(
                            before,
                            self.calls(),
                            ops,
                            bus.ops(),
                            self.channel,
                            r,
                            marks,
                            results,
                        ));
                        return r;
                    }
                },
                Err(e) => {
                    let r = Err(e);
                    assert(panel_awaited(
                        before,
                        self.calls(),
                        ops,
                        bus.ops(),
                        self.channel,
                        r,
                        marks,
                        results,
                    ));
                    return r;
                },
            }
            tries = tries + 1;
        }
        Err(DcpError::NotConnected)
    }

    /// Select the best timing and color mode of the panel.
    pub fn select_mode<M: Mmio>(&mut self, bus: &Bus<M>) -> (r: Result<
        (DcpTimingMode, DcpColorMode),
        DcpError,
    >)
        ensures
            final(self).same_service(old(self)),
            exists|o: Offer| #[trigger]
                mode_selected_with(
                    old(self).calls(),
                    final(self).calls(),
                    bus.ops().len(),
                    old(self).channel,
                    r,
                    o,
                ),
    {
        let ghost before = self.calls();
        let ghost at = bus.ops().len();
        let offered = self.timing_modes(bus);
        assert(timings_asked(before, self.calls(), at, self.channel, modes_view(offered))) by {
            reveal(timings_asked);
        }
        let ghost mut o = Offer {
            timings: modes_view(offered),
            after_timings: self.calls(),
            colors: Err(DcpError::NoColor),
            after_colors: self.calls(),
            timing: DcpTimingMode { valid: 0, width: 0, height: 0, fps: 0, pad: 0 },
            color: DcpColorMode {
                valid: 0,
                colorimetry: 0,
                eotf: 0,
                encoding: 0,
                bpp: 0,
                pad: 0,
            },
            set: Ok(()),
        };
        let timings = match offered {
            Ok(timings) => timings,
            Err(e) => {
                let r = Err(e);
                assert(mode_selected_with(before, self.calls(), at, self.channel, r, o));
                return r;
            },
        };
        let timing = match choose_timing(timings.as_slice()) {
            Some(timing) => timing,
            None => {
                assert(no_usable_timing(timings@)) by {
                    reveal(no_usable_timing);
                }
                let r = Err(DcpError::NoTiming);
                assert(mode_selected_with(before, self.calls(), at, self.channel, r, o));
                return r;
            },
        };
        let offered_colors = self.color_modes(bus);
        assert(colors_asked(
            o.after_timings,
            self.calls(),
            at,
            self.channel,
            modes_view(offered_colors),
        )) by {
            reveal(colors_asked);
        }
        proof {
            o = Offer {
                colors: modes_view(offered_colors),
                after_colors: self.calls(),
                timing,
                ..o
            };
            assert(is_timing_choice(timings@, timing) && !no_usable_timing(timings@)) by {
                reveal(is_timing_choice);
                reveal(no_usable_timing);
                let i = choose|i: int| #[trigger]
                    best_timing(timings@, i) && timings@[i] == timing;
                assert(usable_timing(timings@[i]));
            }
        }
        let colors = match offered_colors {
            Ok(colors) => colors,
            Err(e) => {
                let r = Err(e);
                assert(mode_selected_with(before, self.calls(), at, self.channel, r, o));
                return r;
            },
        };
        let color = match choose_color(colors.as_slice()) {
            Some(color) => color,
            None => {
                assert(no_usable_color(colors@)) by {
                    reveal(no_usable_color);
                }
                let r = Err(DcpError::NoColor);
                assert(mode_selected_with(before, self.calls(), at, self.channel, r, o));
                return r;
            },
        };
        let set = self.set_mode(bus, &timing, &color);
        proof {
            o = Offer { color, set, ..o };
            assert(is_color_choice(colors@, color) && !no_usable_color(colors@)) by {
                reveal(is_color_choice);
                reveal(no_usable_color);
                let i = choose|i: int| #[trigger] best_color(colors@, i) && colors@[i] == color;
                assert(colors@[i].valid != 0);
            }
            assert(mode_commanded(
                o.after_colors,
                self.calls(),
                at,
                self.channel,
                timing,
                color,
                set,
            )) by {
                reveal(mode_commanded);
            }
        }
        let r = match set {
            Ok(()) => Ok((timing, color)),
            Err(e) => Err(e),
        };
        assert(mode_selected_with(before, self.calls(), at, self.channel, r, o));
        r
    }
}

proof fn statuses_extended(
    before: Seq<IbootCall>,
    marks: Seq<Seq<IbootCall>>,
    at: nat,
    channel: u32,
    results: Seq<Result<PanelStatus, DcpError>>,
    after: Seq<IbootCall>,
    r: Result<PanelStatus, DcpError>,
)
    requires
        statuses_asked(before, marks, at, channel, results),
        status_asked(last_mark(before, marks), after, at + marks.len(), channel, r),
    ensures
        statuses_asked(before, marks.push(after), at, channel, results.push(r)),
{
    let next = marks.push(after);
    let all = results.push(r);
    assert forall|k: int| 0 <= k < next.len() implies status_asked(
        mark_before(before, next, k),
        #[trigger] next[k],
        at + k as nat,
        channel,
        all[k],
    ) by {
        if k < marks.len() {
            assert(status_asked(
                mark_before(before, marks, k),
                marks[k],
                at + k as nat,
                channel,
                results[k],
            ));
            assert(mark_before(before, next, k) == mark_before(before, marks, k));
        } else {
            assert(mark_before(before, next, k) == last_mark(before, marks));
        }
    }
}

/// The framebuffer for a timing; rows that do not fit are cut.
pub open spec fn config_of(timing: DcpTimingMode) -> FramebufferConfig {
    FramebufferConfig {
        width: timing.width,
        height: timing.height,
        format: PixelFormat::BGRA8888,
        stride: if timing.width * 4 > u32::MAX {
            u32::MAX
        } else {
            (timing.width * 4) as u32
        },
    }
}

pub fn framebuffer_config(timing: &DcpTimingMode) -> (r: FramebufferConfig)
    ensures
        r == config_of(*timing),
{
    let stride: u32 = if timing.width > 0x3fff_ffff {
        0xffff_ffff
    } else {
        timing.width * 4
    };
    FramebufferConfig {
        width: timing.width,
        height: timing.height,
        format: PixelFormat::BGRA8888,
        stride,
    }
}

/// How long a buffer stays on the screen: one scan period and a millisecond.
pub fn frame_delay_us(timing: &DcpTimingMode) -> (r: u64)
    ensures
        r == (if timing.fps == 0 {
            17_667
        } else {
            ceil_div(65_536_000_000, timing.fps as int) + 1_000
        }),
{
    if timing.fps == 0 {
        17_667
    } else {
        proof {
            ceil_div_counts(65_536_000_000, timing.fps as int);
        }
        div_ceil_u64(65_536_000_000, timing.fps as u64) + 1_000
    }
}

/// Sizes of the buffers.
#[derive(Clone, Copy, Debug, PartialEq, Eq, Structural)]
pub struct ScanoutPlan {
    /// Bytes of each scanout buffer.
    pub allocation_size: u64,
    pub render_pages: u64,
    pub scanout_pages: u64,
    /// Where the coprocessor finds the scanout buffers.
    pub first_dva: u64,
    pub second_dva: u64,
}

/// Bytes of a scanout buffer: the visible ones and 24 pages, in whole pages.
pub open spec fn allocation_of(visible_size: u64, page_size: u64) -> int {
    ceil_div(visible_size + 24 * page_size, page_size as int) * page_size
}

/// Plan the buffers of a display.
pub fn plan_scanout(visible_size: u64, page_size: u64) -> (r: Result<ScanoutPlan, DcpError>)
    requires
        0 < page_size <= 0x1_0000,
    ensures
        allocation_of(visible_size, page_size) + 0x4000_0000 <= u64::MAX ==> r is Ok && r->Ok_0 == (
        ScanoutPlan {
            allocation_size: allocation_of(visible_size, page_size) as u64,
            render_pages: ceil_div(visible_size as int, 4096) as u64,
            scanout_pages: ceil_div(allocation_of(visible_size, page_size), 4096) as u64,
            first_dva: 0x4000_0000,
            second_dva: (0x4000_0000 + allocation_of(visible_size, page_size)) as u64,
        }),
        allocation_of(visible_size, page_size) + 0x4000_0000 > u64::MAX ==> r is Err && r->Err_0
            is ScanoutOverflow,
{
    proof {
        ceil_div_counts(visible_size + 24 * page_size, page_size as int);
    }
    let padded: u64 = match visible_size.checked_add(24 * page_size) {
        Some(padded) => padded,
        None => {
            return Err(DcpError::ScanoutOverflow);
        },
    };
    if padded > u64::MAX - DCP_SCANOUT_IOVA_BASE - page_size {
        let blocks: u64 = div_ceil_u64(padded, page_size);
        match blocks.checked_mul(page_size) {
            Some(size) => {
                if size > u64::MAX - DCP_SCANOUT_IOVA_BASE {
                    return Err(DcpError::ScanoutOverflow);
                }
            },
            None => {
                return Err(DcpError::ScanoutOverflow);
            },
        }
    }
    let allocation_size: u64 = div_ceil_u64(padded, page_size) * page_size;
    proof {
        ceil_div_counts(visible_size as int, 4096);
        ceil_div_counts(allocation_size as int, 4096);
    }
    Ok(
        ScanoutPlan {
            allocation_size,
            render_pages: div_ceil_u64(visible_size, 4096),
            scanout_pages: div_ceil_u64(allocation_size, 4096),
            first_dva: DCP_SCANOUT_IOVA_BASE,
            second_dva: DCP_SCANOUT_IOVA_BASE + allocation_size,
        },
    )
}

/// A rectangle of a display.
#[derive(Clone, Copy, Debug, PartialEq, Eq, Structural)]
pub struct DisplayRegion {
    pub x: u32,
    pub y: u32,
    pub width: u32,
    pub height: u32,
}

/// The smaller of two numbers.
pub open spec fn lesser(a: u32, b: u32) -> u32 {
    if a < b {
        a
    } else {
        b
    }
}

/// The part of a region that lies on the surface.
pub open spec fn clipped(config: FramebufferConfig, region: DisplayRegion) -> DisplayRegion {
    let x = lesser(region.x, config.width);
    let y = lesser(region.y, config.height);
    DisplayRegion {
        x,
        y,
        width: lesser(region.width, (config.width - x) as u32),
        height: lesser(region.height, (config.height - y) as u32),
    }
}

fn lesser_of(a: u32, b: u32) -> (r: u32)
    ensures
        r == lesser(a, b),
{
    if a < b {
        a
    } else {
        b
    }
}

/// A point lies in a clipped region exactly where it lies in the region and
/// on the surface.
pub proof fn clipping_keeps_what_is_visible(
    config: FramebufferConfig,
    region: DisplayRegion,
    px: int,
    py: int,
)
    ensures
        ({
            let c = clipped(config, region);
            c.x <= px < c.x + c.width && c.y <= py < c.y + c.height
        }) <==> (region.x <= px < region.x + region.width && region.y <= py < region.y
            + region.height && px < config.width && py < config.height),
{
}

/// A scanout buffer.
#[derive(Clone, Copy, Debug, PartialEq, Eq, Structural)]
pub struct Scanout {
    pub virt: usize,
    pub paddr: u64,
    pub dva: u64,
}

/// A display with a surface to draw on and two buffers to show.
pub struct AppleDcpGraphics {
    pub config: FramebufferConfig,
    /// Where the surface is mapped, and its physical address.
    pub render_virt: usize,
    pub render_paddr: u64,
    pub scanout0: Scanout,
    pub scanout1: Scanout,
    /// The second buffer is on the screen.
    pub second_in_front: bool,
    pub frame_delay_us: u64,
}

/// Bytes of a surface.
pub open spec fn surface_size(config: FramebufferConfig) -> int {
    config.stride * config.height
}

/// A buffer lies in the address space.
pub open spec fn buffer_fits(config: FramebufferConfig, virt: usize) -> bool {
    virt + surface_size(config) <= usize::MAX
}

/// A region on a surface whose rows hold all their pixels.
pub open spec fn on_surface(config: FramebufferConfig, region: DisplayRegion) -> bool {
    &&& region.x + region.width <= config.width
    &&& region.y + region.height <= config.height
    &&& 4 * config.width <= config.stride
}

/// Where a row of a region begins.
pub open spec fn row_offset(config: FramebufferConfig, region: DisplayRegion, row: int) -> int {
    (region.y + row) * config.stride + 4 * region.x
}

/// A row copied from one buffer to another.
pub open spec fn row_ops(src: usize, dst: usize, offset: int, bytes: Seq<u8>) -> Seq<Op> {
    seq![
        Op::ReadBytes { addr: (src + offset) as usize, bytes },
        Op::WriteBytes { addr: (dst + offset) as usize, bytes },
    ]
}

/// Rows copied from one buffer to another, from the top down.
pub open spec fn copy_ops(
    config: FramebufferConfig,
    src: usize,
    dst: usize,
    region: DisplayRegion,
    rows: Seq<Seq<u8>>,
) -> Seq<Op>
    decreases rows.len(),
{
    if rows.len() == 0 {
        Seq::empty()
    } else {
        copy_ops(config, src, dst, region, rows.drop_last()) + row_ops(
            src,
            dst,
            row_offset(config, region, rows.len() - 1),
            rows.last(),
        )
    }
}

/// Rows of a region: one for each line, with all bytes of its pixels.
pub open spec fn rows_of(region: DisplayRegion, rows: Seq<Seq<u8>>) -> bool {
    &&& rows.len() == region.height
    &&& forall|i: int| 0 <= i < rows.len() ==> (#[trigger] rows[i]).len() == 4 * region.width
}

proof fn row_fits(config: FramebufferConfig, region: DisplayRegion, row: int)
    requires
        on_surface(config, region),
        0 <= row < region.height,
    ensures
        0 <= row_offset(config, region, row),
        row_offset(config, region, row) + 4 * region.width <= surface_size(config),
        row_offset(config, region, row) == region.y * config.stride + row * config.stride + 4
            * region.x,
{
    let s = config.stride as int;
    let y = region.y as int;
    let h = config.height as int;
    assert((y + row) * s == y * s + row * s) by (nonlinear_arith);
    assert((y + row) * s <= (h - 1) * s) by (nonlinear_arith)
        requires
            y + row <= h - 1,
            s >= 0,
    ;
    assert((h - 1) * s == h * s - s) by (nonlinear_arith);
    assert(h * s == s * h) by (nonlinear_arith);
    assert((y + row) * s >= 0) by (nonlinear_arith)
        requires
            y + row >= 0,
            s >= 0,
    ;
}

/// Copy a region from one buffer to another.
fn copy_region<M: Mmio>(
    bus: &mut Bus<M>,
    config: &FramebufferConfig,
    src: usize,
    dst: usize,
    region: &DisplayRegion,
) -> (rows: Ghost<Seq<Seq<u8>>>)
    requires
        on_surface(*config, *region),
        buffer_fits(*config, src),
        buffer_fits(*config, dst),
    ensures
        rows_of(*region, rows@),
        final(bus).ops() == old(bus).ops() + copy_ops(*config, src, dst, *region, rows@),
{
    let ghost start = bus.ops();
    let row_bytes: usize = region.width as usize * 4;
    let ghost mut rows: Seq<Seq<u8>> = Seq::empty();
    let mut row: u32 = 0;
    assert(start + copy_ops(*config, src, dst, *region, rows) =~= start);
    while row < region.height
        invariant
            on_surface(*config, *region),
            buffer_fits(*config, src),
            buffer_fits(*config, dst),
            row <= region.height,
            row_bytes == 4 * region.width,
            rows.len() == row,
            forall|i: int| 0 <= i < rows.len() ==> (#[trigger] rows[i]).len() == 4 * region.width,
            bus.ops() == start + copy_ops(*config, src, dst, *region, rows),
        decreases region.height - row,
    {
        proof {
            row_fits(*config, *region, row as int);
        }
        let line: u64 = (region.y + row) as u64;
        let offset64: u64 = line * config.stride as u64 + region.x as u64 * 4;
        let offset: usize = offset64 as usize;
        let ghost before = bus.ops();
        let bytes = bus.read_bytes(src + offset, row_bytes);
        bus.write_bytes(dst + offset, bytes.as_slice());
        proof {
            let more = row_ops(src, dst, offset as int, bytes@);
            assert(bus.ops() =~= before + more);
            let next = rows.push(bytes@);
            assert(next.drop_last() =~= rows);
            append_assoc(start, copy_ops(*config, src, dst, *region, rows), more);
            rows = next;
        }
        row = row + 1;
    }
    Ghost(rows)
}

/// What was seen and said while a region was presented.
pub struct Presentation {
    pub drawn: Seq<Seq<u8>>,
    pub shown: Seq<Seq<u8>>,
    pub swap: Result<(), DcpError>,
}

impl AppleDcpGraphics {
    /// All buffers lie in the address space and hold whole rows.
    pub open spec fn wf(&self) -> bool {
        &&& buffer_fits(self.config, self.render_virt)
        &&& buffer_fits(self.config, self.scanout0.virt)
        &&& buffer_fits(self.config, self.scanout1.virt)
        &&& 4 * self.config.width <= self.config.stride
    }

    /// The buffer on the screen.
    pub open spec fn front(&self) -> Scanout {
        if self.second_in_front {
            self.scanout1
        } else {
            self.scanout0
        }
    }

    /// The other buffer.
    pub open spec fn back(&self) -> Scanout {
        if self.second_in_front {
            self.scanout0
        } else {
            self.scanout1
        }
    }

    /// Only the roles of the buffers may differ.
    pub open spec fn same_display(&self, other: &AppleDcpGraphics) -> bool {
        &&& self.config == other.config
        &&& self.render_virt == other.render_virt
        &&& self.render_paddr == other.render_paddr
        &&& self.scanout0 == other.scanout0
        &&& self.scanout1 == other.scanout1
        &&& self.frame_delay_us == other.frame_delay_us
    }

    pub fn clipped_region(&self, region: &DisplayRegion) -> (r: DisplayRegion)
        ensures
            r == clipped(self.config, *region),
    {
        let x: u32 = lesser_of(region.x, self.config.width);
        let y: u32 = lesser_of(region.y, self.config.height);
        DisplayRegion {
            x,
            y,
            width: lesser_of(region.width, self.config.width - x),
            height: lesser_of(region.height, self.config.height - y),
        }
    }

    /// Show a changed region: copy it into the buffer that is not on the
    /// screen, put that one on the screen, and bring the other one up to
    /// date.
    pub fn present_framebuffer_region<M: Mmio, T: IbootTransport>(
        &mut self,
        bus: &mut Bus<M>,
        iboot: &mut DcpIboot<T>,
        config: &FramebufferConfig,
        physical_addr: u64,
        region: &DisplayRegion,
    ) -> (r: Result<(), DcpError>)
        requires
            old(self).wf(),
        ensures
            final(self).wf(),
            final(self).same_display(old(self)),
            final(iboot).same_service(old(iboot)),
            physical_addr != old(self).render_paddr || *config != old(self).config ==> {
                &&& r is Err && r->Err_0 is SurfaceMismatch
                &&& final(self).second_in_front == old(self).second_in_front
                &&& final(bus).ops() == old(bus).ops()
                &&& final(iboot).calls() == old(iboot).calls()
            },
            physical_addr == old(self).render_paddr && *config == old(self).config ==> {
                let part = clipped(old(self).config, *region);
                if part.width == 0 || part.height == 0 {
                    &&& r is Ok
                    &&& final(self).second_in_front == old(self).second_in_front
                    &&& final(bus).ops() == old(bus).ops()
                    &&& final(iboot).calls() == old(iboot).calls()
                } else {
                    &&& exists|p: Presentation| #[trigger]
                        presented_with(
                            old(self),
                            old(bus).ops(),
                            final(bus).ops(),
                            part,
                            r,
                            p,
                        ) && swapped(
                            old(iboot).calls(),
                            final(iboot).calls(),
                            drawn_by(old(self), old(bus).ops(), part, p).len(),
                            old(iboot).channel,
                            old(iboot).firmware_v13,
                            layer_of(old(self).config, old(self).back().dva),
                            old(self).config.width,
                            old(self).config.height,
                            r,
                        )
                    &&& final(self).second_in_front == (if r is Ok {
                        !old(self).second_in_front
                    } else {
                        old(self).second_in_front
                    })
                }
            },
    {
        if physical_addr != self.render_paddr || *config != self.config {
            return Err(DcpError::SurfaceMismatch);
        }
        let part = self.clipped_region(region);
        if part.width == 0 || part.height == 0 {
            return Ok(());
        }
        let ghost before = bus.ops();
        let next = if self.second_in_front {
            self.scanout0
        } else {
            self.scanout1
        };
        let front = if self.second_in_front {
            self.scanout1
        } else {
            self.scanout0
        };
        let Ghost(drawn) = copy_region(bus, &self.config, self.render_virt, next.virt, &part);
        bus.barrier();
        let ghost ordered = bus.ops();
        proof {
            let p = Presentation { drawn, shown: Seq::empty(), swap: Ok(()) };
            let first = copy_ops(self.config, self.render_virt, next.virt, part, drawn);
            assert(ordered =~= before + first.push(Op::Fence));
            assert(ordered == drawn_by(self, before, part, p));
        }
        let layer = make_layer(&self.config, next.dva);
        let swap = iboot.swap(bus, &layer, self.config.width, self.config.height);
        match swap {
            Ok(()) => {},
            Err(_) => {
                proof {
                    let p = Presentation { drawn, shown: Seq::empty(), swap };
                    assert(presented_with(old(self), before, bus.ops(), part, swap, p));
                }
                return swap;
            },
        }
        bus.udelay(self.frame_delay_us);
        let ghost waited = bus.ops();
        let Ghost(shown) = copy_region(bus, &self.config, next.virt, front.virt, &part);
        self.second_in_front = !self.second_in_front;
        proof {
            let p = Presentation { drawn, shown, swap };
            let first = copy_ops(self.config, self.render_virt, next.virt, part, drawn);
            let wait = Op::Delay { us: self.frame_delay_us };
            let second = copy_ops(self.config, next.virt, front.virt, part, shown);
            assert(ordered =~= before + first.push(Op::Fence));
            assert(waited =~= before + first.push(Op::Fence).push(wait));
            append_assoc(before, first.push(Op::Fence).push(wait), second);
            assert(presented_with(old(self), before, bus.ops(), part, swap, p));
        }
        swap
    }

    pub fn scanout_buffer_count(&self) -> (r: usize)
        ensures
            r == 2,
    {
        2
    }

    /// Physical address of a scanout buffer.
    pub fn get_scanout_buffer_info(&self, index: usize) -> (r: Result<
        (FramebufferConfig, u64),
        DcpError,
    >)
        ensures
            index == 0 ==> r == Ok::<(FramebufferConfig, u64), DcpError>(
                (self.config, self.scanout0.paddr),
            ),
            index == 1 ==> r == Ok::<(FramebufferConfig, u64), DcpError>(
                (self.config, self.scanout1.paddr),
            ),
            index >= 2 ==> r is Err && r->Err_0 is BadScanoutIndex,
    {
        if index == 0 {
            Ok((self.config, self.scanout0.paddr))
        } else if index == 1 {
            Ok((self.config, self.scanout1.paddr))
        } else {
            Err(DcpError::BadScanoutIndex)
        }
    }

    /// Show a scanout buffer that was drawn on directly.
    pub fn present_scanout_buffer<M: Mmio, T: IbootTransport>(
        &mut self,
        bus: &mut Bus<M>,
        iboot: &mut DcpIboot<T>,
        index: usize,
    ) -> (r: Result<(), DcpError>)
        ensures
            final(self).same_display(old(self)),
            final(iboot).same_service(old(iboot)),
            index >= 2 ==> {
                &&& r is Err && r->Err_0 is BadScanoutIndex
                &&& *final(self) == *old(self)
                &&& final(bus).ops() == old(bus).ops()
                &&& final(iboot).calls() == old(iboot).calls()
            },
            index < 2 ==> final(bus).ops() == old(bus).ops().push(Op::Fence),
            index < 2 && (index == 1) == old(self).second_in_front ==> {
                &&& r is Err && r->Err_0 is AlreadyFront
                &&& *final(self) == *old(self)
                &&& final(iboot).calls() == old(iboot).calls()
            },
            index < 2 && (index == 1) != old(self).second_in_front ==> {
                &&& swapped(
                    old(iboot).calls(),
                    final(iboot).calls(),
                    old(bus).ops().len() + 1,
                    old(iboot).channel,
                    old(iboot).firmware_v13,
                    layer_of(old(self).config, old(self).back().dva),
                    old(self).config.width,
                    old(self).config.height,
                    r,
                )
                &&& final(self).second_in_front == (if r is Ok {
                    !old(self).second_in_front
                } else {
                    old(self).second_in_front
                })
            },
    {
        if index >= 2 {
            return Err(DcpError::BadScanoutIndex);
        }
        let dva: u64 = if index == 0 {
            self.scanout0.dva
        } else {
            self.scanout1.dva
        };
        bus.barrier();
        if (index == 1) == self.second_in_front {
            return Err(DcpError::AlreadyFront);
        }
        let layer = make_layer(&self.config, dva);
        let swap = iboot.swap(bus, &layer, self.config.width, self.config.height);
        match swap {
            Ok(()) => {
                self.second_in_front = index == 1;
            },
            Err(_) => {},
        }
        swap
    }
}

/// The accesses until a region was drawn into the buffer behind the screen and
/// ordered.
pub open spec fn drawn_by(
    me: &AppleDcpGraphics,
    before: Seq<Op>,
    part: DisplayRegion,
    p: Presentation,
) -> Seq<Op> {
    before + copy_ops(me.config, me.render_virt, me.back().virt, part, p.drawn).push(Op::Fence)
}

/// A region was presented: drawn into the buffer behind the screen and
/// ordered, then, where the swap succeeded, shown for a while and copied into
/// the other buffer.
pub open spec fn presented_with(
    me: &AppleDcpGraphics,
    before: Seq<Op>,
    after: Seq<Op>,
    part: DisplayRegion,
    r: Result<(), DcpError>,
    p: Presentation,
) -> bool {
    let first = copy_ops(me.config, me.render_virt, me.back().virt, part, p.drawn);
    &&& rows_of(part, p.drawn)
    &&& r == p.swap
    &&& if p.swap is Ok {
        &&& rows_of(part, p.shown)
        &&& after == before + (first.push(Op::Fence).push(
            Op::Delay { us: me.frame_delay_us },
        ) + copy_ops(me.config, me.back().virt, me.front().virt, part, p.shown))
    } else {
        after == before + first.push(Op::Fence)
    }
}

/// Two surfaces do not overlap.
pub open spec fn surfaces_apart(config: FramebufferConfig, a: usize, b: usize) -> bool {
    a + surface_size(config) <= b || b + surface_size(config) <= a
}

/// A row of a region, byte by byte, is the same in two memories at two places.
pub open spec fn row_agrees(
    config: FramebufferConfig,
    region: DisplayRegion,
    m: Memory,
    src: usize,
    after: Memory,
    dst: usize,
    row: int,
) -> bool {
    forall|k: int|
        0 <= k < 4 * region.width ==> #[trigger] after(dst + row_offset(config, region, row) + k)
            == m(src + row_offset(config, region, row) + k)
}

/// A region is the same in two memories at two places.
pub open spec fn region_agrees(
    config: FramebufferConfig,
    region: DisplayRegion,
    m: Memory,
    src: usize,
    after: Memory,
    dst: usize,
) -> bool {
    forall|row: int|
        0 <= row < region.height ==> #[trigger] row_agrees(config, region, m, src, after, dst, row)
}

proof fn rows_copied(
    m: Memory,
    config: FramebufferConfig,
    src: usize,
    dst: usize,
    region: DisplayRegion,
    rows: Seq<Seq<u8>>,
)
    requires
        on_surface(config, region),
        buffer_fits(config, src),
        buffer_fits(config, dst),
        surfaces_apart(config, src, dst),
        rows.len() <= region.height,
        forall|i: int| 0 <= i < rows.len() ==> (#[trigger] rows[i]).len() == 4 * region.width,
        faithful(m, copy_ops(config, src, dst, region, rows)),
    ensures
        forall|a: int|
            a < dst || dst + surface_size(config) <= a ==> #[trigger] memory_after(
                m,
                copy_ops(config, src, dst, region, rows),
            )(a) == m(a),
        forall|row: int|
            0 <= row < rows.len() ==> #[trigger] row_agrees(
                config,
                region,
                m,
                src,
                memory_after(m, copy_ops(config, src, dst, region, rows)),
                dst,
                row,
            ),
    decreases rows.len(),
{
    if rows.len() > 0 {
        let n = rows.len() - 1;
        let less = rows.drop_last();
        let bytes = rows.last();
        let off = row_offset(config, region, n);
        let earlier = copy_ops(config, src, dst, region, less);
        let look = Op::ReadBytes { addr: (src + off) as usize, bytes };
        let put = Op::WriteBytes { addr: (dst + off) as usize, bytes };
        row_fits(config, region, n);
        memory_append(m, earlier, row_ops(src, dst, off, bytes));
        rows_copied(m, config, src, dst, region, less);
        let m1 = memory_after(m, earlier);
        let none = Seq::<Op>::empty();
        assert(row_ops(src, dst, off, bytes) =~= none.push(look).push(put));
        memory_push(m1, none, look);
        memory_push(m1, none.push(look), put);
        let m2 = memory_after(m1, none.push(look).push(put));
        assert(sees(m1, look));
        assert(m2 == stored(m1, dst + off, bytes));
        assert forall|row: int| 0 <= row < rows.len() implies #[trigger] row_agrees(
            config,
            region,
            m,
            src,
            m2,
            dst,
            row,
        ) by {
            row_fits(config, region, row);
            let at = row_offset(config, region, row);
            if row < n {
                assert(row_agrees(config, region, m, src, m1, dst, row));
                let s = config.stride as int;
                assert(row * s + s <= n * s) by (nonlinear_arith)
                    requires
                        row + 1 <= n,
                        s >= 0,
                ;
                assert(at + 4 * region.width <= off);
                assert forall|k: int| 0 <= k < 4 * region.width implies #[trigger] m2(dst + at + k)
                    == m(src + at + k) by {
                    assert(m1(dst + at + k) == m(src + at + k));
                }
            } else {
                assert forall|k: int| 0 <= k < 4 * region.width implies #[trigger] m2(dst + at + k)
                    == m(src + at + k) by {
                    assert(bytes[k] == bytes_at(m1, src + off, bytes.len())[k]);
                    assert(m1(src + off + k) == m(src + off + k));
                }
            }
        }
    }
}

/// Copying a region makes it the same in both buffers and changes nothing
/// outside the second.
pub proof fn copied_region_agrees(
    m: Memory,
    config: FramebufferConfig,
    src: usize,
    dst: usize,
    region: DisplayRegion,
    rows: Seq<Seq<u8>>,
)
    requires
        on_surface(config, region),
        buffer_fits(config, src),
        buffer_fits(config, dst),
        surfaces_apart(config, src, dst),
        rows_of(region, rows),
        faithful(m, copy_ops(config, src, dst, region, rows)),
    ensures
        region_agrees(
            config,
            region,
            m,
            src,
            memory_after(m, copy_ops(config, src, dst, region, rows)),
            dst,
        ),
        forall|a: int|
            a < dst || dst + surface_size(config) <= a ==> #[trigger] memory_after(
                m,
                copy_ops(config, src, dst, region, rows),
            )(a) == m(a),
{
    rows_copied(m, config, src, dst, region, rows);
}

/// Once a region was presented, both scanout buffers show what was drawn
/// there, so that the next change may go to either of them.
pub proof fn presenting_keeps_buffers_coherent(
    me: &AppleDcpGraphics,
    m: Memory,
    part: DisplayRegion,
    ops: Seq<Op>,
    p: Presentation,
)
    requires
        me.wf(),
        on_surface(me.config, part),
        surfaces_apart(me.config, me.render_virt, me.scanout0.virt),
        surfaces_apart(me.config, me.render_virt, me.scanout1.virt),
        surfaces_apart(me.config, me.scanout0.virt, me.scanout1.virt),
        presented_with(me, Seq::empty(), ops, part, Ok(()), p),
        faithful(m, ops),
    ensures
        region_agrees(
            me.config,
            part,
            m,
            me.render_virt,
            memory_after(m, ops),
            me.back().virt,
        ),
        region_agrees(
            me.config,
            part,
            m,
            me.render_virt,
            memory_after(m, ops),
            me.front().virt,
        ),
{
    let config = me.config;
    let back = me.back().virt;
    let front = me.front().virt;
    let first = copy_ops(config, me.render_virt, back, part, p.drawn);
    let wait = Op::Delay { us: me.frame_delay_us };
    let second = copy_ops(config, back, front, part, p.shown);
    let head = first.push(Op::Fence).push(wait);
    assert(ops =~= head + second);
    memory_append(m, head, second);
    memory_push(m, first, Op::Fence);
    memory_push(m, first.push(Op::Fence), wait);
    let m1 = memory_after(m, first);
    assert(memory_after(m, head) == m1);
    let m2 = memory_after(m1, second);
    copied_region_agrees(m, config, me.render_virt, back, part, p.drawn);
    copied_region_agrees(m1, config, back, front, part, p.shown);
    assert forall|row: int| 0 <= row < part.height implies #[trigger] row_agrees(
        config,
        part,
        m,
        me.render_virt,
        m2,
        front,
        row,
    ) by {
        assert(row_agrees(config, part, m, me.render_virt, m1, back, row));
        assert(row_agrees(config, part, m1, back, m2, front, row));
        let at = row_offset(config, part, row);
        assert forall|k: int| 0 <= k < 4 * part.width implies #[trigger] m2(front + at + k) == m(
            me.render_virt + at + k,
        ) by {
            assert(m1(back + at + k) == m(me.render_virt + at + k));
        }
    }
    assert forall|row: int| 0 <= row < part.height implies #[trigger] row_agrees(
        config,
        part,
        m,
        me.render_virt,
        m2,
        back,
        row,
    ) by {
        row_fits(config, part, row);
        assert(row_agrees(config, part, m, me.render_virt, m1, back, row));
        let at = row_offset(config, part, row);
        assert forall|k: int| 0 <= k < 4 * part.width implies #[trigger] m2(back + at + k) == m(
            me.render_virt + at + k,
        ) by {
            assert(m1(back + at + k) == m(me.render_virt + at + k));
            assert(m2(back + at + k) == m1(back + at + k));
        }
    }
}

} // verus!
