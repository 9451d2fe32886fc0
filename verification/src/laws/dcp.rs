//! What the display coprocessor finds in the bytes it is sent, and which modes
//! and buffers are picked for it.

use crate::arith::{ceil_div, ceil_div_counts};
use crate::bus::Op;
use crate::bytes::{
    from_be32, from_be64, from_le32, from_le64, le32, le32_round_trip, le64, le64_round_trip,
};
use crate::dcp::{
    best_color, best_timing, color_at_least, color_bytes, colors_in, command_bytes, config_of,
    decimal, dma_mapped, dot_at, handoffs_in, is_v13, parsed_number, rounded,
    layer_bytes, layer_of, on_surface, plane_bytes, presented_with,
    presenting_keeps_buffers_coherent, rect_bytes, row_agrees, row_offset, status_in,
    surfaces_apart, swap_bytes, swap_steps, swapped, timing_at_least, timing_bytes, timings_in,
    usable_timing, AppleDcpGraphics, DcpColorMode, DcpDmaMapper, DcpError, DcpLayer, DcpTimingMode, DisplayRegion,
    Presentation,
};
use crate::dart::{DartError, Descent};
use crate::dcp_probe::{delay_of, plan_of};
use crate::epic::zeros;
use crate::laws::dart::{frame_in, looked_up, mapped_ranges_are_found, tables_apart};
use crate::memory::{faithful, memory_after, Memory};
use crate::ports::display::IbootCall;
use vstd::prelude::*;

verus! {

/// The bytes of a plane: the address at byte 4, the stride at byte 16 and the
/// address format at byte 36.
proof fn planes_hold_their_fields(addr: u64, stride: u32, addr_format: u32)
    ensures
        plane_bytes(addr, stride, addr_format).len() == 44,
        from_le32(plane_bytes(addr, stride, addr_format), 0) == 0,
        from_le64(plane_bytes(addr, stride, addr_format), 4) == addr,
        from_le32(plane_bytes(addr, stride, addr_format), 12) == 0,
        from_le32(plane_bytes(addr, stride, addr_format), 16) == stride,
        forall|i: int| 20 <= i < 36 ==> plane_bytes(addr, stride, addr_format)[i] == 0,
        from_le32(plane_bytes(addr, stride, addr_format), 36) == addr_format,
        forall|i: int| 40 <= i < 44 ==> plane_bytes(addr, stride, addr_format)[i] == 0,
{
    let b = plane_bytes(addr, stride, addr_format);
    le32_round_trip(0);
    le32_round_trip(stride);
    le32_round_trip(addr_format);
    le64_round_trip(addr);
    assert(b.subrange(0, 4) =~= le32(0));
    assert(b.subrange(4, 12) =~= le64(addr));
    assert(b.subrange(12, 16) =~= le32(0));
    assert(b.subrange(16, 20) =~= le32(stride));
    assert(b.subrange(36, 40) =~= le32(addr_format));
    same_word(b, 0, b.subrange(0, 4));
    same_word(b, 4, b.subrange(4, 12));
    same_long(b, 4, b.subrange(4, 12));
    same_word(b, 12, b.subrange(12, 16));
    same_word(b, 16, b.subrange(16, 20));
    same_word(b, 36, b.subrange(36, 40));
}

proof fn same_word(b: Seq<u8>, at: int, part: Seq<u8>)
    requires
        part.len() >= 4,
        0 <= at <= b.len() - part.len(),
        part == b.subrange(at, at + part.len()),
    ensures
        from_le32(b, at) == from_le32(part, 0),
{
    assert(part[0] == b[at]);
    assert(part[1] == b[at + 1]);
    assert(part[2] == b[at + 2]);
    assert(part[3] == b[at + 3]);
}

proof fn same_long(b: Seq<u8>, at: int, part: Seq<u8>)
    requires
        part.len() == 8,
        0 <= at <= b.len() - 8,
        part == b.subrange(at, at + 8),
    ensures
        from_le64(b, at) == from_le64(part, 0),
{
    same_word(b, at, part);
    assert(part[4] == b[at + 4]);
    assert(part[5] == b[at + 5]);
    assert(part[6] == b[at + 6]);
    assert(part[7] == b[at + 7]);
}

/// The encoded layer names its surface: 164 bytes with one plane, its address
/// at byte 4 and its stride at byte 16, two empty planes, the plane count at
/// byte 136, the width at byte 140, the height at byte 144, then the pixel
/// format, color space and transfer function; all other bytes are zero.
pub proof fn layers_name_their_surface(l: DcpLayer)
    ensures
        layer_bytes(l).len() == 164,
        from_le32(layer_bytes(l), 0) == 0,
        from_le64(layer_bytes(l), 4) == l.addr,
        from_le32(layer_bytes(l), 12) == 0,
        from_le32(layer_bytes(l), 16) == l.stride,
        from_le32(layer_bytes(l), 36) == 1,
        from_le32(layer_bytes(l), 136) == 1,
        from_le32(layer_bytes(l), 140) == l.width,
        from_le32(layer_bytes(l), 144) == l.height,
        from_le32(layer_bytes(l), 148) == 1,
        from_le32(layer_bytes(l), 152) == 2,
        from_le32(layer_bytes(l), 156) == 1,
        forall|i: int|
            20 <= i < 36 || 40 <= i < 136 || 160 <= i < 164 ==> #[trigger] layer_bytes(l)[i] == 0,
{
    let b = layer_bytes(l);
    let p = plane_bytes(l.addr, l.stride, 1);
    planes_hold_their_fields(l.addr, l.stride, 1);
    assert(b.subrange(0, 44) =~= p);
    assert forall|at: int| 0 <= at <= 40 implies from_le32(b, at) == #[trigger] from_le32(p, at) by {
        assert(b[at] == p[at] && b[at + 1] == p[at + 1] && b[at + 2] == p[at + 2] && b[at + 3]
            == p[at + 3]);
    }
    le32_round_trip(0);
    le32_round_trip(1);
    le32_round_trip(2);
    le32_round_trip(l.width);
    le32_round_trip(l.height);
    assert(b.subrange(132, 136) =~= le32(0));
    assert(b.subrange(136, 140) =~= le32(1));
    assert(b.subrange(140, 144) =~= le32(l.width));
    assert(b.subrange(144, 148) =~= le32(l.height));
    assert(b.subrange(148, 152) =~= le32(1));
    assert(b.subrange(152, 156) =~= le32(2));
    assert(b.subrange(156, 160) =~= le32(1));
    same_word(b, 132, b.subrange(132, 136));
    same_word(b, 136, b.subrange(136, 140));
    same_word(b, 140, b.subrange(140, 144));
    same_word(b, 144, b.subrange(144, 148));
    same_word(b, 148, b.subrange(148, 152));
    same_word(b, 152, b.subrange(152, 156));
    same_word(b, 156, b.subrange(156, 160));
    assert forall|i: int| 20 <= i < 36 || 40 <= i < 44 implies b[i] == 0 by {
        assert(b[i] == p[i]);
    }
    assert forall|i: int| 44 <= i < 132 implies b[i] == 0 by {}
}

/// The payload of a swap: the layer at byte 8, and behind it, eight bytes
/// later for newer firmware, the source and then the target rectangle, each
/// the whole screen with its corner at the origin.
pub proof fn swaps_carry_the_layer_and_the_screen(v13: bool, l: DcpLayer, width: u32, height: u32)
    ensures
        ({
            let b = swap_bytes(v13, l, width, height);
            let rect = if v13 {
                180int
            } else {
                172int
            };
            &&& b.len() == rect + 36
            &&& b.subrange(8, 172) == layer_bytes(l)
            &&& from_le32(b, rect) == width
            &&& from_le32(b, rect + 4) == height
            &&& from_le32(b, rect + 16) == width
            &&& from_le32(b, rect + 20) == height
            &&& forall|i: int|
                (0 <= i < 8 || 172 <= i < rect || rect + 8 <= i < rect + 16 || rect + 24 <= i < rect
                    + 36) ==> #[trigger] b[i] == 0
        }),
{
    let b = swap_bytes(v13, l, width, height);
    let rect = if v13 {
        180int
    } else {
        172int
    };
    layers_name_their_surface(l);
    let r = rect_bytes(width, height);
    le32_round_trip(width);
    le32_round_trip(height);
    assert(r.subrange(0, 4) =~= le32(width));
    assert(r.subrange(4, 8) =~= le32(height));
    same_word(r, 0, r.subrange(0, 4));
    same_word(r, 4, r.subrange(4, 8));
    swap_parts(layer_bytes(l), (rect - 172) as nat, r);
}

/// Where the parts of a swap lie.
proof fn swap_parts(layer: Seq<u8>, gap: nat, r: Seq<u8>)
    requires
        layer.len() == 164,
        r.len() == 16,
        forall|i: int| 8 <= i < 16 ==> r[i] == 0,
    ensures
        ({
            let b = zeros(8) + layer + zeros(gap) + r + r + zeros(4);
            let rect = 172 + gap as int;
            &&& b.len() == rect + 36
            &&& b.subrange(8, 172) == layer
            &&& from_le32(b, rect) == from_le32(r, 0)
            &&& from_le32(b, rect + 4) == from_le32(r, 4)
            &&& from_le32(b, rect + 16) == from_le32(r, 0)
            &&& from_le32(b, rect + 20) == from_le32(r, 4)
            &&& forall|i: int|
                (0 <= i < 8 || 172 <= i < rect || rect + 8 <= i < rect + 16 || rect + 24 <= i < rect
                    + 36) ==> #[trigger] b[i] == 0
        }),
{
    let b = zeros(8) + layer + zeros(gap) + r + r + zeros(4);
    let rect = 172 + gap as int;
    assert(b.subrange(8, 172) =~= layer);
    assert(b.subrange(rect, rect + 4) =~= r.subrange(0, 4));
    assert(b.subrange(rect + 4, rect + 8) =~= r.subrange(4, 8));
    assert(b.subrange(rect + 16, rect + 20) =~= r.subrange(0, 4));
    assert(b.subrange(rect + 20, rect + 24) =~= r.subrange(4, 8));
    same_word(b, rect, b.subrange(rect, rect + 4));
    same_word(b, rect + 4, b.subrange(rect + 4, rect + 8));
    same_word(b, rect + 16, b.subrange(rect + 16, rect + 20));
    same_word(b, rect + 20, b.subrange(rect + 20, rect + 24));
    same_word(r, 0, r.subrange(0, 4));
    same_word(r, 4, r.subrange(4, 8));
}

/// A command starts with its operation and its whole length; the payload
/// stands behind sixteen bytes, of which the last eight are zero.
pub proof fn commands_are_framed(operation: u32, payload: Seq<u8>)
    requires
        16 + payload.len() <= u32::MAX,
    ensures
        command_bytes(operation, payload).len() == 16 + payload.len(),
        from_le32(command_bytes(operation, payload), 0) == operation,
        from_le32(command_bytes(operation, payload), 4) == command_bytes(operation, payload).len(),
        forall|i: int| 8 <= i < 16 ==> #[trigger] command_bytes(operation, payload)[i] == 0,
        command_bytes(operation, payload).skip(16) == payload,
{
    let b = command_bytes(operation, payload);
    let n = (16 + payload.len()) as u32;
    le32_round_trip(operation);
    le32_round_trip(n);
    assert(b.subrange(0, 4) =~= le32(operation));
    assert(b.subrange(4, 8) =~= le32(n));
    same_word(b, 0, b.subrange(0, 4));
    same_word(b, 4, b.subrange(4, 8));
    assert(b.skip(16) =~= payload);
}

/// A timing and a color mode written out: each field at its byte.
pub proof fn modes_hold_their_fields(t: DcpTimingMode, c: DcpColorMode)
    ensures
        timing_bytes(t).len() == 24,
        from_le32(timing_bytes(t), 0) == t.valid,
        from_le32(timing_bytes(t), 4) == t.width,
        from_le32(timing_bytes(t), 8) == t.height,
        from_le32(timing_bytes(t), 12) == t.fps,
        color_bytes(c).len() == 24,
        from_le32(color_bytes(c), 0) == c.valid,
        from_le32(color_bytes(c), 4) == c.colorimetry,
        from_le32(color_bytes(c), 8) == c.eotf,
        from_le32(color_bytes(c), 12) == c.encoding,
        from_le32(color_bytes(c), 16) == c.bpp,
{
    let b = timing_bytes(t);
    le32_round_trip(t.valid);
    le32_round_trip(t.width);
    le32_round_trip(t.height);
    le32_round_trip(t.fps);
    le64_round_trip(t.pad);
    assert(b.subrange(0, 4) =~= le32(t.valid));
    assert(b.subrange(4, 8) =~= le32(t.width));
    assert(b.subrange(8, 12) =~= le32(t.height));
    assert(b.subrange(12, 16) =~= le32(t.fps));
    same_word(b, 0, b.subrange(0, 4));
    same_word(b, 4, b.subrange(4, 8));
    same_word(b, 8, b.subrange(8, 12));
    same_word(b, 12, b.subrange(12, 16));
    let d = color_bytes(c);
    le32_round_trip(c.valid);
    le32_round_trip(c.colorimetry);
    le32_round_trip(c.eotf);
    le32_round_trip(c.encoding);
    le32_round_trip(c.bpp);
    le32_round_trip(c.pad);
    assert(d.subrange(0, 4) =~= le32(c.valid));
    assert(d.subrange(4, 8) =~= le32(c.colorimetry));
    assert(d.subrange(8, 12) =~= le32(c.eotf));
    assert(d.subrange(12, 16) =~= le32(c.encoding));
    assert(d.subrange(16, 20) =~= le32(c.bpp));
    same_word(d, 0, d.subrange(0, 4));
    same_word(d, 4, d.subrange(4, 8));
    same_word(d, 8, d.subrange(8, 12));
    same_word(d, 12, d.subrange(12, 16));
    same_word(d, 16, d.subrange(16, 20));
}

/// The lists in a reply: a count, then 24 bytes for each mode, with the width
/// before the height and the colorimetry before the transfer function.
pub proof fn replies_list_their_modes(bytes: Seq<u8>, i: int)
    requires
        bytes.len() >= 4,
        bytes.len() == 4 + 24 * from_le32(bytes, 0),
        0 <= i < from_le32(bytes, 0),
    ensures
        timings_in(Ok(bytes)) is Ok,
        timings_in(Ok(bytes))->Ok_0.len() == from_le32(bytes, 0),
        timings_in(Ok(bytes))->Ok_0[i].valid == from_le32(bytes, 4 + 24 * i),
        timings_in(Ok(bytes))->Ok_0[i].width == from_le32(bytes, 8 + 24 * i),
        timings_in(Ok(bytes))->Ok_0[i].height == from_le32(bytes, 12 + 24 * i),
        timings_in(Ok(bytes))->Ok_0[i].fps == from_le32(bytes, 16 + 24 * i),
        colors_in(Ok(bytes)) is Ok,
        colors_in(Ok(bytes))->Ok_0.len() == from_le32(bytes, 0),
        colors_in(Ok(bytes))->Ok_0[i].valid == from_le32(bytes, 4 + 24 * i),
        colors_in(Ok(bytes))->Ok_0[i].colorimetry == from_le32(bytes, 8 + 24 * i),
        colors_in(Ok(bytes))->Ok_0[i].eotf == from_le32(bytes, 12 + 24 * i),
        colors_in(Ok(bytes))->Ok_0[i].encoding == from_le32(bytes, 16 + 24 * i),
        colors_in(Ok(bytes))->Ok_0[i].bpp == from_le32(bytes, 20 + 24 * i),
{
}

/// The status in a reply: whether a panel is there, how many timings and how
/// many color modes it has.
pub proof fn replies_state_the_panel(bytes: Seq<u8>)
    requires
        bytes.len() >= 12,
    ensures
        status_in(Ok(bytes)) is Ok,
        status_in(Ok(bytes))->Ok_0.connected == (bytes[0] != 0),
        status_in(Ok(bytes))->Ok_0.timing_count == from_le32(bytes, 4),
        status_in(Ok(bytes))->Ok_0.color_count == from_le32(bytes, 8),
{
}

/// No usable timing is better than the one picked: none keeps to 60 Hz where
/// it does not, none of the same class has more pixels, and none of the same
/// class and size runs faster. The picked one has a size.
pub proof fn no_timing_is_better(modes: Seq<DcpTimingMode>, i: int, j: int)
    requires
        best_timing(modes, i),
        0 <= j < modes.len(),
        modes[j].valid > 0,
        modes[j].width > 0,
        modes[j].height > 0,
    ensures
        modes[i].valid > 0,
        modes[i].width > 0,
        modes[i].height > 0,
        modes[j].fps <= 60 * 65536 ==> modes[i].fps <= 60 * 65536,
        (modes[i].fps <= 60 * 65536) == (modes[j].fps <= 60 * 65536) ==> modes[i].width
            * modes[i].height >= modes[j].width * modes[j].height,
        (modes[i].fps <= 60 * 65536) == (modes[j].fps <= 60 * 65536) && modes[i].width
            * modes[i].height == modes[j].width * modes[j].height ==> modes[i].fps >= modes[j].fps,
{
    assert(usable_timing(modes[j]));
    assert(timing_at_least(modes[i], modes[j]));
}

/// No valid color mode is better than the one picked: none fits 32 bits where
/// it does not, and none of the same class has more bits.
pub proof fn no_color_is_better(modes: Seq<DcpColorMode>, i: int, j: int)
    requires
        best_color(modes, i),
        0 <= j < modes.len(),
        modes[j].valid > 0,
    ensures
        modes[i].valid > 0,
        modes[j].bpp <= 32 ==> modes[i].bpp <= 32,
        (modes[i].bpp <= 32) == (modes[j].bpp <= 32) ==> modes[i].bpp >= modes[j].bpp,
{
    assert(color_at_least(modes[i], modes[j]));
}

/// The screen of a timing has its size, four bytes for each pixel of a row;
/// the layer that shows it says the same and points to the buffer.
pub proof fn screens_have_the_size_of_their_timing(t: DcpTimingMode, dva: u64)
    requires
        t.width < 0x4000_0000,
    ensures
        config_of(t).width == t.width,
        config_of(t).height == t.height,
        config_of(t).stride == t.width + t.width + t.width + t.width,
        from_le64(layer_bytes(layer_of(config_of(t), dva)), 4) == dva,
        from_le32(layer_bytes(layer_of(config_of(t), dva)), 16) == 4 * t.width,
        from_le32(layer_bytes(layer_of(config_of(t), dva)), 140) == t.width,
        from_le32(layer_bytes(layer_of(config_of(t), dva)), 144) == t.height,
{
    layers_name_their_surface(layer_of(config_of(t), dva));
}

/// A buffer stays on the screen for one scan period, counted in whole
/// microseconds from above, and a millisecond more.
pub proof fn frames_last_one_period(t: DcpTimingMode)
    requires
        t.fps > 0,
    ensures
        (delay_of(t) - 1000) * t.fps >= 1_000_000 * 65536,
        (delay_of(t) - 1001) * t.fps < 1_000_000 * 65536,
{
    let f = t.fps as int;
    let n = ceil_div(65_536_000_000, f);
    ceil_div_counts(65_536_000_000, f);
    assert((n - 1) * f == n * f - f) by (nonlinear_arith);
}

/// Both scanout buffers hold the visible bytes and 24 pages behind them,
/// rounded up to a page, lie side by side for the coprocessor from 1 GiB on,
/// and are given enough pages of 4 KiB.
pub proof fn plans_hold_the_surface(visible: u64, page_size: u64)
    requires
        0 < page_size <= 0x1_0000,
        plan_of(visible, page_size) is Some,
    ensures
        ({
            let plan = plan_of(visible, page_size)->0;
            &&& visible + 24 * page_size <= plan.allocation_size < visible + 25 * page_size
            &&& plan.allocation_size % page_size == 0
            &&& plan.first_dva == 0x4000_0000
            &&& plan.second_dva - plan.first_dva == plan.allocation_size
            &&& visible <= 4096 * plan.render_pages < visible + 4096
            &&& plan.allocation_size <= 4096 * plan.scanout_pages < plan.allocation_size + 4096
        }),
{
    let plan = plan_of(visible, page_size)->0;
    let n = ceil_div(visible + 24 * page_size, page_size as int);
    ceil_div_counts(visible + 24 * page_size, page_size as int);
    assert(plan.allocation_size == n * page_size);
    vstd::arithmetic::div_mod::lemma_mod_multiples_basic(n, page_size as int);
    ceil_div_counts(visible as int, 4096);
    ceil_div_counts(plan.allocation_size as int, 4096);
}

/// The call that sets the layer of a swap points the coprocessor to the buffer
/// that is in front afterwards, with the size of the screen.
pub proof fn swaps_show_the_new_front(
    before: Seq<IbootCall>,
    after: Seq<IbootCall>,
    at: nat,
    channel: u32,
    v13: bool,
    old_me: AppleDcpGraphics,
    new_me: AppleDcpGraphics,
)
    requires
        swapped(
            before,
            after,
            at,
            channel,
            v13,
            layer_of(old_me.config, old_me.back().dva),
            old_me.config.width,
            old_me.config.height,
            Ok(()),
        ),
        new_me.same_display(&old_me),
        new_me.second_in_front == !old_me.second_in_front,
    ensures
        after.len() == before.len() + 3,
        from_le32(after[before.len() as int].command, 0) == 15,
        from_le32(after[before.len() as int + 1].command, 0) == 16,
        from_le32(after[before.len() as int + 2].command, 0) == 18,
        from_le64(after[before.len() as int + 1].command, 28) == (if new_me.second_in_front {
            new_me.scanout1.dva
        } else {
            new_me.scanout0.dva
        }),
        from_le32(after[before.len() as int + 1].command, 40) == new_me.config.stride,
        from_le32(after[before.len() as int + 1].command, 164) == new_me.config.width,
        from_le32(after[before.len() as int + 1].command, 168) == new_me.config.height,
{
    let l = layer_of(old_me.config, old_me.back().dva);
    let w = old_me.config.width;
    let h = old_me.config.height;
    let (first, second, a, b) = choose|
        first: Seq<IbootCall>,
        second: Seq<IbootCall>,
        a: Result<(), DcpError>,
        b: Result<(), DcpError>,
    |
        #[trigger] swap_steps(before, first, second, after, at, channel, v13, l, w, h, a, b, Ok(()));
    let payload = swap_bytes(v13, l, w, h);
    swaps_carry_the_layer_and_the_screen(v13, l, w, h);
    layers_name_their_surface(l);
    commands_are_framed(15, Seq::empty());
    commands_are_framed(16, payload);
    commands_are_framed(18, zeros(12));
    let c = command_bytes(16, payload);
    assert(after[before.len() as int + 1].command == c);
    assert(c.skip(16).subrange(8, 172) =~= c.subrange(24, 188));
    let b = layer_bytes(l);
    assert(c.subrange(24, 188) =~= b);
    assert(c.subrange(28, 36) =~= b.subrange(4, 12));
    assert(c.subrange(40, 44) =~= b.subrange(16, 20));
    assert(c.subrange(164, 168) =~= b.subrange(140, 144));
    assert(c.subrange(168, 172) =~= b.subrange(144, 148));
    same_long(c, 28, c.subrange(28, 36));
    same_long(b, 4, b.subrange(4, 12));
    same_word(c, 40, c.subrange(40, 44));
    same_word(b, 16, b.subrange(16, 20));
    same_word(c, 164, c.subrange(164, 168));
    same_word(b, 140, b.subrange(140, 144));
    same_word(c, 168, c.subrange(168, 172));
    same_word(b, 144, b.subrange(144, 148));
}

/// Every pixel of a presented region, four bytes at four times its column and
/// one stride for each row above it, is in both scanout buffers what was drawn.
pub proof fn presented_pixels_are_shown(
    me: &AppleDcpGraphics,
    m: Memory,
    part: DisplayRegion,
    ops: Seq<Op>,
    p: Presentation,
    x: int,
    y: int,
    byte: int,
)
    requires
        me.wf(),
        on_surface(me.config, part),
        surfaces_apart(me.config, me.render_virt, me.scanout0.virt),
        surfaces_apart(me.config, me.render_virt, me.scanout1.virt),
        surfaces_apart(me.config, me.scanout0.virt, me.scanout1.virt),
        presented_with(me, Seq::empty(), ops, part, Ok(()), p),
        faithful(m, ops),
        part.x <= x < part.x + part.width,
        part.y <= y < part.y + part.height,
        0 <= byte < 4,
    ensures
        memory_after(m, ops)(me.scanout0.virt + y * me.config.stride + 4 * x + byte) == m(
            me.render_virt + y * me.config.stride + 4 * x + byte,
        ),
        memory_after(m, ops)(me.scanout1.virt + y * me.config.stride + 4 * x + byte) == m(
            me.render_virt + y * me.config.stride + 4 * x + byte,
        ),
{
    presenting_keeps_buffers_coherent(me, m, part, ops, p);
    let row = y - part.y;
    let after = memory_after(m, ops);
    assert(row_agrees(me.config, part, m, me.render_virt, after, me.back().virt, row));
    assert(row_agrees(me.config, part, m, me.render_virt, after, me.front().virt, row));
    let k = 4 * (x - part.x) + byte;
    let at = row_offset(me.config, part, row);
    assert(at + k == y * me.config.stride + 4 * x + byte);
    assert(after(me.back().virt + at + k) == m(me.render_virt + at + k));
    assert(after(me.front().virt + at + k) == m(me.render_virt + at + k));
    assert(me.scanout0.virt + y * me.config.stride + 4 * x + byte == me.scanout0.virt + at + k);
    assert(me.scanout1.virt + y * me.config.stride + 4 * x + byte == me.scanout1.virt + at + k);
    assert(me.render_virt + y * me.config.stride + 4 * x + byte == me.render_virt + at + k);
}

/// An entry of a hand-over list, 20 bytes long, is for a device.
pub open spec fn entry_is_for(addresses: Seq<u8>, i: int, phandle: u32) -> bool {
    from_be32(addresses, 20 * i) == phandle
}

/// The memory that is handed over to a device: every range comes from an entry
/// with the number of that device, with the address at its fifth byte and the
/// size at its thirteenth, and lies where its node does.
pub proof fn handed_over_ranges_are_listed(
    addresses: Seq<u8>,
    paddr: u64,
    phandle: u32,
    n: int,
    k: int,
) -> (i: int)
    requires
        0 <= k < handoffs_in(addresses, paddr, phandle, n).len(),
    ensures
        0 <= i < n,
        entry_is_for(addresses, i, phandle),
        ({
            let region = handoffs_in(addresses, paddr, phandle, n)[k];
            &&& region.iova == from_be64(addresses, 20 * i + 4)
            &&& region.size == from_be64(addresses, 20 * i + 12)
            &&& region.paddr == paddr
        }),
    decreases n,
{
    let earlier = handoffs_in(addresses, paddr, phandle, n - 1);
    if k < earlier.len() {
        handed_over_ranges_are_listed(addresses, paddr, phandle, n - 1, k)
    } else {
        n - 1
    }
}

/// No entry for a device is left out, and they keep their order.
pub proof fn all_ranges_are_handed_over(
    addresses: Seq<u8>,
    paddr: u64,
    phandle: u32,
    n: int,
    i: int,
) -> (k: int)
    requires
        0 <= i < n,
        entry_is_for(addresses, i, phandle),
    ensures
        0 <= k < handoffs_in(addresses, paddr, phandle, n).len(),
        handoffs_in(addresses, paddr, phandle, n)[k].iova == from_be64(addresses, 20 * i + 4),
        handoffs_in(addresses, paddr, phandle, n)[k].size == from_be64(addresses, 20 * i + 12),
        handoffs_in(addresses, paddr, phandle, i).len() == k,
    decreases n,
{
    if i == n - 1 {
        handoffs_in(addresses, paddr, phandle, i).len() as int
    } else {
        all_ranges_are_handed_over(addresses, paddr, phandle, n - 1, i)
    }
}

/// The wire form of firmware is the newer one for every major version from 13
/// on: what stands in front of the first dot, read as a decimal number. For two
/// digits this is ten times the first plus the second.
pub proof fn versions_are_read_to_the_dot(s: Seq<u8>)
    requires
        s.len() >= 3,
        48 <= s[0] <= 57,
        48 <= s[1] <= 57,
        s[2] == 46,
    ensures
        is_v13(Some(s)) == (10 * (s[0] - 48) + (s[1] - 48) >= 13),
{
    reveal_with_fuel(dot_at, 3);
    reveal_with_fuel(decimal, 3);
    assert(dot_at(s, 0) == 2);
    let digits = s.take(2);
    assert(digits[0] == s[0] && digits[1] == s[1]);
    assert(parsed_number(digits) == Some(10 * (s[0] - 48) + (s[1] - 48)));
}

/// Memory that was mapped for the coprocessor is found there: at the address
/// that was returned, and at the same distance from it as in memory, for every
/// byte that was asked for. The stream is then translated through that table.
pub proof fn coprocessors_find_their_memory(
    m: Memory,
    mapper: &DcpDmaMapper,
    virt_of: spec_fn(u64) -> usize,
    before: Seq<Op>,
    after: Seq<Op>,
    paddr: u64,
    size: u64,
    addr: u64,
    middle: Seq<Op>,
    table: Result<(), DartError>,
    steps: Seq<Descent>,
    o: u64,
)
    requires
        dma_mapped(mapper, before, after, paddr, size, Ok(addr), middle, table, steps),
        tables_apart(m, mapper.table.root_vaddr, virt_of, addr, paddr, 1, steps),
        mapper.page_size > 0,
        addr % 0x4000 == 0,
        paddr % 0x4000 == 0,
        addr + size + mapper.page_size <= 0x200_0000_0000,
        paddr + size + mapper.page_size <= 0x10_0000_0000,
        o < size,
    ensures
        addr == mapper.next_iova,
        ({
            let then = memory_after(m, middle.skip(before.len() as int));
            let found = looked_up(then, mapper.table.root_vaddr, virt_of, (addr + o) as u64);
            &&& found is Some
            &&& frame_in(found->0) + o % 0x4000 == paddr + o
        }),
        after.len() == middle.len() + 2,
{
    let whole = rounded(size, mapper.page_size);
    ceil_div_counts(size as int, mapper.page_size as int);
    assert(size <= whole < size + mapper.page_size);
    mapped_ranges_are_found(
        m,
        mapper.table.root_vaddr,
        virt_of,
        before,
        middle,
        addr,
        paddr,
        whole as u64,
        1,
        steps,
        o,
    );
}

} // verus!
