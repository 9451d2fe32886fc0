//! The video decoder: what its hardware is fed, where its frames go and what is
//! told of them.

use crate::arith::{aligned_up, aligned_up_is_least_multiple};
use crate::avd::backend::{
    frame_from, frame_header, newest_four, output_of, references_after, slot_span, slot_taken,
    without_slot, AvdReferenceFrame, PendingInfo, SessionView, VideoAbi, VideoDecodeRequest,
};
use crate::avd::decode::{pending_from, rvra_table, verdict, StagedDecode, Verdict};
use crate::avd::device::{submit_ops, AvdFirmwareCommand};
use crate::avd::firmware::AvdFirmwareMessage;
use crate::avd::h264::{
    picture_parameters, rvra_luma, skip_rbsp, slice_data_range, AvdFrameLayout, H264DecodeControl,
    H264NalUnitType, H264Pps, H264SliceControl, H264SliceKind, H264SliceParameters, H264Sps,
};
use crate::avd::registers::instruction_ops;
use crate::bus::{reg, Op};
use crate::bytes::{from_le32, le32, le32_round_trip};
use vstd::prelude::*;

verus! {

/// The values written to one register, in order.
pub open spec fn written_to(ops: Seq<Op>, at: usize) -> Seq<u32>
    decreases ops.len(),
{
    if ops.len() == 0 {
        Seq::empty()
    } else {
        let before = written_to(ops.drop_last(), at);
        match ops.last() {
            Op::Write { addr, value } => if addr == at {
                before.push(value)
            } else {
                before
            },
            _ => before,
        }
    }
}

proof fn written_append(a: Seq<Op>, b: Seq<Op>, at: usize)
    ensures
        written_to(a + b, at) == written_to(a, at) + written_to(b, at),
    decreases b.len(),
{
    if b.len() == 0 {
        assert(a + b =~= a);
        assert(written_to(a, at) + written_to(b, at) =~= written_to(a, at));
    } else {
        written_append(a, b.drop_last(), at);
        assert((a + b).drop_last() =~= a + b.drop_last());
        assert(written_to(a + b, at) =~= written_to(a, at) + written_to(b, at));
    }
}

proof fn words_written(base: usize, words: Seq<u32>)
    ensures
        written_to(instruction_ops(base, words), reg(base, 0x110400c)) == words,
    decreases words.len(),
{
    let ops = instruction_ops(base, words);
    if words.len() > 0 {
        words_written(base, words.drop_last());
        assert(ops.drop_last() =~= instruction_ops(base, words.drop_last()));
        assert(words.drop_last().push(words.last()) =~= words);
    } else {
        assert(words =~= Seq::empty());
    }
}

/// The instruction port of the hardware is written every word of a stream, in
/// order, and nothing else; then the status is cleared and looked at, and the
/// engine is started.
pub proof fn streams_reach_the_hardware(base: usize, words: Seq<u32>, status: u32)
    requires
        base + 0x1500000 <= usize::MAX,
    ensures
        ({
            let ops = submit_ops(base, words, status);
            let n = words.len() as int;
            &&& written_to(ops, (base + 0x110400c) as usize) == words
            &&& ops.len() == n + 3
            &&& ops[n] == (Op::Write { addr: (base + 0x1104060) as usize, value: 0x0084_210b })
            &&& ops[n + 1] == (Op::Read { addr: (base + 0x1104060) as usize, value: status })
            &&& ops[n + 2] == (Op::Write { addr: (base + 0x1104014) as usize, value: 0x2b00_0107 })
        }),
{
    let fed = instruction_ops(base, words);
    let tail = submit_ops(base, words, status).skip(words.len() as int);
    assert(submit_ops(base, words, status) =~= fed + tail);
    words_written(base, words);
    written_append(fed, tail, reg(base, 0x110400c));
    reveal_with_fuel(written_to, 4);
    assert(written_to(tail, reg(base, 0x110400c)) =~= Seq::empty());
    assert(words + Seq::<u32>::empty() =~= words);
}

/// A frame header: four bytes of magic, then width, height, pixel format and
/// length of what follows.
pub proof fn frame_headers_describe_the_frame(abi: VideoAbi, layout: AvdFrameLayout, len: u32)
    ensures
        ({
            let b = frame_header(abi, layout, len);
            &&& b.len() == 20
            &&& b.take(4) == abi.frame_magic@
            &&& from_le32(b, 4) == layout.width
            &&& from_le32(b, 8) == layout.height
            &&& from_le32(b, 12) == abi.pixel_format_nv12
            &&& from_le32(b, 16) == len
        }),
{
    let b = frame_header(abi, layout, len);
    le32_round_trip(layout.width);
    le32_round_trip(layout.height);
    le32_round_trip(abi.pixel_format_nv12);
    le32_round_trip(len);
    assert(b.take(4) =~= abi.frame_magic@);
    assert(b.subrange(4, 8) =~= le32(layout.width));
    assert(b.subrange(8, 12) =~= le32(layout.height));
    assert(b.subrange(12, 16) =~= le32(abi.pixel_format_nv12));
    assert(b.subrange(16, 20) =~= le32(len));
    assert(from_le32(b, 4) == from_le32(b.subrange(4, 8), 0));
    assert(from_le32(b, 8) == from_le32(b.subrange(8, 12), 0));
    assert(from_le32(b, 12) == from_le32(b.subrange(12, 16), 0));
    assert(from_le32(b, 16) == from_le32(b.subrange(16, 20), 0));
}

/// A finished frame belongs to the stream, the time and the place of its
/// request, and has the size that was decoded.
pub proof fn frames_answer_their_request(
    abi: VideoAbi,
    request: VideoDecodeRequest,
    plan: StagedDecode,
    status: u32,
    command: AvdFirmwareCommand,
)
    ensures
        ({
            let frame = frame_from(abi, pending_from(request, plan, status, command));
            &&& frame.stream_id == request.stream_id
            &&& frame.timestamp == request.timestamp
            &&& frame.width == plan.request.layout.width
            &&& frame.height == plan.request.layout.height
            &&& frame.pixel_format == abi.pixel_format_nv12
            &&& frame.payload_offset == plan.output.payload_offset as u64
            &&& frame.flags == command.tag
        }),
{
}

/// A frame is at one place in all address spaces: as far behind the start of
/// its pool for the decoder as for the processor, and as far behind the output
/// of the request; its header ends where it begins. Slots are taken in turn.
pub proof fn outputs_are_at_one_place(
    s: SessionView,
    request: VideoDecodeRequest,
    layout: AvdFrameLayout,
    header_len: int,
)
    requires
        s.output_pool is Some,
        0 <= header_len <= 0x4000,
        layout.output_bytes() >= 0,
        ({
            let last = 4 * slot_span(layout) + 0x4000;
            let pool = s.output_pool->0;
            &&& pool.dma_addr + last <= u64::MAX
            &&& pool.vaddr + last <= usize::MAX
            &&& request.output_offset + last <= usize::MAX
        }),
    ensures
        ({
            let out = output_of(s, request, layout, header_len);
            let pool = s.output_pool->0;
            let at = out.vaddr - pool.vaddr;
            &&& out.slot == s.next_reference_slot % 4
            &&& out.dma_addr - pool.dma_addr == at
            &&& out.payload_offset - request.output_offset == at
            &&& out.vaddr - out.header_vaddr == header_len
            &&& at == out.slot * slot_span(layout) + 0x4000
            &&& slot_taken(s).next_reference_slot == (s.next_reference_slot + 1) % 4
            &&& slot_span(layout) % 0x4000 == 0
            &&& layout.output_bytes() + 0x4000 <= slot_span(layout) < layout.output_bytes() + 0x8000
        }),
{
    let span = slot_span(layout);
    let slot = s.next_reference_slot as int % 4;
    aligned_up_is_least_multiple(0x4000 + layout.output_bytes(), 0x4000);
    assert(0 <= slot * span <= 3 * span) by (nonlinear_arith)
        requires
            0 <= slot <= 3,
            span >= 0,
    ;
}

proof fn kept_are_old(frames: Seq<AvdReferenceFrame>, slot: usize, i: int) -> (j: int)
    requires
        0 <= i < without_slot(frames, slot).len(),
    ensures
        0 <= j < frames.len(),
        frames[j] == without_slot(frames, slot)[i],
        frames[j].slot != slot,
    decreases frames.len(),
{
    let rest = without_slot(frames.drop_last(), slot);
    if i < rest.len() {
        let j = kept_are_old(frames.drop_last(), slot, i);
        assert(frames.drop_last()[j] == frames[j]);
        j
    } else {
        frames.len() - 1
    }
}

/// The references behind a decoded picture: at most four, the picture itself
/// last if it is one to keep, and in front of it older ones of other slots; none
/// older than an IDR picture.
pub proof fn references_follow_the_pictures(
    frames: Seq<AvdReferenceFrame>,
    info: PendingInfo,
    i: int,
)
    requires
        0 <= i < references_after(frames, info).len() - 1,
        info.store_reference,
    ensures
        ({
            let r = references_after(frames, info);
            &&& r.len() <= 4
            &&& r.last().slot == info.reference_slot
            &&& r.last().timestamp == info.timestamp
            &&& r.last().frame_number == info.frame_number
            &&& !info.is_idr
            &&& r[i].slot != info.reference_slot
            &&& frames.contains(r[i])
        }),
{
    let base = if info.is_idr {
        Seq::empty()
    } else {
        frames
    };
    let kept = without_slot(base, info.reference_slot);
    let all = kept.push(references_after(frames, info).last());
    let r = references_after(frames, info);
    let shift = all.len() - r.len();
    assert(r =~= newest_four(all));
    assert(r[i] == kept[i + shift]);
    let j = kept_are_old(base, info.reference_slot, i + shift);
    assert(base[j] == r[i]);
}

/// Bits of the status, as numbers.
proof fn status_in_numbers(x: u32)
    by (bit_vector)
    ensures
        ((x & 0x0000_0003 != 0) == (x % 4 != 0)) && ((x & 0x0084_2108 != 0) == (x / 8 % 2 == 1 || x
            / 0x100 % 2 == 1 || x / 0x2000 % 2 == 1 || x / 0x4_0000 % 2 == 1 || x / 0x80_0000 % 2
            == 1)),
{
}

/// How the oldest decode is judged: failed by one of the two lowest bits of a
/// status that changed; otherwise finished by a message or by one of the five
/// end bits of a status that changed; otherwise given up behind ten thousand
/// looks.
pub proof fn decodes_are_judged_by_their_bits(
    pending: Seq<PendingInfo>,
    message: Option<AvdFirmwareMessage>,
    status: u32,
)
    requires
        pending.len() > 0,
    ensures
        ({
            let front = pending[0];
            let v = verdict(pending, message, status);
            let changed = status != front.status_before;
            let failed = changed && status % 4 != 0;
            let ended = changed && (status / 8 % 2 == 1 || status / 0x100 % 2 == 1 || status / 0x2000
                % 2 == 1 || status / 0x4_0000 % 2 == 1 || status / 0x80_0000 % 2 == 1);
            let told = message is Some && message->0.completes();
            &&& v == Verdict::Failed <==> failed
            &&& v == Verdict::Finished <==> !failed && (told || ended)
            &&& front.poll_count >= 10_000 && front.poll_count < usize::MAX && !failed && !told
                && !ended ==> v == Verdict::TimedOut
            &&& front.poll_count < 10_000 && !failed && !told && !ended ==> v == Verdict::Waiting
        }),
{
    status_in_numbers(status);
}

/// The scratch memory of a frame: luma first, five quarters of a byte for each
/// pixel of whole rows of 32; then at least 256 bytes; then half as much for
/// chroma, and what else there is behind it.
pub proof fn scratch_sections_follow_each_other(layout: AvdFrameLayout)
    requires
        layout.rvra_fits(),
    ensures
        ({
            let t = rvra_table(layout);
            let rows = (layout.height as int + 31) / 32 * 32;
            let area = layout.width * rows;
            &&& t.len() == 4
            &&& t[1] == 0
            &&& 4 * t[0] <= 5 * area < 4 * t[0] + 4
            &&& t[3] - t[0] >= 256
            &&& t[2] - t[3] == t[0] / 2
        }),
{
    let w = layout.width as int;
    let rows = aligned_up(layout.height as int, 32);
    aligned_up_is_least_multiple(layout.height as int, 32);
    assert(rows == (layout.height as int + 31) / 32 * 32);
    let area = w * rows;
    assert(0 <= area) by (nonlinear_arith)
        requires
            area == w * rows,
            0 <= w,
            0 <= rows,
    ;
    let luma = rvra_luma(w, layout.height as int);
    assert(luma == area + area / 4);
}

/// Where no byte is zero, bytes are skipped one by one.
proof fn plain_bytes_are_skipped(input: Seq<u8>, offset: int, need: int, zeros: int)
    requires
        0 <= offset,
        0 <= need,
        0 <= zeros < 2,
        offset + need <= input.len(),
        forall|i: int| offset <= i < offset + need ==> #[trigger] input[i] != 0,
    ensures
        skip_rbsp(input, offset, need, zeros) == Some(offset + need),
    decreases need,
{
    if need > 0 {
        assert(input[offset] != 0);
        plain_bytes_are_skipped(input, offset + 1, need - 1, 0);
    }
}

/// The data of a slice begin behind one byte of its unit and the whole bytes of
/// its header, counted up where the data are arithmetic coded and down where
/// they are not, and reach to the end of the unit.
pub proof fn slice_data_follow_the_header(input: Seq<u8>, slice: H264SliceControl, cabac: bool)
    requires
        slice.nal_len > 0,
        slice.nal_offset + slice.nal_len <= input.len(),
        ({
            let size = if cabac {
                (slice.header_bit_size + 7) / 8
            } else {
                slice.header_bit_size as int / 8
            };
            &&& 1 + size <= slice.nal_len
            &&& forall|i: int|
                slice.nal_offset + 1 <= i < slice.nal_offset + 1 + size ==> #[trigger] input[i] != 0
        }),
    ensures
        ({
            let size = if cabac {
                (slice.header_bit_size + 7) / 8
            } else {
                slice.header_bit_size as int / 8
            };
            slice_data_range(input, slice, cabac) == Some(
                (slice.nal_offset + 1 + size, slice.nal_len - 1 - size),
            )
        }),
{
    let size = if cabac {
        (slice.header_bit_size + 7) / 8
    } else {
        slice.header_bit_size as int / 8
    };
    plain_bytes_are_skipped(input, slice.nal_offset + 1, size, 0);
}

/// A byte 3 behind two zero bytes was put in between and does not count: what
/// needs more than the two zero bytes goes on behind it.
pub proof fn inserted_bytes_do_not_count(input: Seq<u8>, offset: int, need: int)
    requires
        0 <= offset,
        offset + 3 <= input.len(),
        need > 2,
        input[offset] == 0,
        input[offset + 1] == 0,
        input[offset + 2] == 3,
    ensures
        skip_rbsp(input, offset, need, 0) == skip_rbsp(input, offset + 3, need - 2, 0),
{
    reveal_with_fuel(skip_rbsp, 4);
}

/// The parameters of a slice are its controls, each under its own name; the kind
/// repeats every five types, and the unit is an IDR slice exactly for an IDR
/// picture.
pub proof fn slices_keep_their_controls(
    slice: H264SliceControl,
    decode: H264DecodeControl,
    offset: usize,
    len: usize,
)
    requires
        decode.nal_ref_idc < 256,
    ensures
        ({
            let p = H264SliceParameters::lowered(slice, decode, offset, len);
            &&& p.nal_ref_idc == decode.nal_ref_idc
            &&& p.nal_unit_type == H264NalUnitType::IdrSlice <==> decode.idr
            &&& p.kind == H264SliceKind::P <==> slice.slice_type % 5 == 0 || slice.slice_type % 5 == 3
            &&& p.kind == H264SliceKind::B <==> slice.slice_type % 5 == 1
            &&& p.slice_data_offset == offset
            &&& p.slice_data_len == len
            &&& p.parsed_header_bits == slice.header_bit_size
            &&& p.first_mb_in_slice == slice.first_mb_in_slice
            &&& p.cabac_init_idc == slice.cabac_init_idc
            &&& p.slice_qp_delta == slice.slice_qp_delta
            &&& p.disable_deblocking_filter_idc == slice.disable_deblocking_filter_idc
            &&& p.slice_alpha_c0_offset_div2 == slice.slice_alpha_c0_offset_div2
            &&& p.slice_beta_offset_div2 == slice.slice_beta_offset_div2
            &&& p.num_ref_idx_l0_active_minus1 == slice.num_ref_idx_l0_active_minus1
            &&& p.num_ref_idx_l1_active_minus1 == slice.num_ref_idx_l1_active_minus1
            &&& p.ref_pic_list0 == slice.ref_pic_list0
            &&& p.ref_pic_list1 == slice.ref_pic_list1
            &&& p.ref_lists_present == slice.ref_lists_present
            &&& p.direct_spatial_mv_pred == slice.direct_spatial_mv_pred
        }),
{
}

/// The parameters of a picture are those of its parameter set, each under its
/// own name; the size of a stream counts macroblocks of sixteen pixels, less two
/// pixels for each step that is cut off at an edge.
pub proof fn parameter_sets_are_kept(pps: H264Pps, sps: H264Sps)
    ensures
        ({
            let p = picture_parameters(pps);
            &&& p.entropy_coding_mode == pps.entropy_coding_mode
            &&& p.transform_8x8_mode == pps.transform_8x8_mode
            &&& p.constrained_intra_pred == pps.constrained_intra_pred
            &&& p.weighted_bipred_idc == pps.weighted_bipred_idc
            &&& p.weighted_pred == pps.weighted_pred
            &&& p.pic_init_qp_minus26 == pps.pic_init_qp_minus26
            &&& p.chroma_qp_index_offset == pps.chroma_qp_index_offset
            &&& p.second_chroma_qp_index_offset == pps.second_chroma_qp_index_offset
        }),
        sps.coded_width() == 16 * sps.pic_width_in_mbs_minus1 + 16,
        sps.coded_height() == 16 * sps.pic_height_in_map_units_minus1 + 16,
        sps.frame_cropping ==> sps.crop_x() == 2 * (sps.frame_crop_left_offset
            + sps.frame_crop_right_offset),
        sps.frame_cropping ==> sps.crop_y() == 2 * (sps.frame_crop_top_offset
            + sps.frame_crop_bottom_offset),
        !sps.frame_cropping ==> sps.crop_x() == 0 && sps.crop_y() == 0,
        sps.supported() <==> sps.chroma_format_idc == 1 && sps.bit_depth_luma_minus8 == 0
            && sps.bit_depth_chroma_minus8 == 0 && sps.frame_mbs_only,
{
}

} // verus!
