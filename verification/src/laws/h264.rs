//! The words that the video decoder finds for a slice of H.264, field by field.

use crate::arith::bit_if;
use crate::avd::h264::{
    H264DpbEntry, H264NalUnitType, H264PredWeights, H264SliceKind, H264SliceParameters,
    H264StreamParameters,
};
use crate::avd::h264_refs::{
    at_most, bipred_list1, exchange_sort_sorts, future_pictures, narrowed,
    out_of_order, past_pictures, reference_lists, split_by_poc, AvdH264ReferencePicture,
};
use crate::avd::h264_stream::{
    buildable, deblock_word, default_weight, effective_height, effective_width, header_words, instruction_words,
    is_idr_slice, list_word, list_words, offset_word, output_words, page_word, picture_words,
    prediction_section, ref_type_word, reference_run, reference_run_len, reference_section, reference_words,
    rvra_word, rvra_words, slice_end_words, slice_setup_words, swrap, tile_words, uv_addr, weight_word, weights_of, wrapping_difference,
    AvdH264Workspace, H264DecodeRequest,
};
use crate::avd::words::kept;
use vstd::prelude::*;

verus! {

/// Signed fields of the words, as numbers: `v` is a small value, `d` and `e`
/// are any.
proof fn signed_fields_in_numbers(v: i32, d: i32, e: i16, x: u32, y: u32, z: u32)
    by (bit_vector)
    ensures
        (!(v >= -512 && v < 512) || (0x2d90_0000u32 | ((((v * 0x400) as i32) as u32) & 0x1fc00) == 0x2d90_0000 + ((v + 512) as u32 % 128) * 0x400))
            && (!(v >= -512 && v < 512) || ((v as u32) & 15 == (v + 512) as u32 % 16))
            && (!(v >= -512 && v < 512) || ((v as u32) & 31 == (v + 512) as u32 % 32))
            && ((d as u32) & 0x1ffff == ((d + 0x1_0000_0000) as u64) % 0x20000)
            && ((d as u32) & 0xffff == ((d + 0x1_0000_0000) as u64) % 0x10000)
            && (!(x < 4 && y < 2 && z < 16) || (0x2de0_0000u32 | (x << 14) | (y << 13) | (z << 9) | ((e as u16 as u32) & 0x1ff) == 0x2de0_0000 + 0x4000 * x + 0x2000 * y + 0x200 * z + ((e + 0x1_0000) as u32) % 0x200)),
{
}

/// Addresses in the words, as numbers.
proof fn addresses_in_numbers(a: u64, x: u32)
    by (bit_vector)
    ensures
        (!(a / 0x1_0000_0000 < 0x8000) || (0x2d80_0000u32 | ((x % 8) << 15) | ((a >> 32) as u32) == 0x2d80_0000 + 0x8000 * (x % 8) + a / 0x1_0000_0000))
            && (!(a / 0x1_0000_0000 < 0x8000) || (0x2d80_0000u32 | 0u32 | ((a >> 32) as u32) == 0x2d80_0000 + a / 0x1_0000_0000))
            && (a as u32 == a % 0x1_0000_0000)
            && ((a >> 8) as u32 == a / 256 % 0x1_0000_0000)
            && ((a >> 7) as u32 == a / 128 % 0x1_0000_0000),
{
}

/// Bit fields of the words, as numbers; `p`, `q` and `r` are flags.
proof fn fields_in_numbers(x: u32, y: u32, z: u32, p: u32, q: u32, r: u32)
    by (bit_vector)
    requires
        p < 2,
        q < 2,
        r < 2,
    ensures
        (x >> 4 == x / 16)
            && (!(x < 0x4000 && y < 0x1000) || (0x2c00_0000u32 | (x << 12) | y == 0x2c00_0000 + 0x1000 * x + y))
            && (((x & 0xffff) << 16) | (y & 0xffff) == x % 0x1_0000 * 0x1_0000 + y % 0x1_0000)
            && (!(x < 0x8_0000 && y < 0x8_0000) || (((x >> 3) << 16) | (y >> 3) == x / 8 * 0x1_0000 + y / 8))
            && (!(x < 0x1_0000 && y < 0x1_0000) || (((x >> 4) << 12) | (y >> 4) == x / 16 * 0x1000 + y / 16))
            && (((x & 3) << 24) | ((y & 15) << 19) | ((z & 15) << 15) | 0x2800 | (p << 0) | (q << 7) == x % 4 * 0x100_0000 + y % 16 * 0x8_0000 + z % 16 * 0x8000 + 0x2800 + p + 128 * q)
            && ((p << 20) | (q << 21) | (r << 19) == 0x10_0000 * p + 0x20_0000 * q + 0x8_0000 * r)
            && (!(x < 32 && y < 32) || ((x << 5) | y == 32 * x + y))
            && (!(y < 0x2_0000) || (((x & 0xf) << 28) | 0x0100_0000 | (p << 17) | y == x % 16 * 0x1000_0000 + 0x0100_0000 + 0x2_0000 * p + y))
            && (0x2dc0_0000u32 | ((x & 0xf) << 4) | (y & 0xf) == 0x2dc0_0000 + x % 16 * 16 + y % 16)
            && (0x2dc0_0100u32 | ((x & 0xf) << 4) | (y & 0xf) == 0x2dc0_0100 + x % 16 * 16 + y % 16)
            && (!(x < 16 && y < 16) || ((0x2da0_0000u32 | (p << 17)) | (1u32 << 16) | (x << 12) | (y << 8) == 0x2da1_0000 + 0x2_0000 * p + x * 0x1000 + y * 0x100))
            && (0x2da0_0000u32 | (p << 17) == 0x2da0_0000 + 0x2_0000 * p)
            && (!(x < 0x1_0000) || (0x2df0_0000u32 | x == 0x2df0_0000 + x))
            && (!(x < 4 && y < 16 && z < 16) || (0x2d04_0000u32 | (x << 5) | (y << 7) | (p << 15) | (z << 11) == 0x2d04_0000 + 0x20 * x + 0x80 * y + 0x8000 * p + 0x800 * z))
            && (!(x < 64 && z < 32) || (0x2d01_0000u32 | (x << 5) | (z << 11) == 0x2d01_0000 + 0x20 * x + 0x800 * z))
            && (0x2dd0_0000u32 | (p << 7) | (q << 6) | (((x & 7) << 3) | (y & 7)) == 0x2dd0_0000 + 0x80 * p + 0x40 * q + x % 8 * 8 + y % 8)
            && (0x2dd0_0000u32 | (1u32 << 7) | (q << 6) | 0x2d == 0x2dd0_0080 + 0x40 * q + 0x2d)
            && (0u32 << 0 == 0 && 0u32 << 5 == 0 && 0u32 << 6 == 0 && 0u32 << 7 == 0 && 0u32 << 15 == 0 && 0u32 << 17 == 0 && 0u32 << 19 == 0 && 0u32 << 20 == 0 && 0u32 << 21 == 0),
{
}

/// One where a flag is set.
pub open spec fn one_if(flag: bool) -> u32 {
    if flag {
        1
    } else {
        0
    }
}

/// How many words stand in front of the slice: the picture header, and for all
/// but IDR slices seven words and five for each of up to sixteen references.
pub open spec fn words_before_slice(
    slice: H264SliceParameters,
    references: Seq<AvdH264ReferencePicture>,
) -> int {
    if slice.nal_unit_type == H264NalUnitType::IdrSlice {
        31
    } else if references.len() <= 16 {
        38 + 5 * references.len() as int
    } else {
        118
    }
}

/// The stream as it is read back: at most 1024 words of it.
pub open spec fn words_of(
    request: H264DecodeRequest,
    stream: H264StreamParameters,
    slice: H264SliceParameters,
    workspace: AvdH264Workspace,
    references: Seq<AvdH264ReferencePicture>,
) -> Seq<u32> {
    let all = instruction_words(request, stream, slice, workspace, references);
    all.take(kept(all.len() as int, 1024))
}

/// Where the parts of a stream begin.
#[verifier::rlimit(40)]
proof fn parts_in_place(
    request: H264DecodeRequest,
    stream: H264StreamParameters,
    slice: H264SliceParameters,
    workspace: AvdH264Workspace,
    references: Seq<AvdH264ReferencePicture>,
)
    ensures
        ({
            let w = words_of(request, stream, slice, workspace, references);
            let k = words_before_slice(slice, references);
            let width = effective_width(request, stream);
            &&& w.len() >= k + 7
            &&& w.take(31) == header_words(request, stream, slice, workspace)
            &&& w[k] == 0
            &&& w.subrange(k + 1, k + 7) == slice_setup_words(request, slice, width)
        }),
{
    let w = words_of(request, stream, slice, workspace, references);
    let all = instruction_words(request, stream, slice, workspace, references);
    let k = words_before_slice(slice, references);
    let table = references.take(at_most(references.len() as int, 16));
    reference_run_len(request, workspace, table, table.len() as int);
    let header = header_words(request, stream, slice, workspace);
    let refs = if is_idr_slice(slice) {
        Seq::<u32>::empty()
    } else {
        reference_section(request, workspace, table)
    };
    let setup = slice_setup_words(request, slice, effective_width(request, stream));
    assert(header.len() == 31);
    assert(header.len() + refs.len() == k);
    assert(setup.len() == 6);
    assert(all.len() >= k + 7);
    assert(all.take(31) =~= header);
    assert(all[k] == 0);
    assert(all.subrange(k + 1, k + 7) =~= setup);
    assert(w.take(31) =~= all.take(31));
    assert(w.subrange(k + 1, k + 7) =~= all.subrange(k + 1, k + 7));
}

proof fn quantiser_word(q: int)
    requires
        -512 <= q < 512,
    ensures
        0x2d90_0000u32 | ((((q * 0x400) as i32) as u32) & 0x1fc00) == 0x2d90_0000 + 0x400 * (q % 128),
{
    let v = q as i32;
    signed_fields_in_numbers(v, 0, 0, 0, 0, 0);
    assert((v + 512) as u32 % 128 == (q + 512) % 128);
    assert((q + 512) % 128 == q % 128);
}

/// The quantiser of a slice is that of the picture plus the slice's own
/// difference: SliceQPY = 26 + pic_init_qp_minus26 + slice_qp_delta, in bits
/// 10 to 16 of the fifth word of the slice.
pub proof fn slices_set_their_quantiser(
    request: H264DecodeRequest,
    stream: H264StreamParameters,
    slice: H264SliceParameters,
    workspace: AvdH264Workspace,
    references: Seq<AvdH264ReferencePicture>,
)
    ensures
        ({
            let w = words_of(request, stream, slice, workspace, references);
            let k = words_before_slice(slice, references);
            let qp = 26 + request.pps.pic_init_qp_minus26 + slice.slice_qp_delta;
            &&& w.len() >= k + 7
            &&& w[k + 5] == 0x2d90_0000 + 0x400 * (qp % 128)
            &&& 0 <= qp < 128 ==> w[k + 5] == 0x2d90_0000 + 0x400 * qp
            &&& 0 <= qp < 128 ==> w[k + 5] / 0x400 % 128 == qp
        }),
{
    let w = words_of(request, stream, slice, workspace, references);
    let k = words_before_slice(slice, references);
    let width = effective_width(request, stream);
    parts_in_place(request, stream, slice, workspace, references);
    assert(w[k + 5] == w.subrange(k + 1, k + 7)[4]);
    let qp = 26 + request.pps.pic_init_qp_minus26 + slice.slice_qp_delta;
    assert(slice_setup_words(request, slice, width)[4] == 0x2d90_0000u32 | ((((qp
        * 0x400) as i32) as u32) & 0x1fc00));
    quantiser_word(qp);
}

/// A slice whose difference is one higher has a quantiser one higher, whatever
/// else it holds.
pub proof fn quantiser_follows_the_difference(
    request: H264DecodeRequest,
    stream: H264StreamParameters,
    a: H264SliceParameters,
    b: H264SliceParameters,
    workspace: AvdH264Workspace,
    references: Seq<AvdH264ReferencePicture>,
)
    requires
        b.slice_qp_delta == a.slice_qp_delta + 1,
        0 <= 26 + request.pps.pic_init_qp_minus26 + a.slice_qp_delta < 127,
    ensures
        words_of(request, stream, b, workspace, references)[words_before_slice(b, references) + 5]
            == words_of(request, stream, a, workspace, references)[words_before_slice(a, references)
            + 5] + 0x400,
{
    slices_set_their_quantiser(request, stream, a, workspace, references);
    slices_set_their_quantiser(request, stream, b, workspace, references);
}

proof fn place_words(addr: u64, bits: u32, x: u32, y: u32)
    ensures
        addr < 0x8000_0000_0000 ==> 0x2d80_0000u32 | ((bits % 8) << 15) | ((addr >> 32) as u32)
            == 0x2d80_0000 + 0x8000 * (bits % 8) + addr / 0x1_0000_0000,
        addr < 0x8000_0000_0000 ==> 0x2d80_0000u32 | 0u32 | ((addr >> 32) as u32) == 0x2d80_0000
            + addr / 0x1_0000_0000,
        addr as u32 == addr % 0x1_0000_0000,
        x < 0x4000 && y < 0x1000 ==> 0x2c00_0000u32 | (x << 12) | y == 0x2c00_0000 + 0x1000 * x + y,
{
    addresses_in_numbers(addr, bits);
    fields_in_numbers(x, y, 0, 0, 0, 0);
}

proof fn sixteenth(x: u32)
    ensures
        x >> 4 == x / 16,
{
    fields_in_numbers(x, 0, 0, 0, 0, 0);
}

/// The slice names its data, with the bits of its header that reach into the
/// first byte where the data are not arithmetic coded, and the column and row
/// of its first macroblock.
pub proof fn slices_point_to_their_data(
    request: H264DecodeRequest,
    stream: H264StreamParameters,
    slice: H264SliceParameters,
    workspace: AvdH264Workspace,
    references: Seq<AvdH264ReferencePicture>,
)
    requires
        request.input.dma_addr + slice.slice_data_offset < 0x8000_0000_0000,
        slice.slice_data_len < 0x1_0000_0000,
        slice.parsed_header_bits < 0x1_0000_0000,
        0 < request.layout.width <= 0x1_0000,
        stream.coded_width <= request.layout.width,
        slice.first_mb_in_slice < 0x4000,
    ensures
        ({
            let w = words_of(request, stream, slice, workspace, references);
            let k = words_before_slice(slice, references);
            let addr = request.input.dma_addr + slice.slice_data_offset;
            let columns = (request.layout.width + 15) / 16;
            let first = slice.first_mb_in_slice as int;
            &&& w[k] == 0
            &&& w[k + 1] == 0x2d80_0000 + (if request.pps.entropy_coding_mode {
                0
            } else {
                0x8000 * (slice.parsed_header_bits % 8)
            }) + addr / 0x1_0000_0000
            &&& w[k + 2] == addr % 0x1_0000_0000
            &&& w[k + 3] == slice.slice_data_len
            &&& w[k + 4] == 0x2c00_0000 + 0x1000 * (first / columns) + first % columns
        }),
{
    let w = words_of(request, stream, slice, workspace, references);
    let k = words_before_slice(slice, references);
    let width = effective_width(request, stream);
    parts_in_place(request, stream, slice, workspace, references);
    let part = w.subrange(k + 1, k + 7);
    assert(w[k + 1] == part[0] && w[k + 2] == part[1] && w[k + 3] == part[2] && w[k + 4]
        == part[3]);
    let addr = (request.input.dma_addr + slice.slice_data_offset) as u64;
    assert(width == request.layout.width);
    let bits = slice.parsed_header_bits as u32;
    let edge = (width - 1) as u32;
    sixteenth(edge);
    let columns = ((edge >> 4) + 1) as u32;
    assert(columns == edge / 16 + 1);
    assert(edge / 16 + 1 == (width + 15) / 16);
    assert(1 <= columns <= 0x1000);
    let x = slice.first_mb_in_slice / columns;
    let y = slice.first_mb_in_slice % columns;
    vstd::arithmetic::div_mod::lemma_div_is_ordered_by_denominator(
        slice.first_mb_in_slice as int,
        1,
        columns as int,
    );
    vstd::arithmetic::div_mod::lemma_mod_bound(slice.first_mb_in_slice as int, columns as int);
    place_words(addr, bits, x, y);
}

proof fn small_fields(v: i8)
    ensures
        swrap(v as i32, 16) == v as int % 16,
        swrap(v as i32, 32) == v as int % 32,
{
    signed_fields_in_numbers(v as i32, 0, 0, 0, 0, 0);
    let q = v as int;
    assert((v + 512) as u32 % 16 == (q + 512) % 16);
    assert((v + 512) as u32 % 32 == (q + 512) % 32);
    assert((q + 512) % 16 == q % 16);
    assert((q + 512) % 32 == q % 32);
}

proof fn filter_words(x: u32, y: u32, on: bool)
    requires
        x < 16,
        y < 16,
    ensures
        (0x2da0_0000u32 | bit_if(17, on)) | (1u32 << 16) | (x << 12) | (y << 8) == 0x2da1_0000
            + 0x2_0000 * one_if(on) + x * 0x1000 + y * 0x100,
        0x2da0_0000u32 | bit_if(17, on) == 0x2da0_0000 + 0x2_0000 * one_if(on),
{
    fields_in_numbers(x, y, 0, one_if(on), 0, 0);
}

/// The deblocking filter of a slice: off for 1, with the two offsets
/// otherwise, and across slice borders for 0 alone.
pub proof fn slices_set_their_filter(
    request: H264DecodeRequest,
    stream: H264StreamParameters,
    slice: H264SliceParameters,
    workspace: AvdH264Workspace,
    references: Seq<AvdH264ReferencePicture>,
)
    ensures
        ({
            let w = words_of(request, stream, slice, workspace, references);
            let k = words_before_slice(slice, references);
            let alpha = slice.slice_alpha_c0_offset_div2 as int % 16;
            let beta = slice.slice_beta_offset_div2 as int % 16;
            w[k + 6] == (if slice.disable_deblocking_filter_idc == 1 {
                0x2da0_0000
            } else if slice.disable_deblocking_filter_idc == 0 {
                0x2da3_0000 + 0x1000 * beta + 0x100 * alpha
            } else {
                0x2da1_0000 + 0x1000 * beta + 0x100 * alpha
            })
        }),
{
    let w = words_of(request, stream, slice, workspace, references);
    let k = words_before_slice(slice, references);
    parts_in_place(request, stream, slice, workspace, references);
    assert(w[k + 6] == w.subrange(k + 1, k + 7)[5]);
    assert(w[k + 6] == deblock_word(slice));
    small_fields(slice.slice_alpha_c0_offset_div2);
    small_fields(slice.slice_beta_offset_div2);
    filter_words(
        swrap(slice.slice_beta_offset_div2 as i32, 16),
        swrap(slice.slice_alpha_c0_offset_div2 as i32, 16),
        slice.disable_deblocking_filter_idc == 0,
    );
}

/// The greater of two numbers.
pub open spec fn greater(a: u32, b: u32) -> u32 {
    if a < b {
        b
    } else {
        a
    }
}

/// Two sizes in one word, as they are and in units of 8 and of 16.
pub proof fn size_words(h: u32, w: u32)
    ensures
        ((h & 0xffff) << 16) | (w & 0xffff) == h % 0x1_0000 * 0x1_0000 + w % 0x1_0000,
        h < 0x8_0000 && w < 0x8_0000 ==> ((h >> 3) << 16) | (w >> 3) == h / 8 * 0x1_0000 + w / 8,
        h < 0x1_0000 && w < 0x1_0000 ==> ((h >> 4) << 12) | (w >> 4) == h / 16 * 0x1000 + w / 16,
{
    fields_in_numbers(h, w, 0, 0, 0, 0);
}

proof fn format_word(c: u32, l: u32, d: u32, direct: bool, transform: bool)
    ensures
        ((c & 3) << 24) | ((l & 15) << 19) | ((d & 15) << 15) | 0x2800 | bit_if(0, direct) | bit_if(
            7,
            transform,
        ) == c % 4 * 0x100_0000 + l % 16 * 0x8_0000 + d % 16 * 0x8000 + 0x2800 + one_if(direct)
            + 128 * one_if(transform),
{
    fields_in_numbers(c, l, d, one_if(direct), one_if(transform), 0);
}

proof fn mode_word(cabac: bool, inter: bool, constrained: bool)
    ensures
        bit_if(20, cabac) | bit_if(21, inter) | bit_if(19, constrained) == 0x10_0000 * one_if(cabac)
            + 0x20_0000 * one_if(inter) + 0x8_0000 * one_if(constrained),
{
    fields_in_numbers(0, 0, 0, one_if(cabac), one_if(inter), one_if(constrained));
}

proof fn chroma_word(x: u32, y: u32)
    requires
        x < 32,
        y < 32,
    ensures
        (x << 5) | y == 32 * x + y,
{
    fields_in_numbers(x, y, 0, 0, 0, 0);
}

/// The first words of a stream describe the picture: its size, the formats of
/// the sequence, the coding modes, and the offsets of the chroma quantisers.
#[verifier::rlimit(40)]
pub proof fn pictures_describe_themselves(
    request: H264DecodeRequest,
    stream: H264StreamParameters,
    slice: H264SliceParameters,
    workspace: AvdH264Workspace,
    references: Seq<AvdH264ReferencePicture>,
)
    requires
        0 < greater(stream.coded_width, request.layout.width) <= 0x1_0000,
        0 < greater(stream.coded_height, request.layout.height) <= 0x1_0000,
    ensures
        ({
            let w = words_of(request, stream, slice, workspace, references);
            let right = greater(stream.coded_width, request.layout.width) - 1;
            let bottom = greater(stream.coded_height, request.layout.height) - 1;
            let idr = slice.nal_unit_type == H264NalUnitType::IdrSlice;
            &&& w[0] == 0x2b00_0100
            &&& w[1] == (if idr {
                0x2db0_32e0
            } else {
                0x2db0_12e0int
            })
            &&& w[2] == 0x0100_0000
            &&& w[3] == bottom * 0x1_0000 + right
            &&& w[4] == 0
            &&& w[5] == bottom / 8 * 0x1_0000 + right / 8
            &&& w[6] == stream.chroma_format_idc % 4 * 0x100_0000 + stream.bit_depth_luma_minus8
                % 16 * 0x8_0000 + stream.bit_depth_chroma_minus8 % 16 * 0x8000 + 0x2800 + one_if(
                stream.direct_8x8_inference_flag,
            ) + 128 * one_if(request.pps.transform_8x8_mode)
            &&& w[7] == 0x10_0000 * one_if(request.pps.entropy_coding_mode) + 0x20_0000 * one_if(
                !idr,
            ) + 0x8_0000 * one_if(request.pps.constrained_intra_pred)
            &&& w[8] == 32 * (request.pps.chroma_qp_index_offset as int % 32) + (
            request.pps.second_chroma_qp_index_offset as int % 32)
            &&& w[30] == bottom * 0x1_0000 + right
        }),
{
    let w = words_of(request, stream, slice, workspace, references);
    parts_in_place(request, stream, slice, workspace, references);
    let head = w.take(31);
    let picture = picture_words(request, stream, slice);
    assert(forall|i: int| 0 <= i < 9 ==> w[i] == head[i] && head[i] == #[trigger] picture[i]);
    assert(w[30] == head[30]);
    let h = (effective_height(request, stream) - 1) as u32;
    let x = (effective_width(request, stream) - 1) as u32;
    assert(w[0] == picture[0] && w[1] == picture[1] && w[2] == picture[2] && w[3] == picture[3]
        && w[4] == picture[4] && w[5] == picture[5] && w[6] == picture[6] && w[7] == picture[7]
        && w[8] == picture[8]);
    size_words(h, x);
    format_word(
        stream.chroma_format_idc,
        stream.bit_depth_luma_minus8,
        stream.bit_depth_chroma_minus8,
        stream.direct_8x8_inference_flag,
        request.pps.transform_8x8_mode,
    );
    mode_word(
        request.pps.entropy_coding_mode,
        !is_idr_slice(slice),
        request.pps.constrained_intra_pred,
    );
    small_fields(request.pps.chroma_qp_index_offset);
    small_fields(request.pps.second_chroma_qp_index_offset);
    chroma_word(
        swrap(request.pps.chroma_qp_index_offset as i32, 32),
        swrap(request.pps.second_chroma_qp_index_offset as i32, 32),
    );
}

/// An address in units of 256 and of 128 bytes.
pub proof fn address_words(a: u64)
    ensures
        (a >> 8) as u32 == a / 256 % 0x1_0000_0000,
        (a >> 7) as u32 == a / 128 % 0x1_0000_0000,
{
    addresses_in_numbers(a, 0);
}

/// Behind the description stand the memories of the decoder: the tiles 32 KiB
/// apart and the output planes in units of 256 bytes, the four sections of the
/// reference in units of 128 bytes, and strides in units of 16 bytes.
pub proof fn pictures_name_their_memory(
    request: H264DecodeRequest,
    stream: H264StreamParameters,
    slice: H264SliceParameters,
    workspace: AvdH264Workspace,
    references: Seq<AvdH264ReferencePicture>,
    j: int,
)
    requires
        buildable(request, stream, slice, workspace, references),
        0 <= j < 4,
    ensures
        ({
            let w = words_of(request, stream, slice, workspace, references);
            let pps = workspace.pps_tile_dma_addr as int;
            let luma = request.output.dma_addr as int;
            &&& w[9] == 0x0030_000a
            &&& w[10] == 0x0402_0002
            &&& w[11] == 0x0002_0002
            &&& w[12] == 0
            &&& w[13] == pps / 256 % 0x1_0000_0000
            &&& w[14] == 0x0402_0002
            &&& w[15] == 0x0402_0002
            &&& w[16] == 0
            &&& w[17] == (pps + 0x8000) / 256 % 0x1_0000_0000
            &&& w[18] == (pps + 2 * 0x8000) / 256 % 0x1_0000_0000
            &&& w[19] == (pps + 3 * 0x8000) / 256 % 0x1_0000_0000
            &&& w[20] == 0x0007_0007
            &&& w[21 + j] == (workspace.reference_dma_addr + workspace.reference_offsets@[j]) / 128
                % 0x1_0000_0000
            &&& w[25] == luma / 256 % 0x1_0000_0000
            &&& w[26] == request.layout.y_stride / 16
            &&& w[27] == (luma + request.layout.y_stride * request.layout.height) / 256
                % 0x1_0000_0000
            &&& w[28] == request.layout.uv_stride / 16
            &&& w[29] == 0
        }),
{
    let w = words_of(request, stream, slice, workspace, references);
    parts_in_place(request, stream, slice, workspace, references);
    let head = w.take(31);
    let tiles = tile_words(workspace.pps_tile_dma_addr);
    let sections = rvra_words(workspace.reference_dma_addr, workspace.reference_offsets@);
    let output = output_words(request, stream);
    let picture = picture_words(request, stream, slice);
    assert(head =~= picture + tiles + sections + output);
    assert(w.subrange(9, 21) =~= tiles);
    assert(w.subrange(21, 25) =~= sections);
    assert(w.subrange(25, 31) =~= output);
    let t = w.subrange(9, 21);
    assert(w[9] == t[0] && w[10] == t[1] && w[11] == t[2] && w[12] == t[3] && w[13] == t[4] && w[14]
        == t[5] && w[15] == t[6] && w[16] == t[7] && w[17] == t[8] && w[18] == t[9] && w[19]
        == t[10] && w[20] == t[11]);
    let o = w.subrange(25, 31);
    assert(w[25] == o[0] && w[26] == o[1] && w[27] == o[2] && w[28] == o[3] && w[29] == o[4]);
    assert(w[21 + j] == w.subrange(21, 25)[j]);
    let pps = workspace.pps_tile_dma_addr;
    address_words(pps);
    address_words((pps + 0x8000) as u64);
    address_words((pps + 0x10000) as u64);
    address_words((pps + 0x18000) as u64);
    address_words((workspace.reference_dma_addr + workspace.reference_offsets@[j]) as u64);
    address_words(request.output.dma_addr);
    address_words(uv_addr(request) as u64);
    sixteenth(request.layout.y_stride);
    sixteenth(request.layout.uv_stride);
}

proof fn run_in_place(
    request: H264DecodeRequest,
    workspace: AvdH264Workspace,
    table: Seq<AvdH264ReferencePicture>,
    n: int,
    i: int,
)
    requires
        0 <= i < n <= table.len(),
    ensures
        reference_run(request, workspace, table, n).len() == 5 * n,
        reference_run(request, workspace, table, n).subrange(5 * i, 5 * i + 5) == reference_words(
            request,
            workspace,
            table[i],
            table.len() as int,
        ),
    decreases n,
{
    reference_run_len(request, workspace, table, n);
    reference_run_len(request, workspace, table, n - 1);
    let run = reference_run(request, workspace, table, n);
    let front = reference_run(request, workspace, table, n - 1);
    if i == n - 1 {
        assert(run.subrange(5 * i, 5 * i + 5) =~= reference_words(
            request,
            workspace,
            table[i],
            table.len() as int,
        ));
    } else {
        run_in_place(request, workspace, table, n - 1, i);
        assert(run.subrange(5 * i, 5 * i + 5) =~= front.subrange(5 * i, 5 * i + 5));
    }
}

proof fn reference_head(count: u32, long_term: bool, a: i32, b: i32)
    ensures
        ((count & 0xf) << 28) | 0x0100_0000 | bit_if(17, long_term) | swrap(
            wrapping_difference(a, b),
            0x2_0000,
        ) == count % 16 * 0x1000_0000 + 0x0100_0000 + 0x2_0000 * one_if(long_term) + (a - b)
            % 0x2_0000,
{
    let d = wrapping_difference(a, b);
    signed_fields_in_numbers(0, d, 0, 0, 0, 0);
    distance_wraps(a, b);
    let y = swrap(d, 0x2_0000);
    assert(y == (a - b) % 0x2_0000);
    fields_in_numbers(count, y, 0, one_if(long_term), 0, 0);
}

proof fn distance_wraps(a: i32, b: i32)
    ensures
        ((wrapping_difference(a, b) + 0x1_0000_0000) as u64) % 0x20000 == (a - b) % 0x2_0000,
{
    let d = wrapping_difference(a, b) as int;
    assert((d + 0x1_0000_0000) % 0x2_0000 == d % 0x2_0000);
    assert(d == a - b || d == a - b + 0x1_0000_0000 || d == a - b - 0x1_0000_0000);
    assert((a - b + 0x1_0000_0000) % 0x2_0000 == (a - b) % 0x2_0000);
    assert((a - b - 0x1_0000_0000) % 0x2_0000 == (a - b) % 0x2_0000);
}

proof fn section_holds(
    request: H264DecodeRequest,
    workspace: AvdH264Workspace,
    table: Seq<AvdH264ReferencePicture>,
    i: int,
    j: int,
)
    requires
        0 <= i < table.len(),
        0 <= j < 4,
    ensures
        ({
            let section = reference_section(request, workspace, table);
            &&& section.len() == 7 + 5 * table.len()
            &&& section[0] == 0x0402_0002
            &&& section[1] == page_word(workspace.pps_tile_dma_addr + 0x20000)
            &&& section[2] == page_word(workspace.sps_tile_dma_addr as int)
            &&& section[3] == 0x0007_0007
            &&& section[7 + 5 * i] == reference_words(
                request,
                workspace,
                table[i],
                table.len() as int,
            )[0]
            &&& section[7 + 5 * i + 1 + j] == rvra_word(
                table[i].reference_dma_addr,
                workspace.reference_offsets@[j],
            )
        }),
{
    let n = table.len() as int;
    run_in_place(request, workspace, table, n, i);
    let run = reference_run(request, workspace, table, n);
    let words = reference_words(request, workspace, table[i], n);
    assert(run.subrange(5 * i, 5 * i + 5)[0] == run[5 * i]);
    assert(run.subrange(5 * i, 5 * i + 5)[1 + j] == run[5 * i + 1 + j]);
    assert(words[1 + j] == rvra_word(
        table[i].reference_dma_addr,
        workspace.reference_offsets@[j],
    ));
}

proof fn second_part(
    a: Seq<u32>,
    b: Seq<u32>,
    c: Seq<u32>,
    d: Seq<u32>,
    e: Seq<u32>,
    f: Seq<u32>,
    m: int,
)
    requires
        0 <= m < b.len(),
    ensures
        (a + b + c + d + e + f)[a.len() + m] == b[m],
{
}

/// A word of the list of references stands behind the header.
#[verifier::rlimit(40)]
proof fn section_word(
    request: H264DecodeRequest,
    stream: H264StreamParameters,
    slice: H264SliceParameters,
    workspace: AvdH264Workspace,
    references: Seq<AvdH264ReferencePicture>,
    m: int,
)
    requires
        !is_idr_slice(slice),
        ({
            let table = references.take(at_most(references.len() as int, 16));
            0 <= m < reference_section(request, workspace, table).len()
        }),
    ensures
        words_of(request, stream, slice, workspace, references)[31 + m] == reference_section(
            request,
            workspace,
            references.take(at_most(references.len() as int, 16)),
        )[m],
{
    let all = instruction_words(request, stream, slice, workspace, references);
    let lists = reference_lists(slice, request.dpb@, request.current_poc, references);
    let list0 = narrowed(lists.0);
    let list1 = narrowed(lists.1);
    let width = effective_width(request, stream);
    let height = effective_height(request, stream);
    let table = references.take(at_most(references.len() as int, 16));
    let header = header_words(request, stream, slice, workspace);
    let section = reference_section(request, workspace, table);
    parts_in_place(request, stream, slice, workspace, references);
    reference_run_len(request, workspace, table, table.len() as int);
    assert(header.len() == 31);
    second_part(
        header,
        section,
        seq![0u32],
        slice_setup_words(request, slice, width),
        prediction_section(request, slice, list0, list1),
        slice_end_words(request, slice, workspace, width, height, list1, references),
        m,
    );
    assert(all[31 + m] == section[m]);
}

proof fn section_in_place(
    request: H264DecodeRequest,
    stream: H264StreamParameters,
    slice: H264SliceParameters,
    workspace: AvdH264Workspace,
    references: Seq<AvdH264ReferencePicture>,
    i: int,
    j: int,
)
    requires
        !is_idr_slice(slice),
        0 <= i < references.len(),
        i < 16,
        0 <= j < 4,
    ensures
        ({
            let w = words_of(request, stream, slice, workspace, references);
            let table = references.take(at_most(references.len() as int, 16));
            let words = reference_words(request, workspace, references[i], table.len() as int);
            &&& w[31] == 0x0402_0002
            &&& w[32] == page_word(workspace.pps_tile_dma_addr + 0x20000)
            &&& w[33] == page_word(workspace.sps_tile_dma_addr as int)
            &&& w[34] == 0x0007_0007
            &&& w[38 + 5 * i] == words[0]
            &&& w[38 + 5 * i + 1 + j] == rvra_word(
                references[i].reference_dma_addr,
                workspace.reference_offsets@[j],
            )
        }),
{
    let table = references.take(at_most(references.len() as int, 16));
    assert(table[i] == references[i]);
    section_holds(request, workspace, table, i, j);
    section_word(request, stream, slice, workspace, references, 0);
    section_word(request, stream, slice, workspace, references, 1);
    section_word(request, stream, slice, workspace, references, 2);
    section_word(request, stream, slice, workspace, references, 3);
    section_word(request, stream, slice, workspace, references, 7 + 5 * i);
    section_word(request, stream, slice, workspace, references, 7 + 5 * i + 1 + j);
}

/// Each of up to sixteen references of a slice that is no IDR slice has five
/// words: how many there are, whether it is kept for long, how far it is from
/// the current picture in order, and its four sections.
pub proof fn references_are_listed(
    request: H264DecodeRequest,
    stream: H264StreamParameters,
    slice: H264SliceParameters,
    workspace: AvdH264Workspace,
    references: Seq<AvdH264ReferencePicture>,
    i: int,
    j: int,
)
    requires
        buildable(request, stream, slice, workspace, references),
        slice.nal_unit_type != H264NalUnitType::IdrSlice,
        0 <= i < references.len(),
        i < 16,
        0 <= j < 4,
    ensures
        ({
            let w = words_of(request, stream, slice, workspace, references);
            let n = if references.len() <= 16 {
                references.len() as int
            } else {
                16
            };
            let reference = references[i];
            &&& w[31] == 0x0402_0002
            &&& w[32] == (workspace.pps_tile_dma_addr + 4 * 0x8000) / 256 % 0x1_0000_0000
            &&& w[33] == workspace.sps_tile_dma_addr / 256 % 0x1_0000_0000
            &&& w[34] == 0x0007_0007
            &&& w[38 + 5 * i] == (n - 1) % 16 * 0x1000_0000 + 0x0100_0000 + 0x2_0000 * one_if(
                reference.long_term,
            ) + (request.current_poc - reference.top_field_order_cnt) % 0x2_0000
            &&& w[38 + 5 * i + 1 + j] == (reference.reference_dma_addr
                + workspace.reference_offsets@[j]) / 128 % 0x1_0000_0000
        }),
{
    let table = references.take(at_most(references.len() as int, 16));
    let n = table.len() as int;
    let reference = references[i];
    section_in_place(request, stream, slice, workspace, references, i, j);
    address_words((workspace.pps_tile_dma_addr + 0x20000) as u64);
    address_words(workspace.sps_tile_dma_addr);
    assert(reference.reference_dma_addr + workspace.reference_offsets@[j] <= u64::MAX);
    address_words((reference.reference_dma_addr + workspace.reference_offsets@[j]) as u64);
    reference_head(
        (n - 1) as u32,
        reference.long_term,
        request.current_poc,
        reference.top_field_order_cnt,
    );
}

proof fn entry_word(second: bool, position: int, index: u8)
    requires
        0 <= position < 0x1_0000,
    ensures
        list_word(second, position, index) == 0x2dc0_0000 + 0x100 * one_if(second) + position % 16
            * 16 + index % 16,
{
    fields_in_numbers(position as u32, index as u32, 0, 0, 0, 0);
}

/// The lists of a predicted slice stand behind its set-up, one word for each
/// entry: which list, which place, which picture.
#[verifier::rlimit(40)]
pub proof fn lists_name_their_pictures(
    request: H264DecodeRequest,
    stream: H264StreamParameters,
    slice: H264SliceParameters,
    workspace: AvdH264Workspace,
    references: Seq<AvdH264ReferencePicture>,
    i: int,
)
    requires
        slice.kind != H264SliceKind::I,
    ensures
        ({
            let all = instruction_words(request, stream, slice, workspace, references);
            let k = words_before_slice(slice, references) + 7;
            let lists = reference_lists(slice, request.dpb@, request.current_poc, references);
            &&& 0 <= i < lists.0.len() && i < 0x1_0000 ==> all[k + i] == 0x2dc0_0000 + i % 16 * 16 + (
            lists.0[i] as u8) % 16
            &&& slice.kind == H264SliceKind::B && 0 <= i < lists.1.len() && i < 0x1_0000 ==> all[k
                + lists.0.len() + i] == 0x2dc0_0100 + i % 16 * 16 + (lists.1[i] as u8) % 16
        }),
{
    let all = instruction_words(request, stream, slice, workspace, references);
    let k = words_before_slice(slice, references) + 7;
    let lists = reference_lists(slice, request.dpb@, request.current_poc, references);
    let table = references.take(at_most(references.len() as int, 16));
    reference_run_len(request, workspace, table, table.len() as int);
    let list0 = narrowed(lists.0);
    let list1 = narrowed(lists.1);
    let prediction = prediction_section(request, slice, list0, list1);
    let front = header_words(request, stream, slice, workspace) + (if is_idr_slice(slice) {
        Seq::<u32>::empty()
    } else {
        reference_section(request, workspace, table)
    }) + seq![0u32] + slice_setup_words(request, slice, effective_width(request, stream));
    assert(front.len() == k);
    let words0 = list_words(false, list0);
    let words1 = list_words(true, list1);
    if 0 <= i < lists.0.len() && i < 0x1_0000 {
        assert(prediction[i] == words0[i]);
        assert(all[k + i] == prediction[i]);
        entry_word(false, i, list0[i]);
    }
    if slice.kind == H264SliceKind::B && 0 <= i < lists.1.len() && i < 0x1_0000 {
        assert(prediction[words0.len() + i] == words1[i]);
        assert(all[k + words0.len() + i] == prediction[words0.len() + i]);
        entry_word(true, i, list1[i]);
    }
}

proof fn split_sides(refs: Seq<AvdH264ReferencePicture>, n: int, poc: i32, before: bool)
    requires
        n <= refs.len(),
        n <= 16,
    ensures
        forall|k: int|
            0 <= k < split_by_poc(refs, n, poc, before).len() ==> {
                let i = #[trigger] split_by_poc(refs, n, poc, before)[k];
                i < n && (refs[i as int].top_field_order_cnt < poc) == before
            },
    decreases n,
{
    if n > 0 {
        split_sides(refs, n - 1, poc, before);
        let head = split_by_poc(refs, n - 1, poc, before);
        let all = split_by_poc(refs, n, poc, before);
        assert forall|k: int| 0 <= k < all.len() implies {
            let i = #[trigger] all[k];
            i < n && (refs[i as int].top_field_order_cnt < poc) == before
        } by {
            if k < head.len() {
                assert(all[k] == head[k]);
            }
        }
    }
}

/// The pictures before the current one, latest first.
proof fn past_in_order(refs: Seq<AvdH264ReferencePicture>, poc: i32)
    ensures
        forall|k: int|
            0 <= k < past_pictures(refs, poc).len() ==> refs[(#[trigger] past_pictures(
                refs,
                poc,
            )[k]) as int].top_field_order_cnt < poc,
        forall|a: int, b: int|
            0 <= a < b < past_pictures(refs, poc).len() ==> refs[(#[trigger] past_pictures(
                refs,
                poc,
            )[a]) as int].top_field_order_cnt >= refs[(#[trigger] past_pictures(
                refs,
                poc,
            )[b]) as int].top_field_order_cnt,
{
    let s = split_by_poc(refs, at_most(refs.len() as int, 16), poc, true);
    let sorted = past_pictures(refs, poc);
    split_sides(refs, at_most(refs.len() as int, 16), poc, true);
    exchange_sort_sorts(s, refs, false);
    assert forall|k: int| 0 <= k < sorted.len() implies refs[(
    #[trigger] sorted[k]) as int].top_field_order_cnt < poc by {
        let j = came_from(s, sorted, k);
        assert(s[j] == sorted[k]);
    }
    assert forall|a: int, b: int| 0 <= a < b < sorted.len() implies refs[(
    #[trigger] sorted[a]) as int].top_field_order_cnt >= refs[(
    #[trigger] sorted[b]) as int].top_field_order_cnt by {
        assert(!out_of_order(refs, sorted[a], sorted[b], false));
    }
}

/// The other pictures, earliest first.
proof fn future_in_order(refs: Seq<AvdH264ReferencePicture>, poc: i32)
    ensures
        forall|k: int|
            0 <= k < future_pictures(refs, poc).len() ==> refs[(#[trigger] future_pictures(
                refs,
                poc,
            )[k]) as int].top_field_order_cnt >= poc,
        forall|a: int, b: int|
            0 <= a < b < future_pictures(refs, poc).len() ==> refs[(#[trigger] future_pictures(
                refs,
                poc,
            )[a]) as int].top_field_order_cnt <= refs[(#[trigger] future_pictures(
                refs,
                poc,
            )[b]) as int].top_field_order_cnt,
{
    let s = split_by_poc(refs, at_most(refs.len() as int, 16), poc, false);
    let sorted = future_pictures(refs, poc);
    split_sides(refs, at_most(refs.len() as int, 16), poc, false);
    exchange_sort_sorts(s, refs, true);
    assert forall|k: int| 0 <= k < sorted.len() implies refs[(
    #[trigger] sorted[k]) as int].top_field_order_cnt >= poc by {
        let j = came_from(s, sorted, k);
        assert(s[j] == sorted[k]);
    }
    assert forall|a: int, b: int| 0 <= a < b < sorted.len() implies refs[(
    #[trigger] sorted[a]) as int].top_field_order_cnt <= refs[(
    #[trigger] sorted[b]) as int].top_field_order_cnt by {
        assert(!out_of_order(refs, sorted[a], sorted[b], true));
    }
}

/// What stands in a list with the same entries stands in the other.
proof fn came_from(s: Seq<usize>, sorted: Seq<usize>, k: int) -> (j: int)
    requires
        sorted.to_multiset() == s.to_multiset(),
        0 <= k < sorted.len(),
    ensures
        0 <= j < s.len(),
        s[j] == sorted[k],
{
    broadcast use vstd::seq_lib::group_to_multiset_ensures;

    assert(sorted.contains(sorted[k]));
    assert(sorted.to_multiset().count(sorted[k]) > 0);
    assert(s.to_multiset().count(sorted[k]) > 0);
    assert(s.contains(sorted[k]));
    choose|j: int| 0 <= j < s.len() && s[j] == sorted[k]
}

/// The first list of a B slice without lists of its own: pictures before the
/// current one come first, the latest of them in front, then the others, the
/// earliest of them in front.
pub proof fn first_list_starts_with_the_past(
    slice: H264SliceParameters,
    dpb: Seq<H264DpbEntry>,
    poc: i32,
    refs: Seq<AvdH264ReferencePicture>,
    a: int,
    b: int,
)
    requires
        !slice.ref_lists_present,
        slice.kind == H264SliceKind::B,
        0 <= a < b < reference_lists(slice, dpb, poc, refs).0.len(),
    ensures
        ({
            let list = reference_lists(slice, dpb, poc, refs).0;
            let x = refs[list[a] as int].top_field_order_cnt;
            let y = refs[list[b] as int].top_field_order_cnt;
            &&& y < poc ==> x < poc && x >= y
            &&& x >= poc ==> y >= poc && x <= y
        }),
{
    past_in_order(refs, poc);
    future_in_order(refs, poc);
    let past = past_pictures(refs, poc);
    let future = future_pictures(refs, poc);
    let list = reference_lists(slice, dpb, poc, refs).0;
    let all = past + future;
    assert(list[a] == all[a] && list[b] == all[b]);
}

/// The second list of a B slice starts with the other side of the current
/// picture, nearest first; only where both lists would be the same are its
/// first two pictures exchanged.
pub proof fn second_list_starts_with_the_future(
    refs: Seq<AvdH264ReferencePicture>,
    poc: i32,
    a: int,
    b: int,
)
    requires
        past_pictures(refs, poc).len() > 0,
        future_pictures(refs, poc).len() > 0,
        0 <= a < b < bipred_list1(refs, poc).len(),
    ensures
        ({
            let list = bipred_list1(refs, poc);
            let x = refs[list[a] as int].top_field_order_cnt;
            let y = refs[list[b] as int].top_field_order_cnt;
            &&& y >= poc ==> x >= poc && x <= y
            &&& x < poc ==> y < poc && x >= y
        }),
{
    past_in_order(refs, poc);
    future_in_order(refs, poc);
    let past = past_pictures(refs, poc);
    let future = future_pictures(refs, poc);
    let one = past + future;
    let two = future + past;
    if one == two {
        assert(one[0] == past[0]);
        assert(two[0] == future[0]);
        assert(refs[past[0] as int].top_field_order_cnt < poc);
        assert(refs[future[0] as int].top_field_order_cnt >= poc);
    }
    assert(bipred_list1(refs, poc) == two);
}

proof fn end_numbers(bottom: u32, right: u32, cabac: u32, l0: u32, l1: u32, temporal: bool)
    ensures
        bottom < 0x1_0000 && right < 0x1_0000 ==> ((bottom >> 4) << 12) | (right >> 4) == bottom / 16
            * 0x1000 + right / 16,
        cabac < 4 && l0 < 16 ==> 0x2d01_0000u32 | (cabac << 5) | (l0 << 11) == 0x2d01_0000 + 0x20
            * cabac + 0x800 * l0,
        cabac < 4 && l1 < 16 && l0 < 16 ==> 0x2d04_0000u32 | (cabac << 5) | (l1 << 7) | bit_if(
            15,
            temporal,
        ) | (l0 << 11) == 0x2d04_0000 + 0x20 * cabac + 0x80 * l1 + 0x8000 * one_if(temporal) + 0x800
            * l0,
        0u32 << 5 == 0,
{
    fields_in_numbers(bottom, right, 0, 0, 0, 0);
    fields_in_numbers(cabac, l1, l0, one_if(temporal), 0, 0);
}

/// The last words of a stream: the first slice of a picture tells its size in
/// macroblocks; every slice tells its kind with the sizes of its lists, a B slice
/// where the motion of its co-located picture lies; the last word closes it.
pub proof fn slices_are_closed(
    request: H264DecodeRequest,
    stream: H264StreamParameters,
    slice: H264SliceParameters,
    workspace: AvdH264Workspace,
    references: Seq<AvdH264ReferencePicture>,
)
    requires
        0 < greater(stream.coded_width, request.layout.width) <= 0x1_0000,
        0 < greater(stream.coded_height, request.layout.height) <= 0x1_0000,
        slice.cabac_init_idc < 4,
        slice.num_ref_idx_l0_active_minus1 < 16,
        slice.num_ref_idx_l1_active_minus1 < 16,
    ensures
        ({
            let w = instruction_words(request, stream, slice, workspace, references);
            let n = w.len() as int;
            let right = greater(stream.coded_width, request.layout.width) - 1;
            let bottom = greater(stream.coded_height, request.layout.height) - 1;
            let cabac = if request.pps.entropy_coding_mode {
                slice.cabac_init_idc as int
            } else {
                0
            };
            let l0 = slice.num_ref_idx_l0_active_minus1 as int;
            let l1 = slice.num_ref_idx_l1_active_minus1 as int;
            let kind = if slice.kind == H264SliceKind::B {
                n - 3
            } else {
                n - 2
            };
            &&& w[n - 1] == 0x2b00_0400
            &&& w[kind] == (match slice.kind {
                H264SliceKind::I => 0x2d02_0000int,
                H264SliceKind::P => 0x2d01_0000 + 0x20 * cabac + 0x800 * l0,
                H264SliceKind::B => 0x2d04_0000 + 0x20 * cabac + 0x80 * l1 + 0x8000 * one_if(
                    !slice.direct_spatial_mv_pred,
                ) + 0x800 * l0,
            })
            &&& slice.first_mb_in_slice == 0 ==> w[kind - 2] == 0x2a00_0000 && w[kind - 1] == bottom
                / 16 * 0x1000 + right / 16
        }),
{
    let w = instruction_words(request, stream, slice, workspace, references);
    let n = w.len() as int;
    let lists = reference_lists(slice, request.dpb@, request.current_poc, references);
    let width = effective_width(request, stream);
    let height = effective_height(request, stream);
    let end = slice_end_words(
        request,
        slice,
        workspace,
        width,
        height,
        narrowed(lists.1),
        references,
    );
    let m = end.len() as int;
    assert(w.skip(n - m) =~= end);
    assert forall|i: int| 0 <= i < m implies w[n - m + i] == #[trigger] end[i] by {
        assert(w.skip(n - m)[i] == w[n - m + i]);
    }
    assert(w[n - 1] == end[m - 1]);
    let kind = if slice.kind == H264SliceKind::B {
        m - 3
    } else {
        m - 2
    };
    assert(end[kind] == ref_type_word(request, slice));
    assert(w[n - m + kind] == end[kind]);
    if slice.first_mb_in_slice == 0 {
        assert(end[0] == w[n - m] && end[1] == w[n - m + 1]);
    }
    end_numbers(
        (height - 1) as u32,
        (width - 1) as u32,
        if request.pps.entropy_coding_mode {
            slice.cabac_init_idc as u32
        } else {
            0
        },
        slice.num_ref_idx_l0_active_minus1 as u32,
        slice.num_ref_idx_l1_active_minus1 as u32,
        !slice.direct_spatial_mv_pred,
    );
}

proof fn weight_numbers(kind: u32, list: int, index: int, weight: i16, offset: i16)
    requires
        kind < 4,
        0 <= list < 2,
        0 <= index < 16,
    ensures
        weight_word(kind, list, index, weight) == 0x2de0_0000 + 0x4000 * kind + 0x2000 * list + 0x200
            * index + weight as int % 0x200,
        offset_word(offset) == 0x2df0_0000 + offset as int % 0x1_0000,
{
    signed_fields_in_numbers(0, offset as i32, weight, kind, list as u32, index as u32);
    let w = weight as int;
    assert(((weight + 0x1_0000) as u32) % 0x200 == (w + 0x1_0000) % 0x200);
    assert((w + 0x1_0000) % 0x200 == w % 0x200);
    let o = offset as int;
    assert(((offset as i32 + 0x1_0000_0000) as u64) % 0x10000 == (o + 0x1_0000_0000) % 0x1_0000);
    assert((o + 0x1_0000_0000) % 0x1_0000 == o % 0x1_0000);
    fields_in_numbers(swrap(offset as i32, 0x1_0000), 0, 0, 0, 0, 0);
}

/// The explicit weights of a reference: a pair of words for luma and two pairs
/// for chroma, each with the list, the place in it and the weight, then the
/// offset. A part whose weights are all one and whose offsets are all zero is
/// left out.
#[verifier::rlimit(40)]
pub proof fn weights_are_written_out(weights: H264PredWeights, list: int, index: int)
    requires
        0 <= list < 2,
        0 <= index < 16,
    ensures
        ({
            let f = weights.weight_factors@[list];
            let w = weights_of(weights, list, index);
            let place = 0x2de0_0000 + 0x2000 * list + 0x200 * index;
            let plain = f.luma_weight@[index] == default_weight(weights.luma_log2_weight_denom)
                && f.luma_offset@[index] == 0;
            let gray = f.chroma_weight@[index]@[0] == default_weight(
                weights.chroma_log2_weight_denom,
            ) && f.chroma_weight@[index]@[1] == default_weight(weights.chroma_log2_weight_denom)
                && f.chroma_offset@[index]@[0] == 0 && f.chroma_offset@[index]@[1] == 0;
            let k = if plain {
                0int
            } else {
                2int
            };
            &&& w.len() == k + (if gray {
                0int
            } else {
                4int
            })
            &&& !plain ==> {
                &&& w[0] == place + 0x4000 * 1 + f.luma_weight@[index] as int % 0x200
                &&& w[1] == 0x2df0_0000 + f.luma_offset@[index] as int % 0x1_0000
            }
            &&& !gray ==> {
                &&& w[k] == place + 0x4000 * 2 + f.chroma_weight@[index]@[0] as int % 0x200
                &&& w[k + 1] == 0x2df0_0000 + f.chroma_offset@[index]@[0] as int % 0x1_0000
                &&& w[k + 2] == place + 0x4000 * 3 + f.chroma_weight@[index]@[1] as int % 0x200
                &&& w[k + 3] == 0x2df0_0000 + f.chroma_offset@[index]@[1] as int % 0x1_0000
            }
        }),
{
    let f = weights.weight_factors@[list];
    weight_numbers(1, list, index, f.luma_weight@[index], f.luma_offset@[index]);
    weight_numbers(2, list, index, f.chroma_weight@[index]@[0], f.chroma_offset@[index]@[0]);
    weight_numbers(3, list, index, f.chroma_weight@[index]@[1], f.chroma_offset@[index]@[1]);
}

} // verus!
