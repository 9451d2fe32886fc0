//! The AVD instruction words of one H.264 slice.

use crate::arith::{bit, bit_if, max_of, max_u32};
use crate::avd::common::AvdDmaRange;
use crate::avd::h264::{
    picture_parameters, slice_data_range, AvdFrameLayout, H264DecodeFlags, H264DpbEntry,
    H264FrontendError, H264NalUnitType, H264PictureParameters, H264PredWeights, H264SliceKind,
    H264SliceParameters, H264StatelessParams, H264StreamParameters, H264WeightFactors,
    AVD_H264_MAX_INSTRUCTION_WORDS,
};
use crate::avd::h264_refs::{
    at_most, narrowed, picture_of_entry, reference_lists, reference_picture_for_dpb_entry,
    AvdH264ReferencePicture, ReferencePlan,
};
use crate::avd::words::{kept, WordBuffer};
use crate::bytes::le32_all;
use vstd::prelude::*;

verus! {

/// Device-visible addresses of AVD session work areas.
#[derive(Clone, Copy, Debug)]
pub struct AvdH264Workspace {
    /// Instruction FIFO memory.
    pub instruction_fifo_dma_addr: u64,
    /// PPS/intermediate tile memory.
    pub pps_tile_dma_addr: u64,
    /// SPS tile memory.
    pub sps_tile_dma_addr: u64,
    /// Reference scratch memory.
    pub reference_dma_addr: u64,
    /// RVRA section offsets relative to `reference_dma_addr`.
    pub reference_offsets: [u32; 4],
}

/// H.264 decode request lowered for the Apple AVD command path.
#[derive(Clone, Copy, Debug)]
pub struct H264DecodeRequest {
    /// Video session identifier.
    pub session_id: u64,
    /// Driver-local frame number.
    pub frame_number: u32,
    /// Input slice byte stream.
    pub input: AvdDmaRange,
    /// Output NV12 frame buffer.
    pub output: AvdDmaRange,
    /// Decoded frame layout.
    pub layout: AvdFrameLayout,
    /// Current picture order count.
    pub current_poc: i32,
    /// Current H.264 frame number.
    pub frame_num: u16,
    /// Request flags.
    pub flags: H264DecodeFlags,
    /// PPS-derived picture parameters.
    pub pps: H264PictureParameters,
    /// Decoded picture buffer handed over with the request.
    pub dpb: [H264DpbEntry; 16],
    /// Explicit H.264 prediction weights.
    pub pred_weights: H264PredWeights,
    /// Slice metadata used for AVD instruction generation.
    pub slice: H264SliceParameters,
}

/// What a decode request is made of, or why there is none.
pub open spec fn request_lowered(
    r: Result<H264DecodeRequest, H264FrontendError>,
    session_id: u64,
    frame_number: u32,
    params: H264StatelessParams,
    input: AvdDmaRange,
    input_bytes: Seq<u8>,
    output: AvdDmaRange,
    layout: AvdFrameLayout,
) -> bool {
    let range = slice_data_range(input_bytes, params.slice_params, params.pps.entropy_coding_mode);
    if layout.width == 0 || layout.height == 0 {
        r == Err::<H264DecodeRequest, _>(H264FrontendError::InvalidDimensions)
    } else if params.decode_params.nal_ref_idc > 3 || params.slice_params.nal_len == 0 {
        r == Err::<H264DecodeRequest, _>(H264FrontendError::MalformedSlice)
    } else if range is None {
        r == Err::<H264DecodeRequest, _>(H264FrontendError::InvalidSliceRange)
    } else {
        let data = range->0;
        &&& r is Ok
        &&& r->Ok_0.session_id == session_id
        &&& r->Ok_0.frame_number == frame_number
        &&& r->Ok_0.input == input
        &&& r->Ok_0.output == output
        &&& r->Ok_0.layout == layout
        &&& r->Ok_0.current_poc == params.decode_params.top_field_order_cnt
        &&& r->Ok_0.frame_num == params.decode_params.frame_num
        &&& r->Ok_0.flags.raw() == (if params.decode_params.idr {
            3u32
        } else {
            2u32
        })
        &&& r->Ok_0.pps == picture_parameters(params.pps)
        &&& r->Ok_0.dpb == params.decode_params.dpb
        &&& r->Ok_0.pred_weights == params.pred_weights
        &&& r->Ok_0.slice == H264SliceParameters::lowered(
            params.slice_params,
            params.decode_params,
            data.0 as usize,
            data.1 as usize,
        )
    }
}

impl H264DecodeRequest {
    /// Build a decode request from stateless H.264 controls and DMA buffers.
    pub fn from_stateless(
        session_id: u64,
        frame_number: u32,
        params: &H264StatelessParams,
        input: AvdDmaRange,
        input_bytes: &[u8],
        output: AvdDmaRange,
        layout: AvdFrameLayout,
    ) -> (r: Result<Self, H264FrontendError>)
        ensures
            request_lowered(
                r,
                session_id,
                frame_number,
                *params,
                input,
                input_bytes@,
                output,
                layout,
            ),
    {
        if layout.width == 0 || layout.height == 0 {
            return Err(H264FrontendError::InvalidDimensions);
        }
        let pps = H264PictureParameters::from_stateless_pps(&params.pps);
        let slice = match H264SliceParameters::from_stateless(
            &params.slice_params,
            &params.decode_params,
            &params.pps,
            input_bytes,
        ) {
            Ok(slice) => slice,
            Err(error) => {
                return Err(error);
            },
        };
        let mut flags = H264DecodeFlags::empty();
        flags.insert(H264DecodeFlags::parameter_sets());
        if params.decode_params.idr {
            flags.insert(H264DecodeFlags::idr());
        }
        proof {
            crate::arith::flags_combine();
        }
        Ok(
            H264DecodeRequest {
                session_id,
                frame_number,
                input,
                output,
                layout,
                current_poc: params.decode_params.top_field_order_cnt,
                frame_num: params.decode_params.frame_num,
                flags,
                pps,
                dpb: params.decode_params.dpb,
                pred_weights: params.pred_weights,
                slice,
            },
        )
    }
}

/// A signed value wrapped into the low bits below `width`.
pub open spec fn swrap(value: i32, width: u32) -> u32 {
    (value as u32) & ((width - 1) as u32)
}

fn swrap_i32(value: i32, width: u32) -> (r: u32)
    requires
        width >= 1,
    ensures
        r == swrap(value, width),
{
    (value as u32) & (width - 1)
}

fn swrap_i8(value: i8, width: u32) -> (r: u32)
    requires
        width >= 1,
    ensures
        r == swrap(value as i32, width),
{
    (value as i32 as u32) & (width - 1)
}

/// AVD instruction stream produced from one H.264 slice.
pub struct AvdH264InstructionStream {
    buffer: WordBuffer,
}

impl AvdH264InstructionStream {
    /// Every word emitted so far.
    pub closed spec fn emitted(&self) -> Seq<u32> {
        self.buffer.emitted()
    }

    /// At most 1024 words are kept.
    pub closed spec fn wf(&self) -> bool {
        self.buffer.wf() && self.buffer.limit() == AVD_H264_MAX_INSTRUCTION_WORDS
    }

    fn new() -> (r: Self)
        ensures
            r.wf(),
            r.emitted() == Seq::<u32>::empty(),
    {
        AvdH264InstructionStream { buffer: WordBuffer::new(AVD_H264_MAX_INSTRUCTION_WORDS) }
    }

    fn push_word(&mut self, value: u32)
        requires
            old(self).wf(),
        ensures
            final(self).wf(),
            final(self).emitted() == old(self).emitted().push(value),
    {
        self.buffer.push(value);
    }

    /// Return encoded instruction words: the first 1024 emitted.
    pub fn words(&self) -> (r: &[u32])
        requires
            self.wf(),
        ensures
            r@ == self.emitted().take(
                kept(self.emitted().len() as int, AVD_H264_MAX_INSTRUCTION_WORDS as int),
            ),
    {
        self.buffer.words()
    }

    /// Copy this stream as little-endian words. It succeeds where no word was
    /// dropped and the bytes fit, and then leaves the rest of `dst` alone.
    pub fn write_le_bytes(&self, dst: &mut [u8]) -> (r: Result<usize, H264FrontendError>)
        requires
            self.wf(),
        ensures
            ({
                let all = self.emitted();
                if all.len() <= AVD_H264_MAX_INSTRUCTION_WORDS && 4 * all.len()
                    <= old(dst)@.len() {
                    &&& r == Ok::<usize, H264FrontendError>((4 * all.len()) as usize)
                    &&& final(dst)@ == le32_all(all) + old(dst)@.skip(4 * all.len() as int)
                } else {
                    &&& r == Err::<usize, _>(H264FrontendError::InstructionStreamTooLarge)
                    &&& final(dst)@ == old(dst)@
                }
            }),
    {
        match self.buffer.write_le_bytes(dst) {
            Some(byte_len) => Ok(byte_len),
            None => Err(H264FrontendError::InstructionStreamTooLarge),
        }
    }
}

/// Width and height minus one in two halves of a word.
pub open spec fn dims_word(width: u32, height: u32) -> u32 {
    ((((height - 1) as u32) & 0xffff) << 16) | (((width - 1) as u32) & 0xffff)
}

/// One RVRA section address in units of 128 bytes.
pub open spec fn rvra_word(base: u64, offset: u32) -> u32 {
    (((base + offset) as u64) >> 7) as u32
}

/// The four RVRA section addresses.
pub open spec fn rvra_words(base: u64, offsets: Seq<u32>) -> Seq<u32> {
    seq![
        rvra_word(base, offsets[0]),
        rvra_word(base, offsets[1]),
        rvra_word(base, offsets[2]),
        rvra_word(base, offsets[3]),
    ]
}

/// An address in units of 256 bytes.
pub open spec fn page_word(addr: int) -> u32 {
    ((addr as u64) >> 8) as u32
}

/// The width in effect: the wider of stream and output.
pub open spec fn effective_width(request: H264DecodeRequest, stream: H264StreamParameters) -> u32 {
    max_of(stream.coded_width, request.layout.width)
}

/// The height in effect: the taller of stream and output.
pub open spec fn effective_height(
    request: H264DecodeRequest,
    stream: H264StreamParameters,
) -> u32 {
    max_of(stream.coded_height, request.layout.height)
}

pub open spec fn is_idr_slice(slice: H264SliceParameters) -> bool {
    slice.nal_unit_type == H264NalUnitType::IdrSlice
}

/// Address of the interleaved chroma plane.
pub open spec fn uv_addr(request: H264DecodeRequest) -> int {
    request.output.dma_addr + request.layout.y_stride * request.layout.height
}

pub open spec fn sps_word(request: H264DecodeRequest, stream: H264StreamParameters) -> u32 {
    ((stream.chroma_format_idc & 3) << 24) | ((stream.bit_depth_luma_minus8 & 15) << 19) | ((
    stream.bit_depth_chroma_minus8 & 15) << 15) | 0x2800 | bit_if(
        0,
        stream.direct_8x8_inference_flag,
    ) | bit_if(7, request.pps.transform_8x8_mode)
}

pub open spec fn flags_word(request: H264DecodeRequest, slice: H264SliceParameters) -> u32 {
    bit_if(20, request.pps.entropy_coding_mode) | bit_if(21, !is_idr_slice(slice)) | bit_if(
        19,
        request.pps.constrained_intra_pred,
    )
}

/// The words that describe the picture.
pub open spec fn picture_words(
    request: H264DecodeRequest,
    stream: H264StreamParameters,
    slice: H264SliceParameters,
) -> Seq<u32> {
    let width = effective_width(request, stream);
    let height = effective_height(request, stream);
    seq![
        0x2b00_0100u32,
        if is_idr_slice(slice) {
            0x2db0_32e0u32
        } else {
            0x2db0_12e0u32
        },
        0x0100_0000,
        dims_word(width, height),
        0,
        ((((height - 1) as u32) >> 3) << 16) | (((width - 1) as u32) >> 3),
        sps_word(request, stream),
        flags_word(request, slice),
        (swrap(request.pps.chroma_qp_index_offset as i32, 32) << 5) | swrap(
            request.pps.second_chroma_qp_index_offset as i32,
            32,
        ),
    ]
}

/// The DMA configuration and the tile addresses behind it.
pub open spec fn tile_words(pps: u64) -> Seq<u32> {
    seq![
        0x0030_000au32,
        0x0402_0002,
        0x0002_0002,
        0,
        page_word(pps as int),
        0x0402_0002,
        0x0402_0002,
        0,
        page_word(pps + 0x8000),
        page_word(pps + 0x10000),
        page_word(pps + 0x18000),
        0x0007_0007,
    ]
}

/// Addresses and strides of the output planes.
pub open spec fn output_words(
    request: H264DecodeRequest,
    stream: H264StreamParameters,
) -> Seq<u32> {
    seq![
        page_word(request.output.dma_addr as int),
        request.layout.y_stride >> 4,
        page_word(uv_addr(request)),
        request.layout.uv_stride >> 4,
        0,
        dims_word(effective_width(request, stream), effective_height(request, stream)),
    ]
}

/// The picture header up to the reference section.
pub open spec fn header_words(
    request: H264DecodeRequest,
    stream: H264StreamParameters,
    slice: H264SliceParameters,
    workspace: AvdH264Workspace,
) -> Seq<u32> {
    picture_words(request, stream, slice) + tile_words(workspace.pps_tile_dma_addr) + rvra_words(
        workspace.reference_dma_addr,
        workspace.reference_offsets@,
    ) + output_words(request, stream)
}

/// The words of one reference picture: its header, then its sections.
pub open spec fn reference_words(
    request: H264DecodeRequest,
    workspace: AvdH264Workspace,
    reference: AvdH264ReferencePicture,
    count: int,
) -> Seq<u32> {
    seq![
        ((((count - 1) as u32) & 0xf) << 28) | 0x0100_0000 | bit_if(17, reference.long_term)
            | swrap(
            wrapping_difference(request.current_poc, reference.top_field_order_cnt),
            0x2_0000,
        ),
    ] + rvra_words(reference.reference_dma_addr, workspace.reference_offsets@)
}

/// Difference of two order counts, wrapping.
pub open spec fn wrapping_difference(a: i32, b: i32) -> i32 {
    let d = a - b;
    if d > i32::MAX {
        (d - 0x1_0000_0000) as i32
    } else if d < i32::MIN {
        (d + 0x1_0000_0000) as i32
    } else {
        d as i32
    }
}

/// The words of the first `n` reference pictures.
pub open spec fn reference_run(
    request: H264DecodeRequest,
    workspace: AvdH264Workspace,
    table: Seq<AvdH264ReferencePicture>,
    n: int,
) -> Seq<u32>
    decreases n,
{
    if n <= 0 {
        Seq::empty()
    } else {
        reference_run(request, workspace, table, n - 1) + reference_words(
            request,
            workspace,
            table[n - 1],
            table.len() as int,
        )
    }
}

/// The reference section of a non-IDR picture.
pub open spec fn reference_section(
    request: H264DecodeRequest,
    workspace: AvdH264Workspace,
    table: Seq<AvdH264ReferencePicture>,
) -> Seq<u32> {
    seq![
        0x0402_0002u32,
        page_word(workspace.pps_tile_dma_addr + 0x20000),
        page_word(workspace.sps_tile_dma_addr as int),
        0x0007_0007,
        0x0007_0007,
        0x0007_0007,
        0x0007_0007,
    ] + reference_run(request, workspace, table, table.len() as int)
}

/// Start of the slice data on the device.
pub open spec fn slice_addr(request: H264DecodeRequest, slice: H264SliceParameters) -> int {
    request.input.dma_addr + slice.slice_data_offset
}

pub open spec fn header_remainder(request: H264DecodeRequest, slice: H264SliceParameters) -> u32 {
    if request.pps.entropy_coding_mode {
        0
    } else {
        ((slice.parsed_header_bits as u32) % 8) << 15
    }
}

pub open spec fn deblock_word(slice: H264SliceParameters) -> u32 {
    let head = 0x2da0_0000u32 | bit_if(17, slice.disable_deblocking_filter_idc == 0);
    if slice.disable_deblocking_filter_idc != 1 {
        head | (1u32 << 16) | (swrap(slice.slice_beta_offset_div2 as i32, 16) << 12) | (swrap(
            slice.slice_alpha_c0_offset_div2 as i32,
            16,
        ) << 8)
    } else {
        head
    }
}

pub open spec fn slice_qp(request: H264DecodeRequest, slice: H264SliceParameters) -> int {
    26 + request.pps.pic_init_qp_minus26 + slice.slice_qp_delta
}

/// The words that set up the slice.
pub open spec fn slice_setup_words(
    request: H264DecodeRequest,
    slice: H264SliceParameters,
    width: u32,
) -> Seq<u32> {
    let addr = slice_addr(request, slice) as u64;
    let mb_width = ((((width - 1) as u32) >> 4) + 1) as u32;
    seq![
        0x2d80_0000u32 | header_remainder(request, slice) | ((addr >> 32) as u32),
        addr as u32,
        slice.slice_data_len as u32,
        0x2c00_0000u32 | ((slice.first_mb_in_slice / mb_width) << 12) | (slice.first_mb_in_slice
            % mb_width),
        0x2d90_0000u32 | ((((slice_qp(request, slice) * 0x400) as i32) as u32) & 0x1fc00),
        deblock_word(slice),
    ]
}

/// The list-entry command of one reference index.
pub open spec fn list_word(second: bool, position: int, reference_index: u8) -> u32 {
    (if second {
        0x2dc0_0100u32
    } else {
        0x2dc0_0000u32
    }) | (((position as u32) & 0xf) << 4) | ((reference_index as u32) & 0xf)
}

/// The list-entry commands of one reference list.
pub open spec fn list_words(second: bool, list: Seq<u8>) -> Seq<u32> {
    Seq::new(list.len(), |i: int| list_word(second, i, list[i]))
}

/// Explicit weights are in effect for the slice.
pub open spec fn explicit_weights(
    pps: H264PictureParameters,
    kind: H264SliceKind,
) -> bool {
    (pps.weighted_pred && kind == H264SliceKind::P) || (pps.weighted_bipred_idc == 1 && kind
        == H264SliceKind::B)
}

pub open spec fn weight_denominators(request: H264DecodeRequest) -> u32 {
    if request.pps.weighted_bipred_idc == 2 {
        0x2d
    } else {
        (((request.pred_weights.luma_log2_weight_denom as u32) & 0x7) << 3) | ((
        request.pred_weights.chroma_log2_weight_denom as u32) & 0x7)
    }
}

/// The weight that stands for "one" under a denominator.
pub open spec fn default_weight(denom: u16) -> i16 {
    if denom < 16 {
        1i16 << denom
    } else {
        0
    }
}

pub open spec fn weight_word(kind: u32, list_index: int, index: int, weight: i16) -> u32 {
    0x2de0_0000u32 | (kind << 14) | ((list_index as u32) << 13) | ((index as u32) << 9) | ((
    weight as u16 as u32) & 0x1ff)
}

pub open spec fn offset_word(offset: i16) -> u32 {
    0x2df0_0000u32 | swrap(offset as i32, 0x10000)
}

/// Weight commands of one reference: luma and chroma, each left out where
/// everything is at its default.
pub open spec fn weights_of(
    weights: H264PredWeights,
    list_index: int,
    index: int,
) -> Seq<u32> {
    let f = weights.weight_factors@[list_index];
    let luma = default_weight(weights.luma_log2_weight_denom);
    let chroma = default_weight(weights.chroma_log2_weight_denom);
    (if f.luma_weight@[index] != luma || f.luma_offset@[index] != 0 {
        seq![
            weight_word(1, list_index, index, f.luma_weight@[index]),
            offset_word(f.luma_offset@[index]),
        ]
    } else {
        Seq::empty()
    }) + (if f.chroma_weight@[index]@[0] != chroma || f.chroma_offset@[index]@[0] != 0
        || f.chroma_weight@[index]@[1] != chroma || f.chroma_offset@[index]@[1] != 0 {
        seq![
            weight_word(2, list_index, index, f.chroma_weight@[index]@[0]),
            offset_word(f.chroma_offset@[index]@[0]),
            weight_word(3, list_index, index, f.chroma_weight@[index]@[1]),
            offset_word(f.chroma_offset@[index]@[1]),
        ]
    } else {
        Seq::empty()
    })
}

/// Weight commands of the first `n` references of a list.
pub open spec fn weights_run(weights: H264PredWeights, list_index: int, n: int) -> Seq<u32>
    decreases n,
{
    if n <= 0 {
        Seq::empty()
    } else {
        weights_run(weights, list_index, n - 1) + weights_of(weights, list_index, n - 1)
    }
}

/// The prediction weight section of a slice.
pub open spec fn weight_section(request: H264DecodeRequest, slice: H264SliceParameters) -> Seq<
    u32,
> {
    let explicit = explicit_weights(request.pps, slice.kind);
    seq![
        0x2dd0_0000u32 | bit_if(7, request.pps.weighted_bipred_idc == 2) | bit_if(6, explicit)
            | weight_denominators(request),
    ] + (if explicit {
        weights_run(request.pred_weights, 0, slice.num_ref_idx_l0_active_minus1 + 1)
    } else {
        Seq::empty()
    }) + (if explicit && slice.kind == H264SliceKind::B {
        weights_run(request.pred_weights, 1, slice.num_ref_idx_l1_active_minus1 + 1)
    } else {
        Seq::empty()
    })
}

/// The reference lists and weights of a P or B slice.
pub open spec fn prediction_section(
    request: H264DecodeRequest,
    slice: H264SliceParameters,
    list0: Seq<u8>,
    list1: Seq<u8>,
) -> Seq<u32> {
    if slice.kind == H264SliceKind::I {
        Seq::empty()
    } else {
        list_words(false, list0) + (if slice.kind == H264SliceKind::B {
            list_words(true, list1)
        } else {
            Seq::empty()
        }) + weight_section(request, slice)
    }
}

pub open spec fn ref_type_word(request: H264DecodeRequest, slice: H264SliceParameters) -> u32 {
    let cabac = if request.pps.entropy_coding_mode {
        (slice.cabac_init_idc as u32) << 5
    } else {
        0u32
    };
    let l0 = (slice.num_ref_idx_l0_active_minus1 as u32) << 11;
    match slice.kind {
        H264SliceKind::I => 0x2d02_0000u32,
        H264SliceKind::P => 0x2d01_0000u32 | cabac | l0,
        H264SliceKind::B => 0x2d04_0000u32 | cabac | ((slice.num_ref_idx_l1_active_minus1 as u32)
            << 7) | bit_if(15, !slice.direct_spatial_mv_pred) | l0,
    }
}

/// SPS tile of the co-located picture of a B slice: that of the first entry of
/// list 1, or the session's own where there is none.
pub open spec fn colocated_tile(
    request: H264DecodeRequest,
    workspace: AvdH264Workspace,
    list1: Seq<u8>,
    references: Seq<AvdH264ReferencePicture>,
) -> u64 {
    if list1.len() > 0 && list1[0] < 16 {
        match picture_of_entry(request.dpb@[list1[0] as int], references) {
            Some(reference) => reference.sps_tile_dma_addr,
            None => workspace.sps_tile_dma_addr,
        }
    } else {
        workspace.sps_tile_dma_addr
    }
}

/// The words that close the slice.
pub open spec fn slice_end_words(
    request: H264DecodeRequest,
    slice: H264SliceParameters,
    workspace: AvdH264Workspace,
    width: u32,
    height: u32,
    list1: Seq<u8>,
    references: Seq<AvdH264ReferencePicture>,
) -> Seq<u32> {
    (if slice.first_mb_in_slice == 0 {
        seq![
            0x2a00_0000u32,
            ((((height - 1) as u32) >> 4) << 12) | (((width - 1) as u32) >> 4),
        ]
    } else {
        Seq::empty()
    }) + seq![ref_type_word(request, slice)] + (if slice.kind == H264SliceKind::B {
        seq![
            page_word(colocated_tile(request, workspace, list1, references) as int),
        ]
    } else {
        Seq::empty()
    }) + seq![0x2b00_0400u32]
}

/// The whole instruction stream of a slice.
pub open spec fn instruction_words(
    request: H264DecodeRequest,
    stream: H264StreamParameters,
    slice: H264SliceParameters,
    workspace: AvdH264Workspace,
    references: Seq<AvdH264ReferencePicture>,
) -> Seq<u32> {
    let lists = reference_lists(slice, request.dpb@, request.current_poc, references);
    let list0 = narrowed(lists.0);
    let list1 = narrowed(lists.1);
    let width = effective_width(request, stream);
    let height = effective_height(request, stream);
    let table = references.take(at_most(references.len() as int, 16));
    header_words(request, stream, slice, workspace) + (if is_idr_slice(slice) {
        Seq::empty()
    } else {
        reference_section(request, workspace, table)
    }) + seq![0u32] + slice_setup_words(request, slice, width) + prediction_section(
        request,
        slice,
        list0,
        list1,
    ) + slice_end_words(request, slice, workspace, width, height, list1, references)
}

/// The inputs on which no address or index computation leaves its range.
pub open spec fn buildable(
    request: H264DecodeRequest,
    stream: H264StreamParameters,
    slice: H264SliceParameters,
    workspace: AvdH264Workspace,
    references: Seq<AvdH264ReferencePicture>,
) -> bool {
    &&& effective_width(request, stream) >= 1
    &&& effective_height(request, stream) >= 1
    &&& uv_addr(request) <= u64::MAX
    &&& slice_addr(request, slice) <= u64::MAX
    &&& workspace.pps_tile_dma_addr + 0x20000 <= u64::MAX
    &&& forall|k: int|
        0 <= k < 4 ==> workspace.reference_dma_addr + (
        #[trigger] workspace.reference_offsets@[k]) <= u64::MAX
    &&& !is_idr_slice(slice) ==> forall|i: int, k: int|
        0 <= i < at_most(references.len() as int, 16) && 0 <= k < 4 ==> (
        #[trigger] references[i]).reference_dma_addr + (
        #[trigger] workspace.reference_offsets@[k]) <= u64::MAX
    &&& explicit_weights(request.pps, slice.kind) ==> slice.num_ref_idx_l0_active_minus1 < 32
    &&& explicit_weights(request.pps, slice.kind) && slice.kind == H264SliceKind::B
        ==> slice.num_ref_idx_l1_active_minus1 < 32
}

fn push(words: &mut AvdH264InstructionStream, value: u32)
    requires
        old(words).wf(),
    ensures
        final(words).wf(),
        final(words).emitted() == old(words).emitted().push(value),
{
    words.push_word(value);
}

fn push_rvra(words: &mut AvdH264InstructionStream, base: u64, offsets: &[u32; 4])
    requires
        old(words).wf(),
        forall|k: int| 0 <= k < 4 ==> base + (#[trigger] offsets@[k]) <= u64::MAX,
    ensures
        final(words).wf(),
        final(words).emitted() == old(words).emitted() + rvra_words(base, offsets@),
{
    let ghost start = words.emitted();
    push(words, ((base + offsets[0] as u64) >> 7) as u32);
    push(words, ((base + offsets[1] as u64) >> 7) as u32);
    push(words, ((base + offsets[2] as u64) >> 7) as u32);
    push(words, ((base + offsets[3] as u64) >> 7) as u32);
    assert(words.emitted() =~= start + rvra_words(base, offsets@));
}

fn emit_picture(
    words: &mut AvdH264InstructionStream,
    request: &H264DecodeRequest,
    stream: &H264StreamParameters,
    slice: &H264SliceParameters,
)
    requires
        old(words).wf(),
        effective_width(*request, *stream) >= 1,
        effective_height(*request, *stream) >= 1,
    ensures
        final(words).wf(),
        final(words).emitted() == old(words).emitted() + picture_words(*request, *stream, *slice),
{
    let ghost start = words.emitted();
    let coded_width: u32 = max_u32(stream.coded_width, request.layout.width);
    let coded_height: u32 = max_u32(stream.coded_height, request.layout.height);
    let is_idr = slice.is_idr();
    push(words, 0x2b00_0100);
    push(
        words,
        if is_idr {
            0x2db0_32e0
        } else {
            0x2db0_12e0
        },
    );
    push(words, 0x0100_0000);
    push(words, (((coded_height - 1) & 0xffff) << 16) | ((coded_width - 1) & 0xffff));
    push(words, 0);
    push(words, (((coded_height - 1) >> 3) << 16) | ((coded_width - 1) >> 3));
    let sps_param: u32 = ((stream.chroma_format_idc & 3) << 24) | ((stream.bit_depth_luma_minus8
        & 15) << 19) | ((stream.bit_depth_chroma_minus8 & 15) << 15) | 0x2800 | bit(
        0,
        stream.direct_8x8_inference_flag,
    ) | bit(7, request.pps.transform_8x8_mode);
    push(words, sps_param);
    let flags: u32 = bit(20, request.pps.entropy_coding_mode) | bit(21, !is_idr) | bit(
        19,
        request.pps.constrained_intra_pred,
    );
    push(words, flags);
    push(
        words,
        (swrap_i8(request.pps.chroma_qp_index_offset, 32) << 5) | swrap_i8(
            request.pps.second_chroma_qp_index_offset,
            32,
        ),
    );
    assert(words.emitted() =~= start + picture_words(*request, *stream, *slice));
}

fn emit_tiles(words: &mut AvdH264InstructionStream, pps: u64)
    requires
        old(words).wf(),
        pps + 0x20000 <= u64::MAX,
    ensures
        final(words).wf(),
        final(words).emitted() == old(words).emitted() + tile_words(pps),
{
    let ghost start = words.emitted();
    push(words, 0x0030_000a);
    push(words, 0x0402_0002);
    push(words, 0x0002_0002);
    push(words, 0);
    push(words, (pps >> 8) as u32);
    push(words, 0x0402_0002);
    push(words, 0x0402_0002);
    push(words, 0);
    push(words, ((pps + 0x8000) >> 8) as u32);
    push(words, ((pps + 0x10000) >> 8) as u32);
    push(words, ((pps + 0x18000) >> 8) as u32);
    push(words, 0x0007_0007);
    assert(words.emitted() =~= start + tile_words(pps));
}

fn emit_output(
    words: &mut AvdH264InstructionStream,
    request: &H264DecodeRequest,
    stream: &H264StreamParameters,
)
    requires
        old(words).wf(),
        effective_width(*request, *stream) >= 1,
        effective_height(*request, *stream) >= 1,
        uv_addr(*request) <= u64::MAX,
    ensures
        final(words).wf(),
        final(words).emitted() == old(words).emitted() + output_words(*request, *stream),
{
    let ghost start = words.emitted();
    let coded_width: u32 = max_u32(stream.coded_width, request.layout.width);
    let coded_height: u32 = max_u32(stream.coded_height, request.layout.height);
    let y_addr: u64 = request.output.dma_addr;
    assert(0 <= request.layout.y_stride * request.layout.height <= 0xffff_ffff * 0xffff_ffff)
        by (nonlinear_arith)
        requires
            0 <= request.layout.y_stride <= 0xffff_ffff,
            0 <= request.layout.height <= 0xffff_ffff,
    ;
    let uv: u64 = y_addr + request.layout.y_stride as u64 * request.layout.height as u64;
    push(words, (y_addr >> 8) as u32);
    push(words, request.layout.y_stride >> 4);
    push(words, (uv >> 8) as u32);
    push(words, request.layout.uv_stride >> 4);
    push(words, 0);
    push(words, (((coded_height - 1) & 0xffff) << 16) | ((coded_width - 1) & 0xffff));
    assert(words.emitted() =~= start + output_words(*request, *stream));
}

fn emit_header(
    words: &mut AvdH264InstructionStream,
    request: &H264DecodeRequest,
    stream: &H264StreamParameters,
    slice: &H264SliceParameters,
    workspace: &AvdH264Workspace,
)
    requires
        old(words).wf(),
        effective_width(*request, *stream) >= 1,
        effective_height(*request, *stream) >= 1,
        uv_addr(*request) <= u64::MAX,
        workspace.pps_tile_dma_addr + 0x20000 <= u64::MAX,
        forall|k: int|
            0 <= k < 4 ==> workspace.reference_dma_addr + (
            #[trigger] workspace.reference_offsets@[k]) <= u64::MAX,
    ensures
        final(words).wf(),
        final(words).emitted() == old(words).emitted() + header_words(
            *request,
            *stream,
            *slice,
            *workspace,
        ),
{
    let ghost start = words.emitted();
    emit_picture(words, request, stream, slice);
    emit_tiles(words, workspace.pps_tile_dma_addr);
    push_rvra(words, workspace.reference_dma_addr, &workspace.reference_offsets);
    emit_output(words, request, stream);
    assert(words.emitted() =~= start + header_words(*request, *stream, *slice, *workspace));
}

fn stream_refs(
    words: &mut AvdH264InstructionStream,
    request: &H264DecodeRequest,
    workspace: &AvdH264Workspace,
    references: &[AvdH264ReferencePicture],
)
    requires
        old(words).wf(),
        references@.len() <= 16,
        workspace.pps_tile_dma_addr + 0x20000 <= u64::MAX,
        forall|i: int, k: int|
            0 <= i < references@.len() && 0 <= k < 4 ==> (
            #[trigger] references@[i]).reference_dma_addr + (
            #[trigger] workspace.reference_offsets@[k]) <= u64::MAX,
    ensures
        final(words).wf(),
        final(words).emitted() == old(words).emitted() + reference_section(
            *request,
            *workspace,
            references@,
        ),
{
    let ghost start = words.emitted();
    push(words, 0x0402_0002);
    push(words, ((workspace.pps_tile_dma_addr + 0x20000) >> 8) as u32);
    push(words, (workspace.sps_tile_dma_addr >> 8) as u32);
    push(words, 0x0007_0007);
    push(words, 0x0007_0007);
    push(words, 0x0007_0007);
    push(words, 0x0007_0007);
    let ghost head = words.emitted();
    let count: usize = references.len();
    let mut n: usize = 0;
    while n < count
        invariant
            n <= count <= 16,
            count == references@.len(),
            words.wf(),
            words.emitted() == head + reference_run(*request, *workspace, references@, n as int),
            forall|i: int, k: int|
                0 <= i < references@.len() && 0 <= k < 4 ==> (
                #[trigger] references@[i]).reference_dma_addr + (
                #[trigger] workspace.reference_offsets@[k]) <= u64::MAX,
        decreases count - n,
    {
        let reference = references[n];
        let ghost before = words.emitted();
        let poc_delta: i32 = request.current_poc.wrapping_sub(reference.top_field_order_cnt);
        assert(poc_delta == wrapping_difference(
            request.current_poc,
            reference.top_field_order_cnt,
        ));
        push(
            words,
            (((count as u32 - 1) & 0xf) << 28) | 0x0100_0000 | bit(17, reference.long_term)
                | swrap_i32(poc_delta, 0x2_0000),
        );
        push_rvra(words, reference.reference_dma_addr, &workspace.reference_offsets);
        proof {
            let more = reference_words(*request, *workspace, references@[n as int], count as int);
            assert(words.emitted() =~= before + more);
            assert(head + reference_run(*request, *workspace, references@, n as int) + more =~= head
                + (reference_run(*request, *workspace, references@, n as int) + more));
        }
        n = n + 1;
    }
    assert(words.emitted() =~= start + reference_section(*request, *workspace, references@));
}

fn default_weight_for(denom: u16) -> (r: i16)
    ensures
        r == default_weight(denom),
{
    if denom < 16 {
        1i16 << denom
    } else {
        0
    }
}

fn push_weights_of(
    words: &mut AvdH264InstructionStream,
    weights: &H264PredWeights,
    list_index: usize,
    index: usize,
)
    requires
        old(words).wf(),
        list_index < 2,
        index < 32,
    ensures
        final(words).wf(),
        final(words).emitted() == old(words).emitted() + weights_of(
            *weights,
            list_index as int,
            index as int,
        ),
{
    let ghost start = words.emitted();
    let factors: &H264WeightFactors = &weights.weight_factors[list_index];
    let default_luma_weight: i16 = default_weight_for(weights.luma_log2_weight_denom);
    let default_chroma_weight: i16 = default_weight_for(weights.chroma_log2_weight_denom);
    let luma_weight: i16 = factors.luma_weight[index];
    let luma_offset: i16 = factors.luma_offset[index];
    let chroma_weight0: i16 = factors.chroma_weight[index][0];
    let chroma_weight1: i16 = factors.chroma_weight[index][1];
    let chroma_offset0: i16 = factors.chroma_offset[index][0];
    let chroma_offset1: i16 = factors.chroma_offset[index][1];
    let list_bit: u32 = (list_index as u32) << 13;
    let ref_bits: u32 = (index as u32) << 9;
    if luma_weight != default_luma_weight || luma_offset != 0 {
        push(
            words,
            0x2de0_0000 | (1u32 << 14) | list_bit | ref_bits | ((luma_weight as u16 as u32)
                & 0x1ff),
        );
        push(words, 0x2df0_0000 | swrap_i32(luma_offset as i32, 0x10000));
    }
    let ghost mid = words.emitted();
    if chroma_weight0 != default_chroma_weight || chroma_offset0 != 0 || chroma_weight1
        != default_chroma_weight || chroma_offset1 != 0 {
        push(
            words,
            0x2de0_0000 | (2u32 << 14) | list_bit | ref_bits | ((chroma_weight0 as u16 as u32)
                & 0x1ff),
        );
        push(words, 0x2df0_0000 | swrap_i32(chroma_offset0 as i32, 0x10000));
        push(
            words,
            0x2de0_0000 | (3u32 << 14) | list_bit | ref_bits | ((chroma_weight1 as u16 as u32)
                & 0x1ff),
        );
        push(words, 0x2df0_0000 | swrap_i32(chroma_offset1 as i32, 0x10000));
    }
    assert(words.emitted() =~= start + weights_of(*weights, list_index as int, index as int));
}

fn stream_weight_list(
    words: &mut AvdH264InstructionStream,
    weights: &H264PredWeights,
    list_index: usize,
    active_minus1: u8,
)
    requires
        old(words).wf(),
        list_index < 2,
        active_minus1 < 32,
    ensures
        final(words).wf(),
        final(words).emitted() == old(words).emitted() + weights_run(
            *weights,
            list_index as int,
            active_minus1 + 1,
        ),
{
    let ghost start = words.emitted();
    let count: usize = active_minus1 as usize + 1;
    let mut index: usize = 0;
    assert(words.emitted() =~= start + weights_run(*weights, list_index as int, 0));
    while index < count
        invariant
            index <= count <= 32,
            list_index < 2,
            words.wf(),
            words.emitted() == start + weights_run(*weights, list_index as int, index as int),
        decreases count - index,
    {
        push_weights_of(words, weights, list_index, index);
        assert(words.emitted() =~= start + weights_run(*weights, list_index as int, index + 1));
        index = index + 1;
    }
}

fn stream_weights(
    words: &mut AvdH264InstructionStream,
    request: &H264DecodeRequest,
    slice: &H264SliceParameters,
)
    requires
        old(words).wf(),
        explicit_weights(request.pps, slice.kind) ==> slice.num_ref_idx_l0_active_minus1 < 32,
        explicit_weights(request.pps, slice.kind) && slice.kind == H264SliceKind::B
            ==> slice.num_ref_idx_l1_active_minus1 < 32,
    ensures
        final(words).wf(),
        final(words).emitted() == old(words).emitted() + weight_section(*request, *slice),
{
    let ghost start = words.emitted();
    let is_b = matches!(slice.kind, H264SliceKind::B);
    let pred_weight = (request.pps.weighted_pred && matches!(slice.kind, H264SliceKind::P)) || (
    request.pps.weighted_bipred_idc == 1 && is_b);
    let denom: u32 = if request.pps.weighted_bipred_idc == 2 {
        0x2d
    } else {
        (((request.pred_weights.luma_log2_weight_denom as u32) & 0x7) << 3) | ((
        request.pred_weights.chroma_log2_weight_denom as u32) & 0x7)
    };
    push(
        words,
        0x2dd0_0000 | bit(7, request.pps.weighted_bipred_idc == 2) | bit(6, pred_weight) | denom,
    );
    if pred_weight {
        stream_weight_list(words, &request.pred_weights, 0, slice.num_ref_idx_l0_active_minus1);
        if is_b {
            stream_weight_list(
                words,
                &request.pred_weights,
                1,
                slice.num_ref_idx_l1_active_minus1,
            );
        }
    }
    assert(words.emitted() =~= start + weight_section(*request, *slice));
}

fn push_list(words: &mut AvdH264InstructionStream, second: bool, list: &[u8])
    requires
        old(words).wf(),
        list@.len() <= 0xffff_ffff,
    ensures
        final(words).wf(),
        final(words).emitted() == old(words).emitted() + list_words(second, list@),
{
    let ghost start = words.emitted();
    let mut index: usize = 0;
    while index < list.len()
        invariant
            index <= list@.len() <= 0xffff_ffff,
            words.wf(),
            words.emitted() == start + list_words(second, list@).take(index as int),
        decreases list@.len() - index,
    {
        let command: u32 = if second {
            0x2dc0_0100
        } else {
            0x2dc0_0000
        };
        push(words, command | (((index as u32) & 0xf) << 4) | ((list[index] as u32) & 0xf));
        assert(words.emitted() =~= start + list_words(second, list@).take(index + 1));
        index = index + 1;
    }
    assert(list_words(second, list@).take(list@.len() as int) =~= list_words(second, list@));
}

fn emit_slice_setup(
    words: &mut AvdH264InstructionStream,
    request: &H264DecodeRequest,
    slice: &H264SliceParameters,
    coded_width: u32,
)
    requires
        old(words).wf(),
        coded_width >= 1,
        slice_addr(*request, *slice) <= u64::MAX,
    ensures
        final(words).wf(),
        final(words).emitted() == old(words).emitted() + slice_setup_words(
            *request,
            *slice,
            coded_width,
        ),
{
    let ghost start = words.emitted();
    let remainder: u32 = if request.pps.entropy_coding_mode {
        0
    } else {
        ((slice.parsed_header_bits as u32) % 8) << 15
    };
    let addr: u64 = request.input.dma_addr + slice.slice_data_offset as u64;
    push(words, 0x2d80_0000 | remainder | ((addr >> 32) as u32));
    push(words, addr as u32);
    push(words, slice.slice_data_len as u32);
    let columns: u32 = coded_width - 1;
    assert(columns >> 4 <= 0x0fff_ffff) by (bit_vector);
    let mb_width: u32 = (columns >> 4) + 1;
    push(
        words,
        0x2c00_0000 | ((slice.first_mb_in_slice / mb_width) << 12) | (slice.first_mb_in_slice
            % mb_width),
    );
    let qp: i32 = 26 + request.pps.pic_init_qp_minus26 as i32 + slice.slice_qp_delta as i32;
    push(words, 0x2d90_0000 | (((qp * 0x400) as u32) & 0x1fc00));
    let mut deblock: u32 = 0x2da0_0000 | bit(17, slice.disable_deblocking_filter_idc == 0);
    if slice.disable_deblocking_filter_idc != 1 {
        deblock = deblock | (1u32 << 16) | (swrap_i8(slice.slice_beta_offset_div2, 16) << 12) | (
        swrap_i8(slice.slice_alpha_c0_offset_div2, 16) << 8);
    }
    push(words, deblock);
    assert(words.emitted() =~= start + slice_setup_words(*request, *slice, coded_width));
}

fn emit_slice_end(
    words: &mut AvdH264InstructionStream,
    request: &H264DecodeRequest,
    slice: &H264SliceParameters,
    workspace: &AvdH264Workspace,
    coded_width: u32,
    coded_height: u32,
    list1: &[u8],
    references: &[AvdH264ReferencePicture],
)
    requires
        old(words).wf(),
        coded_width >= 1,
        coded_height >= 1,
    ensures
        final(words).wf(),
        final(words).emitted() == old(words).emitted() + slice_end_words(
            *request,
            *slice,
            *workspace,
            coded_width,
            coded_height,
            list1@,
            references@,
        ),
{
    let ghost start = words.emitted();
    if slice.first_mb_in_slice == 0 {
        push(words, 0x2a00_0000);
        push(words, (((coded_height - 1) >> 4) << 12) | ((coded_width - 1) >> 4));
    }
    let cabac: u32 = if request.pps.entropy_coding_mode {
        (slice.cabac_init_idc as u32) << 5
    } else {
        0
    };
    let l0: u32 = (slice.num_ref_idx_l0_active_minus1 as u32) << 11;
    let ref_type: u32 = match slice.kind {
        H264SliceKind::I => 0x2d02_0000,
        H264SliceKind::P => 0x2d01_0000 | cabac | l0,
        H264SliceKind::B => 0x2d04_0000 | cabac | ((slice.num_ref_idx_l1_active_minus1 as u32)
            << 7) | bit(15, !slice.direct_spatial_mv_pred) | l0,
    };
    push(words, ref_type);
    if matches!(slice.kind, H264SliceKind::B) {
        let mut tile: u64 = workspace.sps_tile_dma_addr;
        if list1.len() > 0 && list1[0] < 16 {
            let entry = request.dpb[list1[0] as usize];
            if let Some(reference) = reference_picture_for_dpb_entry(&entry, references) {
                tile = reference.sps_tile_dma_addr;
            }
        }
        push(words, (tile >> 8) as u32);
    }
    push(words, 0x2b00_0400);
    assert(words.emitted() =~= start + slice_end_words(
        *request,
        *slice,
        *workspace,
        coded_width,
        coded_height,
        list1@,
        references@,
    ));
}

impl AvdH264InstructionStream {
    /// Generate the AVD H.264 instruction stream of a slice.
    pub fn build(
        request: &H264DecodeRequest,
        stream: &H264StreamParameters,
        slice: &H264SliceParameters,
        workspace: &AvdH264Workspace,
        references: &[AvdH264ReferencePicture],
    ) -> (r: Self)
        requires
            buildable(*request, *stream, *slice, *workspace, references@),
        ensures
            r.wf(),
            r.emitted() == instruction_words(*request, *stream, *slice, *workspace, references@),
    {
        let mut words = Self::new();
        let plan = ReferencePlan::build(&request.dpb, request.current_poc, slice, references);
        let coded_width: u32 = max_u32(stream.coded_width, request.layout.width);
        let coded_height: u32 = max_u32(stream.coded_height, request.layout.height);
        emit_header(&mut words, request, stream, slice, workspace);
        assert(words.emitted() =~= header_words(*request, *stream, *slice, *workspace));
        if !slice.is_idr() {
            stream_refs(&mut words, request, workspace, plan.table());
        }
        push(&mut words, 0);
        emit_slice_setup(&mut words, request, slice, coded_width);
        let ghost before = words.emitted();
        if !matches!(slice.kind, H264SliceKind::I) {
            proof {
                lists_are_short(*slice, request.dpb@, request.current_poc, references@);
            }
            push_list(&mut words, false, plan.list0());
            if matches!(slice.kind, H264SliceKind::B) {
                push_list(&mut words, true, plan.list1());
            }
            stream_weights(&mut words, request, slice);
        }
        assert(words.emitted() =~= before + prediction_section(
            *request,
            *slice,
            plan.list0_view(),
            plan.list1_view(),
        ));
        emit_slice_end(
            &mut words,
            request,
            slice,
            workspace,
            coded_width,
            coded_height,
            plan.list1(),
            references,
        );
        assert(words.emitted() =~= instruction_words(
            *request,
            *stream,
            *slice,
            *workspace,
            references@,
        ));
        words
    }
}

/// Whether no address or index computation of a stream leaves its range.
pub fn can_build(
    request: &H264DecodeRequest,
    stream: &H264StreamParameters,
    slice: &H264SliceParameters,
    workspace: &AvdH264Workspace,
    references: &[AvdH264ReferencePicture],
) -> (r: bool)
    ensures
        r == buildable(*request, *stream, *slice, *workspace, references@),
{
    if max_u32(stream.coded_width, request.layout.width) < 1 || max_u32(
        stream.coded_height,
        request.layout.height,
    ) < 1 {
        return false;
    }
    assert(0 <= request.layout.y_stride * request.layout.height <= 0xffff_ffff * 0xffff_ffff)
        by (nonlinear_arith)
        requires
            0 <= request.layout.y_stride <= 0xffff_ffff,
            0 <= request.layout.height <= 0xffff_ffff,
    ;
    let plane: u64 = request.layout.y_stride as u64 * request.layout.height as u64;
    if request.output.dma_addr > u64::MAX - plane {
        return false;
    }
    if request.input.dma_addr > u64::MAX - slice.slice_data_offset as u64 {
        return false;
    }
    if workspace.pps_tile_dma_addr > u64::MAX - 0x20000 {
        return false;
    }
    let mut k: usize = 0;
    while k < 4
        invariant
            k <= 4,
            forall|j: int|
                0 <= j < k ==> workspace.reference_dma_addr + (
                #[trigger] workspace.reference_offsets@[j]) <= u64::MAX,
        decreases 4 - k,
    {
        if workspace.reference_dma_addr > u64::MAX - workspace.reference_offsets[k] as u64 {
            assert(workspace.reference_dma_addr + workspace.reference_offsets@[k as int]
                > u64::MAX);
            return false;
        }
        k = k + 1;
    }
    if !slice.is_idr() && !references_in_range(workspace, references) {
        return false;
    }
    let weighted = (request.pps.weighted_pred && matches!(slice.kind, H264SliceKind::P)) || (
    request.pps.weighted_bipred_idc == 1 && matches!(slice.kind, H264SliceKind::B));
    if weighted && slice.num_ref_idx_l0_active_minus1 >= 32 {
        return false;
    }
    if weighted && matches!(slice.kind, H264SliceKind::B) && slice.num_ref_idx_l1_active_minus1
        >= 32 {
        return false;
    }
    true
}

fn references_in_range(workspace: &AvdH264Workspace, references: &[AvdH264ReferencePicture]) -> (r:
    bool)
    ensures
        r == (forall|i: int, k: int|
            0 <= i < at_most(references@.len() as int, 16) && 0 <= k < 4 ==> (
            #[trigger] references@[i]).reference_dma_addr + (
            #[trigger] workspace.reference_offsets@[k]) <= u64::MAX),
{
    let mut i: usize = 0;
    while i < references.len() && i < 16
        invariant
            i <= references@.len(),
            i <= 16,
            forall|j: int, k: int|
                0 <= j < i && 0 <= k < 4 ==> (#[trigger] references@[j]).reference_dma_addr + (
                #[trigger] workspace.reference_offsets@[k]) <= u64::MAX,
        decreases references@.len() - i,
    {
        let addr: u64 = references[i].reference_dma_addr;
        let mut k: usize = 0;
        while k < 4
            invariant
                k <= 4,
                i < references@.len(),
                i < 16,
                addr == references@[i as int].reference_dma_addr,
                forall|j: int|
                    0 <= j < k ==> addr + (#[trigger] workspace.reference_offsets@[j]) <= u64::MAX,
            decreases 4 - k,
        {
            if addr > u64::MAX - workspace.reference_offsets[k] as u64 {
                assert(references@[i as int].reference_dma_addr
                    + workspace.reference_offsets@[k as int] > u64::MAX);
                return false;
            }
            k = k + 1;
        }
        i = i + 1;
    }
    true
}

/// Neither reference list of a slice has more than 32 entries.
pub proof fn lists_are_short(
    slice: H264SliceParameters,
    dpb: Seq<H264DpbEntry>,
    current_poc: i32,
    refs: Seq<AvdH264ReferencePicture>,
)
    ensures
        reference_lists(slice, dpb, current_poc, refs).0.len() <= 32,
        reference_lists(slice, dpb, current_poc, refs).1.len() <= 32,
{
    crate::avd::h264_refs::valid_slots_in_range(
        slice.ref_pic_list0@,
        at_most(slice.num_ref_idx_l0_active_minus1 + 1, 32),
        dpb,
    );
    crate::avd::h264_refs::valid_slots_in_range(
        slice.ref_pic_list1@,
        at_most(slice.num_ref_idx_l1_active_minus1 + 1, 32),
        dpb,
    );
}


pub proof fn reference_run_len(
    request: H264DecodeRequest,
    workspace: AvdH264Workspace,
    table: Seq<AvdH264ReferencePicture>,
    n: int,
)
    requires
        n >= 0,
    ensures
        reference_run(request, workspace, table, n).len() == 5 * n,
    decreases n,
{
    if n > 0 {
        reference_run_len(request, workspace, table, n - 1);
    }
}

proof fn weights_run_len(weights: H264PredWeights, list_index: int, n: int)
    requires
        n >= 0,
    ensures
        weights_run(weights, list_index, n).len() <= 6 * n,
    decreases n,
{
    if n > 0 {
        weights_run_len(weights, list_index, n - 1);
    }
}

/// The instruction stream of a slice never exceeds its capacity of 1024
/// words, starts with the command that opens the instruction FIFO and ends
/// with the one that closes it.
pub proof fn instruction_stream_fits(
    request: H264DecodeRequest,
    stream: H264StreamParameters,
    slice: H264SliceParameters,
    workspace: AvdH264Workspace,
    references: Seq<AvdH264ReferencePicture>,
)
    requires
        buildable(request, stream, slice, workspace, references),
    ensures
        instruction_words(request, stream, slice, workspace, references).len()
            <= AVD_H264_MAX_INSTRUCTION_WORDS,
        instruction_words(request, stream, slice, workspace, references).first() == 0x2b00_0100u32,
        instruction_words(request, stream, slice, workspace, references).last() == 0x2b00_0400u32,
{
    lists_are_short(slice, request.dpb@, request.current_poc, references);
    let table = references.take(at_most(references.len() as int, 16));
    reference_run_len(request, workspace, table, table.len() as int);
    if explicit_weights(request.pps, slice.kind) {
        weights_run_len(request.pred_weights, 0, slice.num_ref_idx_l0_active_minus1 + 1);
        if slice.kind == H264SliceKind::B {
            weights_run_len(request.pred_weights, 1, slice.num_ref_idx_l1_active_minus1 + 1);
        }
    }
}

} // verus!
