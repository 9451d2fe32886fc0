//! Lowering of stateless H.264 requests to AVD instruction words.

use crate::arith::{
    align_up_u32, align_up_usize, aligned_up, aligned_up_is_least_multiple, max_u32, next_power, next_power_bounds, next_power_of_two,
};
use crate::avd::common::PixelFormat;
use vstd::prelude::*;

verus! {

pub const AVD_H264_MAX_INSTRUCTION_WORDS: usize = 1024;

pub const AVD_H264_MAX_REFERENCES: usize = 16;

pub const H264_MAX_REF_LIST_ENTRIES: usize = 32;

/// H.264 stateless request lowering error.
#[derive(Clone, Copy, Debug, PartialEq, Eq, Structural)]
pub enum H264FrontendError {
    /// Request dimensions are not valid.
    InvalidDimensions,
    /// Stream uses an H.264 feature this AVD path does not accept.
    UnsupportedSps,
    /// Slice header metadata could not be parsed.
    MalformedSlice,
    /// Slice payload range does not fit inside the submitted input buffer.
    InvalidSliceRange,
    /// Generated AVD instruction stream exceeded its destination buffer.
    InstructionStreamTooLarge,
}

/// H.264 NAL unit type.
#[derive(Clone, Copy, Debug, PartialEq, Eq, Structural)]
pub enum H264NalUnitType {
    /// Coded slice of a non-IDR picture.
    Slice,
    /// Coded slice of an IDR picture.
    IdrSlice,
}

/// H.264 decode request flags.
#[derive(Clone, Copy, Debug, PartialEq, Eq, Structural)]
pub struct H264DecodeFlags(u32);

impl H264DecodeFlags {
    /// The raw flag bits.
    pub closed spec fn raw(self) -> u32 {
        self.0
    }

    /// Request contains an IDR picture.
    pub fn idr() -> (r: Self)
        ensures
            r.raw() == 1,
    {
        H264DecodeFlags(1)
    }

    /// Request carries SPS/PPS NAL units.
    pub fn parameter_sets() -> (r: Self)
        ensures
            r.raw() == 2,
    {
        H264DecodeFlags(2)
    }

    /// Request should be treated as end of stream.
    pub fn end_of_stream() -> (r: Self)
        ensures
            r.raw() == 4,
    {
        H264DecodeFlags(4)
    }

    /// Empty flag set.
    pub fn empty() -> (r: Self)
        ensures
            r.raw() == 0,
    {
        H264DecodeFlags(0)
    }

    /// Return the raw flag bits.
    pub fn bits(self) -> (r: u32)
        ensures
            r == self.raw(),
    {
        self.0
    }

    /// Return whether all bits in `other` are present.
    pub fn contains(self, other: Self) -> (r: bool)
        ensures
            r == (self.raw() & other.raw() == other.raw()),
    {
        (self.0 & other.0) == other.0
    }

    /// Add flags to this set.
    pub fn insert(&mut self, other: Self)
        ensures
            final(self).raw() == old(self).raw() | other.raw(),
    {
        self.0 = self.0 | other.0;
    }
}

/// After an insert, the inserted flags and all earlier ones are contained.
pub proof fn inserted_flags_are_contained(before: u32, other: u32)
    ensures
        (before | other) & other == other,
        (before | other) & before == before,
{
    assert((before | other) & other == other && (before | other) & before == before)
        by (bit_vector);
}

/// Decoded NV12 frame layout expected from Apple AVD.
#[derive(Clone, Copy, Debug, PartialEq, Eq, Structural)]
pub struct AvdFrameLayout {
    /// Frame width in pixels.
    pub width: u32,
    /// Frame height in pixels.
    pub height: u32,
    /// Luma plane stride in bytes.
    pub y_stride: u32,
    /// Interleaved UV plane stride in bytes.
    pub uv_stride: u32,
    /// Pixel format; currently NV12.
    pub pixel_format: PixelFormat,
}

/// Bytes of the luma section of the RVRA scratch area.
pub open spec fn rvra_luma(width: int, height: int) -> int {
    width * aligned_up(height, 32) + (width * aligned_up(height, 32)) / 4
}

/// Bytes of the metadata section of the RVRA scratch area.
pub open spec fn rvra_meta(width: int, height: int) -> int {
    let m = (next_power(width) * next_power(height)) / 32;
    if m >= 0x100 {
        m
    } else {
        0x100
    }
}

/// Extra RVRA bytes the decoder wants for wide frames.
pub open spec fn rvra_slack(width: int) -> int {
    if width < 1000 {
        0
    } else if width < 1800 {
        0x8000
    } else if width < 3800 {
        0xc000
    } else {
        0x24000
    }
}

impl AvdFrameLayout {
    /// Bytes of both planes.
    pub open spec fn output_bytes(self) -> int {
        self.y_stride * self.height + self.uv_stride * (self.height / 2)
    }

    /// End of the chroma section of the RVRA scratch area.
    pub open spec fn rvra_end(self) -> int {
        rvra_luma(self.width as int, self.height as int) + rvra_meta(
            self.width as int,
            self.height as int,
        ) + rvra_luma(self.width as int, self.height as int) / 2
    }

    /// The scratch offsets of this layout fit 32-bit arithmetic.
    pub open spec fn rvra_fits(self) -> bool {
        &&& self.width <= 0x8000_0000
        &&& self.height <= 0x8000_0000
        &&& next_power(self.width as int) * next_power(self.height as int) <= u32::MAX
        &&& self.rvra_end() <= u32::MAX
    }

    /// Construct an NV12 frame layout.
    pub fn nv12(width: u32, height: u32, y_stride: u32, uv_stride: u32) -> (r: Self)
        ensures
            r == (AvdFrameLayout {
                width,
                height,
                y_stride,
                uv_stride,
                pixel_format: PixelFormat::Nv12,
            }),
    {
        AvdFrameLayout { width, height, y_stride, uv_stride, pixel_format: PixelFormat::Nv12 }
    }

    /// Return the minimum output buffer size for this frame.
    pub fn output_len(&self) -> (r: usize)
        requires
            self.output_bytes() <= usize::MAX,
        ensures
            r == self.output_bytes(),
    {
        assert(0 <= self.y_stride * self.height) by (nonlinear_arith);
        assert(0 <= self.uv_stride * (self.height / 2)) by (nonlinear_arith);
        let y: usize = self.y_stride as usize * self.height as usize;
        let uv: usize = self.uv_stride as usize * (self.height as usize / 2);
        y + uv
    }

    /// Whether the scratch offsets of this layout fit 32-bit arithmetic.
    pub fn check_rvra(&self) -> (r: bool)
        ensures
            r == self.rvra_fits(),
    {
        if self.width > 0x8000_0000 || self.height > 0x8000_0000 {
            return false;
        }
        let ghost w = self.width as int;
        let ghost ah = aligned_up(self.height as int, 32);
        let ghost a = next_power(self.width as int);
        let ghost b = next_power(self.height as int);
        proof {
            aligned_up_is_least_multiple(self.height as int, 32);
            next_power_positive(self.width as int);
            next_power_positive(self.height as int);
            assert(0 <= w * ah <= 0x8000_0000 * 0x8000_001f) by (nonlinear_arith)
                requires
                    0 <= w <= 0x8000_0000,
                    0 <= ah <= 0x8000_001f,
            ;
        }
        let height: u32 = align_up_u32(self.height, 32);
        let area: u64 = self.width as u64 * height as u64;
        let pa: u32 = next_power_of_two(self.width);
        let pb: u32 = next_power_of_two(self.height);
        assert(0 <= a * b <= 0xffff_ffff * 0xffff_ffff) by (nonlinear_arith)
            requires
                1 <= a <= 0xffff_ffff,
                1 <= b <= 0xffff_ffff,
        ;
        let cells: u64 = pa as u64 * pb as u64;
        if cells > 0xffff_ffff || area > 0xffff_ffff {
            return false;
        }
        let luma: u64 = area + area / 4;
        let meta: u64 = if cells / 32 >= 0x100 {
            cells / 32
        } else {
            0x100
        };
        luma + meta + luma / 2 <= 0xffff_ffff
    }

    /// Return the AVD RVRA scratch offsets for this frame layout.
    pub fn rvra_offsets(&self) -> (r: [u32; 4])
        requires
            self.rvra_fits(),
        ensures
            r@ == seq![
                rvra_luma(self.width as int, self.height as int) as u32,
                0u32,
                self.rvra_end() as u32,
                (rvra_luma(self.width as int, self.height as int) + rvra_meta(
                    self.width as int,
                    self.height as int,
                )) as u32,
            ],
    {
        proof {
            aligned_up_is_least_multiple(self.height as int, 32);
            let w = self.width as int;
            let ah = aligned_up(self.height as int, 32);
            assert(0 <= w * ah) by (nonlinear_arith)
                requires
                    0 <= w,
                    0 <= ah,
            ;
            let a = next_power(self.width as int);
            let b = next_power(self.height as int);
            next_power_positive(self.width as int);
            next_power_positive(self.height as int);
            assert(a <= a * b && b <= a * b) by (nonlinear_arith)
                requires
                    a >= 1,
                    b >= 1,
            ;
        }
        let height: u32 = align_up_u32(self.height, 32);
        let area: u32 = self.width * height;
        let size0: u32 = area + area / 4;
        let cells: u32 = next_power_of_two(self.width) * next_power_of_two(self.height) / 32;
        let size1: u32 = max_u32(cells, 0x100);
        let size2: u32 = size0 / 2;
        let offsets = [size0, 0u32, size0 + size1 + size2, size0 + size1];
        assert(offsets@ =~= seq![
            rvra_luma(self.width as int, self.height as int) as u32,
            0u32,
            self.rvra_end() as u32,
            (rvra_luma(self.width as int, self.height as int) + rvra_meta(
                self.width as int,
                self.height as int,
            )) as u32,
        ]);
        offsets
    }

    /// Return the AVD RVRA scratch size for this frame layout.
    pub fn rvra_len(&self) -> (r: usize)
        requires
            self.rvra_fits(),
            self.rvra_end() + 10 * 0x4000 <= usize::MAX,
        ensures
            r == aligned_up(self.rvra_end(), 0x4000) + rvra_slack(self.width as int),
    {
        let offsets = self.rvra_offsets();
        proof {
            assert(offsets@[2] == self.rvra_end() as u32);
            next_power_positive(self.width as int);
            aligned_up_is_least_multiple(self.height as int, 32);
            let w = self.width as int;
            let ah = aligned_up(self.height as int, 32);
            assert(0 <= w * ah) by (nonlinear_arith)
                requires
                    0 <= w,
                    0 <= ah,
            ;
            aligned_up_is_least_multiple(self.rvra_end(), 0x4000);
        }
        let size: usize = offsets[2] as usize;
        let aligned: usize = align_up_usize(size, 0x4000);
        let slack: usize = if self.width < 1000 {
            0
        } else if self.width < 1800 {
            2 * 0x4000
        } else if self.width < 3800 {
            3 * 0x4000
        } else {
            9 * 0x4000
        };
        aligned + slack
    }

    /// Return the AVD SPS scratch size for this frame layout.
    pub fn sps_scratch_len(&self) -> (r: usize)
        requires
            self.width >= 1,
            self.height >= 1,
            (self.width - 1) * (self.height - 1) <= usize::MAX,
            (((self.width - 1) * (self.height - 1)) / 0x10000 + 2) * 0x4000 <= usize::MAX,
        ensures
            r == (((self.width - 1) * (self.height - 1)) / 0x10000 + 2) * 0x4000,
    {
        assert(0 <= (self.width - 1) * (self.height - 1)) by (nonlinear_arith)
            requires
                self.width >= 1,
                self.height >= 1,
        ;
        let area: usize = (self.width - 1) as usize * (self.height - 1) as usize;
        (area / 0x10000 + 2) * 0x4000
    }
}

proof fn next_power_positive(value: int)
    ensures
        next_power(value) >= 1,
        value <= next_power(value) || value <= 0,
{
    if value >= 1 {
        next_power_bounds(value);
    }
}

/// Frames of up to 4096 by 4096 pixels always have representable scratch
/// offsets.
pub proof fn supported_frames_have_scratch(layout: AvdFrameLayout)
    requires
        layout.width <= 4096,
        layout.height <= 4096,
    ensures
        layout.rvra_fits(),
        layout.rvra_end() + 10 * 0x4000 <= u32::MAX,
{
    let w = layout.width as int;
    let h = layout.height as int;
    next_power_positive(w);
    next_power_positive(h);
    if w >= 1 {
        next_power_bounds(w);
    }
    if h >= 1 {
        next_power_bounds(h);
    }
    let a = next_power(w);
    let b = next_power(h);
    aligned_up_is_least_multiple(h, 32);
    let ah = aligned_up(h, 32);
    assert(1 <= a * b <= 8192 * 8192) by (nonlinear_arith)
        requires
            1 <= a <= 8192,
            1 <= b <= 8192,
    ;
    assert(0 <= w * ah <= 4096 * 4128) by (nonlinear_arith)
        requires
            0 <= w <= 4096,
            0 <= ah <= 4128,
    ;
}


/// Sequence parameter set handed over with a stateless request.
#[derive(Clone, Copy, Debug)]
pub struct H264Sps {
    pub profile_idc: u8,
    pub level_idc: u8,
    pub seq_parameter_set_id: u8,
    pub chroma_format_idc: u8,
    pub bit_depth_luma_minus8: u8,
    pub bit_depth_chroma_minus8: u8,
    pub log2_max_frame_num_minus4: u8,
    pub pic_order_cnt_type: u8,
    pub max_num_ref_frames: u8,
    pub pic_width_in_mbs_minus1: u16,
    pub pic_height_in_map_units_minus1: u16,
    pub frame_crop_left_offset: u32,
    pub frame_crop_right_offset: u32,
    pub frame_crop_top_offset: u32,
    pub frame_crop_bottom_offset: u32,
    /// Frame macroblocks only.
    pub frame_mbs_only: bool,
    /// The crop offsets are in effect.
    pub frame_cropping: bool,
    /// Direct 8x8 inference.
    pub direct_8x8_inference: bool,
}

impl H264Sps {
    /// Progressive 8-bit 4:2:0.
    pub open spec fn supported(self) -> bool {
        &&& self.chroma_format_idc == 1
        &&& self.bit_depth_luma_minus8 == 0
        &&& self.bit_depth_chroma_minus8 == 0
        &&& self.frame_mbs_only
    }

    pub open spec fn coded_width(self) -> int {
        (self.pic_width_in_mbs_minus1 + 1) * 16
    }

    pub open spec fn coded_height(self) -> int {
        (self.pic_height_in_map_units_minus1 + 1) * 16
    }

    /// Pixels cut off at the left and right edge together.
    pub open spec fn crop_x(self) -> int {
        if self.frame_cropping {
            2 * self.frame_crop_left_offset + 2 * self.frame_crop_right_offset
        } else {
            0
        }
    }

    /// Pixels cut off at the top and bottom edge together.
    pub open spec fn crop_y(self) -> int {
        if self.frame_cropping {
            2 * self.frame_crop_top_offset + 2 * self.frame_crop_bottom_offset
        } else {
            0
        }
    }

    /// The visible picture is not empty and at most 4096 pixels in each
    /// direction.
    pub open spec fn visible_size_ok(self) -> bool {
        &&& 0 < self.coded_width() - self.crop_x() <= 4096
        &&& 0 < self.coded_height() - self.crop_y() <= 4096
    }
}

/// SPS-derived H.264 stream parameters needed by the AVD frontend.
#[derive(Clone, Copy, Debug, PartialEq, Eq, Structural)]
pub struct H264StreamParameters {
    /// Sequence parameter set identifier.
    pub sps_id: u32,
    /// Encoded profile IDC.
    pub profile_idc: u8,
    /// Encoded level IDC.
    pub level_idc: u8,
    /// Chroma format IDC; 4:2:0 only.
    pub chroma_format_idc: u32,
    /// Luma bit depth minus 8.
    pub bit_depth_luma_minus8: u32,
    /// Chroma bit depth minus 8.
    pub bit_depth_chroma_minus8: u32,
    /// Direct 8x8 inference flag.
    pub direct_8x8_inference_flag: bool,
    /// Decoded display width in pixels after cropping.
    pub width: u32,
    /// Decoded display height in pixels after cropping.
    pub height: u32,
    /// Left crop offset in pixels.
    pub crop_left: u32,
    /// Top crop offset in pixels.
    pub crop_top: u32,
    /// Coded width rounded to macroblock units.
    pub coded_width: u32,
    /// Coded height rounded to macroblock units.
    pub coded_height: u32,
    /// Log2 max frame number minus 4.
    pub log2_max_frame_num_minus4: u32,
    /// Pic order count type.
    pub pic_order_cnt_type: u32,
    /// Maximum decoded reference frames requested by the stream.
    pub max_num_ref_frames: u32,
}

impl H264StreamParameters {
    /// Build stream parameters from a stateless H.264 SPS.
    pub fn from_stateless_sps(sps: &H264Sps) -> (r: Result<Self, H264FrontendError>)
        requires
            sps.supported() ==> sps.crop_x() <= u32::MAX && sps.crop_y() <= u32::MAX,
        ensures
            r is Ok <==> sps.supported() && sps.visible_size_ok(),
            !sps.supported() ==> r == Err::<Self, _>(H264FrontendError::UnsupportedSps),
            sps.supported() && !sps.visible_size_ok() ==> r == Err::<Self, _>(
                H264FrontendError::InvalidDimensions,
            ),
            r is Ok ==> r->Ok_0 == (H264StreamParameters {
                sps_id: sps.seq_parameter_set_id as u32,
                profile_idc: sps.profile_idc,
                level_idc: sps.level_idc,
                chroma_format_idc: 1,
                bit_depth_luma_minus8: 0,
                bit_depth_chroma_minus8: 0,
                direct_8x8_inference_flag: sps.direct_8x8_inference,
                width: (sps.coded_width() - sps.crop_x()) as u32,
                height: (sps.coded_height() - sps.crop_y()) as u32,
                crop_left: if sps.frame_cropping {
                    (2 * sps.frame_crop_left_offset) as u32
                } else {
                    0
                },
                crop_top: if sps.frame_cropping {
                    (2 * sps.frame_crop_top_offset) as u32
                } else {
                    0
                },
                coded_width: sps.coded_width() as u32,
                coded_height: sps.coded_height() as u32,
                log2_max_frame_num_minus4: sps.log2_max_frame_num_minus4 as u32,
                pic_order_cnt_type: sps.pic_order_cnt_type as u32,
                max_num_ref_frames: sps.max_num_ref_frames as u32,
            }),
    {
        if sps.chroma_format_idc != 1 || sps.bit_depth_luma_minus8 != 0
            || sps.bit_depth_chroma_minus8 != 0 {
            return Err(H264FrontendError::UnsupportedSps);
        }
        if !sps.frame_mbs_only {
            return Err(H264FrontendError::UnsupportedSps);
        }
        let coded_width: u32 = (sps.pic_width_in_mbs_minus1 as u32 + 1) * 16;
        let coded_height: u32 = (sps.pic_height_in_map_units_minus1 as u32 + 1) * 16;
        let (crop_left, crop_right, crop_top, crop_bottom): (u32, u32, u32, u32) =
            if sps.frame_cropping {
            (
                sps.frame_crop_left_offset,
                sps.frame_crop_right_offset,
                sps.frame_crop_top_offset,
                sps.frame_crop_bottom_offset,
            )
        } else {
            (0, 0, 0, 0)
        };
        let crop_left_px: u32 = crop_left * 2;
        let crop_top_px: u32 = crop_top * 2;
        let crop_x: u32 = crop_left_px + crop_right * 2;
        let crop_y: u32 = crop_top_px + crop_bottom * 2;
        if crop_x >= coded_width || crop_y >= coded_height {
            return Err(H264FrontendError::InvalidDimensions);
        }
        let width: u32 = coded_width - crop_x;
        let height: u32 = coded_height - crop_y;
        if width == 0 || height == 0 || width > 4096 || height > 4096 {
            return Err(H264FrontendError::InvalidDimensions);
        }
        Ok(
            H264StreamParameters {
                sps_id: sps.seq_parameter_set_id as u32,
                profile_idc: sps.profile_idc,
                level_idc: sps.level_idc,
                chroma_format_idc: sps.chroma_format_idc as u32,
                bit_depth_luma_minus8: sps.bit_depth_luma_minus8 as u32,
                bit_depth_chroma_minus8: sps.bit_depth_chroma_minus8 as u32,
                direct_8x8_inference_flag: sps.direct_8x8_inference,
                width,
                height,
                crop_left: crop_left_px,
                crop_top: crop_top_px,
                coded_width,
                coded_height,
                log2_max_frame_num_minus4: sps.log2_max_frame_num_minus4 as u32,
                pic_order_cnt_type: sps.pic_order_cnt_type as u32,
                max_num_ref_frames: sps.max_num_ref_frames as u32,
            },
        )
    }

    /// Build the NV12 output layout, with strides aligned for the decoder.
    pub fn nv12_layout(&self) -> (r: AvdFrameLayout)
        requires
            self.coded_width + 63 <= u32::MAX,
        ensures
            r == (AvdFrameLayout {
                width: self.coded_width,
                height: self.coded_height,
                y_stride: aligned_up(self.coded_width as int, 64) as u32,
                uv_stride: aligned_up(self.coded_width as int, 64) as u32,
                pixel_format: PixelFormat::Nv12,
            }),
    {
        let y_stride: u32 = align_up_u32(self.coded_width, 64);
        AvdFrameLayout::nv12(self.coded_width, self.coded_height, y_stride, y_stride)
    }
}

/// Picture parameter set handed over with a stateless request.
#[derive(Clone, Copy, Debug)]
pub struct H264Pps {
    pub weighted_bipred_idc: u8,
    pub pic_init_qp_minus26: i8,
    pub chroma_qp_index_offset: i8,
    pub second_chroma_qp_index_offset: i8,
    /// CABAC entropy coding.
    pub entropy_coding_mode: bool,
    /// 8x8 transform.
    pub transform_8x8_mode: bool,
    /// Constrained intra prediction.
    pub constrained_intra_pred: bool,
    /// Weighted prediction for P and SP slices.
    pub weighted_pred: bool,
}

/// H.264 PPS-derived picture parameters needed by the AVD command stream.
#[derive(Clone, Copy, Debug, PartialEq, Eq, Structural)]
pub struct H264PictureParameters {
    /// CABAC entropy coding mode.
    pub entropy_coding_mode: bool,
    /// 8x8 transform mode.
    pub transform_8x8_mode: bool,
    /// Constrained intra prediction.
    pub constrained_intra_pred: bool,
    /// Weighted bipred IDC.
    pub weighted_bipred_idc: u8,
    /// Weighted prediction for P/SP slices.
    pub weighted_pred: bool,
    /// Initial picture QP minus 26.
    pub pic_init_qp_minus26: i8,
    /// First chroma QP offset.
    pub chroma_qp_index_offset: i8,
    /// Second chroma QP offset.
    pub second_chroma_qp_index_offset: i8,
}

/// The picture parameters a PPS stands for.
pub open spec fn picture_parameters(pps: H264Pps) -> H264PictureParameters {
    H264PictureParameters {
        entropy_coding_mode: pps.entropy_coding_mode,
        transform_8x8_mode: pps.transform_8x8_mode,
        constrained_intra_pred: pps.constrained_intra_pred,
        weighted_bipred_idc: pps.weighted_bipred_idc,
        weighted_pred: pps.weighted_pred,
        pic_init_qp_minus26: pps.pic_init_qp_minus26,
        chroma_qp_index_offset: pps.chroma_qp_index_offset,
        second_chroma_qp_index_offset: pps.second_chroma_qp_index_offset,
    }
}

impl H264PictureParameters {
    /// Build picture parameters from a stateless H.264 PPS.
    pub fn from_stateless_pps(pps: &H264Pps) -> (r: Self)
        ensures
            r == picture_parameters(*pps),
    {
        H264PictureParameters {
            entropy_coding_mode: pps.entropy_coding_mode,
            transform_8x8_mode: pps.transform_8x8_mode,
            constrained_intra_pred: pps.constrained_intra_pred,
            weighted_bipred_idc: pps.weighted_bipred_idc,
            weighted_pred: pps.weighted_pred,
            pic_init_qp_minus26: pps.pic_init_qp_minus26,
            chroma_qp_index_offset: pps.chroma_qp_index_offset,
            second_chroma_qp_index_offset: pps.second_chroma_qp_index_offset,
        }
    }

    /// Return conservative baseline defaults.
    pub fn baseline_defaults() -> (r: Self)
        ensures
            r == (H264PictureParameters {
                entropy_coding_mode: false,
                transform_8x8_mode: false,
                constrained_intra_pred: false,
                weighted_bipred_idc: 0,
                weighted_pred: false,
                pic_init_qp_minus26: 0,
                chroma_qp_index_offset: 0,
                second_chroma_qp_index_offset: 0,
            }),
    {
        H264PictureParameters {
            entropy_coding_mode: false,
            transform_8x8_mode: false,
            constrained_intra_pred: false,
            weighted_bipred_idc: 0,
            weighted_pred: false,
            pic_init_qp_minus26: 0,
            chroma_qp_index_offset: 0,
            second_chroma_qp_index_offset: 0,
        }
    }
}

/// H.264 slice kind collapsed to the modes the AVD command stream needs.
#[derive(Clone, Copy, Debug, PartialEq, Eq, Structural)]
pub enum H264SliceKind {
    /// I or SI slice.
    I,
    /// P or SP slice.
    P,
    /// B slice.
    B,
}

/// One entry of an explicit reference picture list.
#[derive(Clone, Copy, Debug, PartialEq, Eq, Structural)]
pub struct H264Reference {
    /// Index into the decoded picture buffer.
    pub index: u8,
}

/// One entry of the decoded picture buffer handed over with a request.
#[derive(Clone, Copy, Debug, PartialEq, Eq, Structural)]
pub struct H264DpbEntry {
    pub reference_ts: u64,
    pub pic_num: i32,
    pub frame_num: u16,
    pub top_field_order_cnt: i32,
    /// The entry holds a picture.
    pub valid: bool,
    /// The picture is a long-term reference.
    pub long_term: bool,
}

/// Prediction weights of one reference list.
#[derive(Clone, Copy, Debug)]
pub struct H264WeightFactors {
    pub luma_weight: [i16; 32],
    pub luma_offset: [i16; 32],
    pub chroma_weight: [[i16; 2]; 32],
    pub chroma_offset: [[i16; 2]; 32],
}

/// Explicit prediction weights of a slice.
#[derive(Clone, Copy, Debug)]
pub struct H264PredWeights {
    pub luma_log2_weight_denom: u16,
    pub chroma_log2_weight_denom: u16,
    pub weight_factors: [H264WeightFactors; 2],
}

/// Per-slice controls handed over with a stateless request.
#[derive(Clone, Copy, Debug)]
pub struct H264SliceControl {
    pub nal_offset: u32,
    pub nal_len: u32,
    pub header_bit_size: u32,
    pub first_mb_in_slice: u32,
    pub slice_type: u8,
    pub pic_parameter_set_id: u8,
    pub cabac_init_idc: u8,
    pub slice_qp_delta: i8,
    pub disable_deblocking_filter_idc: u8,
    pub slice_alpha_c0_offset_div2: i8,
    pub slice_beta_offset_div2: i8,
    pub num_ref_idx_l0_active_minus1: u8,
    pub num_ref_idx_l1_active_minus1: u8,
    pub ref_pic_list0: [H264Reference; 32],
    pub ref_pic_list1: [H264Reference; 32],
    /// The reference lists above are in effect.
    pub ref_lists_present: bool,
    /// Direct prediction is spatial.
    pub direct_spatial_mv_pred: bool,
}

/// Per-frame controls handed over with a stateless request.
#[derive(Clone, Copy, Debug)]
pub struct H264DecodeControl {
    pub nal_ref_idc: u16,
    pub frame_num: u16,
    pub top_field_order_cnt: i32,
    pub dpb: [H264DpbEntry; 16],
    /// The picture is an IDR picture.
    pub idr: bool,
}

/// All controls of a stateless H.264 request.
#[derive(Clone, Copy, Debug)]
pub struct H264StatelessParams {
    pub pps: H264Pps,
    pub slice_params: H264SliceControl,
    pub decode_params: H264DecodeControl,
    pub pred_weights: H264PredWeights,
}

/// Minimal H.264 slice metadata used by AVD instruction generation.
#[derive(Clone, Copy, Debug)]
pub struct H264SliceParameters {
    /// NAL reference IDC bits from the slice NAL header.
    pub nal_ref_idc: u8,
    /// Slice NAL unit type.
    pub nal_unit_type: H264NalUnitType,
    /// Slice kind derived from `slice_type`.
    pub kind: H264SliceKind,
    /// Raw `slice_type` value from the bitstream.
    pub slice_type: u32,
    /// Picture parameter set identifier from the slice header.
    pub pic_parameter_set_id: u32,
    /// Byte offset of the NAL header in the original access unit.
    pub nal_offset: usize,
    /// Byte length of the NAL payload including the NAL header.
    pub nal_len: usize,
    /// Byte offset of `slice_data()` in the submitted input buffer.
    pub slice_data_offset: usize,
    /// Byte length from `slice_data()` to the end of the slice NAL.
    pub slice_data_len: usize,
    /// Number of bits of the slice RBSP taken by the slice header.
    pub parsed_header_bits: usize,
    /// First macroblock in this slice.
    pub first_mb_in_slice: u32,
    /// CABAC init IDC.
    pub cabac_init_idc: u8,
    /// Slice QP delta.
    pub slice_qp_delta: i8,
    /// Deblocking filter IDC.
    pub disable_deblocking_filter_idc: u8,
    /// Alpha C0 deblocking offset divided by two.
    pub slice_alpha_c0_offset_div2: i8,
    /// Beta deblocking offset divided by two.
    pub slice_beta_offset_div2: i8,
    /// Active L0 reference count minus one.
    pub num_ref_idx_l0_active_minus1: u8,
    /// Active L1 reference count minus one.
    pub num_ref_idx_l1_active_minus1: u8,
    /// Reference picture list 0.
    pub ref_pic_list0: [H264Reference; 32],
    /// Reference picture list 1.
    pub ref_pic_list1: [H264Reference; 32],
    /// The reference lists are in effect.
    pub ref_lists_present: bool,
    /// Direct prediction is spatial.
    pub direct_spatial_mv_pred: bool,
}

/// The slice kind of a raw slice type.
pub open spec fn slice_kind(slice_type: u8) -> H264SliceKind {
    let t = slice_type % 5;
    if t == 0 || t == 3 {
        H264SliceKind::P
    } else if t == 1 {
        H264SliceKind::B
    } else {
        H264SliceKind::I
    }
}

/// Where `need` more RBSP bytes end, reading from `offset`: a byte 3 behind
/// two zero bytes is an emulation byte and does not count. `None` where the
/// input ends first.
pub open spec fn skip_rbsp(input: Seq<u8>, offset: int, need: int, zeros: int) -> Option<int>
    decreases input.len() - offset,
{
    if need <= 0 {
        Some(offset)
    } else if offset >= input.len() {
        None
    } else if zeros >= 2 && input[offset] == 3 {
        skip_rbsp(input, offset + 1, need, 0)
    } else {
        skip_rbsp(input, offset + 1, need - 1, if input[offset] == 0 {
            if zeros < 2 {
                zeros + 1
            } else {
                2
            }
        } else {
            0
        })
    }
}

/// Whole bytes of the slice header: rounded up where the slice data is
/// byte-aligned (CABAC), else rounded down.
pub open spec fn header_bytes(header_bit_size: u32, entropy_coding_mode: bool) -> int {
    if entropy_coding_mode {
        (header_bit_size + 7) / 8
    } else {
        header_bit_size as int / 8
    }
}

/// Start and length of the slice data, or `None` where the NAL unit or its
/// header does not fit the input.
pub open spec fn slice_data_range(
    input: Seq<u8>,
    slice: H264SliceControl,
    entropy_coding_mode: bool,
) -> Option<(int, int)> {
    let end = slice.nal_offset + slice.nal_len;
    if slice.nal_len == 0 || end > input.len() {
        None
    } else {
        match skip_rbsp(
            input,
            slice.nal_offset + 1,
            header_bytes(slice.header_bit_size, entropy_coding_mode),
            0,
        ) {
            Some(offset) => if offset <= end {
                Some((offset, end - offset))
            } else {
                None
            },
            None => None,
        }
    }
}

/// Skipping moves forward by at least the bytes asked for and stays inside
/// the input.
pub proof fn skip_rbsp_bounds(input: Seq<u8>, offset: int, need: int, zeros: int)
    requires
        0 <= offset <= input.len(),
        0 <= need,
    ensures
        match skip_rbsp(input, offset, need, zeros) {
            Some(end) => offset + need <= end <= input.len(),
            None => true,
        },
    decreases input.len() - offset,
{
    if need > 0 && offset < input.len() {
        if zeros >= 2 && input[offset] == 3 {
            skip_rbsp_bounds(input, offset + 1, need, 0);
        } else {
            let z = if input[offset] == 0 {
                if zeros < 2 {
                    zeros + 1
                } else {
                    2
                }
            } else {
                0
            };
            skip_rbsp_bounds(input, offset + 1, need - 1, z);
        }
    }
}

fn locate_slice_data(
    input: &[u8],
    slice: &H264SliceControl,
    entropy_coding_mode: bool,
) -> (r: Result<(usize, usize), H264FrontendError>)
    ensures
        match slice_data_range(input@, *slice, entropy_coding_mode) {
            Some((offset, len)) => r is Ok && r->Ok_0.0 == offset && r->Ok_0.1 == len,
            None => r == Err::<(usize, usize), _>(H264FrontendError::InvalidSliceRange),
        },
{
    let input_len: usize = input.len();
    let nal_start: usize = slice.nal_offset as usize;
    let nal_len: usize = slice.nal_len as usize;
    let nal_end: usize = match nal_start.checked_add(nal_len) {
        Some(end) => end,
        None => {
            return Err(H264FrontendError::InvalidSliceRange);
        },
    };
    if nal_len == 0 || nal_end > input_len {
        return Err(H264FrontendError::InvalidSliceRange);
    }
    let mut offset: usize = nal_start + 1;
    let rbsp_header_bytes: u64 = if entropy_coding_mode {
        (slice.header_bit_size as u64 + 7) / 8
    } else {
        slice.header_bit_size as u64 / 8
    };
    let mut rbsp_read: u64 = 0;
    let mut zero_count: u8 = 0;
    let ghost whole = skip_rbsp(
        input@,
        slice.nal_offset + 1,
        header_bytes(slice.header_bit_size, entropy_coding_mode),
        0,
    );
    while rbsp_read < rbsp_header_bytes
        invariant
            offset <= input.len(),
            rbsp_read <= rbsp_header_bytes,
            zero_count <= 2,
            whole == skip_rbsp(
                input@,
                offset as int,
                rbsp_header_bytes - rbsp_read,
                zero_count as int,
            ),
            slice_data_range(input@, *slice, entropy_coding_mode) == (match whole {
                Some(o) => if o <= nal_end {
                    Some((o, nal_end - o))
                } else {
                    None
                },
                None => None,
            }),
        decreases input.len() - offset,
    {
        if offset >= input.len() {
            return Err(H264FrontendError::InvalidSliceRange);
        }
        let byte: u8 = input[offset];
        offset = offset + 1;
        if zero_count >= 2 && byte == 0x03 {
            zero_count = 0;
        } else {
            rbsp_read = rbsp_read + 1;
            if byte == 0 {
                if zero_count < 2 {
                    zero_count = zero_count + 1;
                }
            } else {
                zero_count = 0;
            }
        }
    }
    if offset > nal_end {
        return Err(H264FrontendError::InvalidSliceRange);
    }
    Ok((offset, nal_end - offset))
}

impl H264SliceParameters {
    /// What a slice's controls are lowered to, once its data is located.
    pub open spec fn lowered(
        slice: H264SliceControl,
        decode: H264DecodeControl,
        data_offset: usize,
        data_len: usize,
    ) -> Self {
        H264SliceParameters {
            nal_ref_idc: decode.nal_ref_idc as u8,
            nal_unit_type: if decode.idr {
                H264NalUnitType::IdrSlice
            } else {
                H264NalUnitType::Slice
            },
            kind: slice_kind(slice.slice_type),
            slice_type: slice.slice_type as u32,
            pic_parameter_set_id: slice.pic_parameter_set_id as u32,
            nal_offset: slice.nal_offset as usize,
            nal_len: slice.nal_len as usize,
            slice_data_offset: data_offset,
            slice_data_len: data_len,
            parsed_header_bits: slice.header_bit_size as usize,
            first_mb_in_slice: slice.first_mb_in_slice,
            cabac_init_idc: slice.cabac_init_idc,
            slice_qp_delta: slice.slice_qp_delta,
            disable_deblocking_filter_idc: slice.disable_deblocking_filter_idc,
            slice_alpha_c0_offset_div2: slice.slice_alpha_c0_offset_div2,
            slice_beta_offset_div2: slice.slice_beta_offset_div2,
            num_ref_idx_l0_active_minus1: slice.num_ref_idx_l0_active_minus1,
            num_ref_idx_l1_active_minus1: slice.num_ref_idx_l1_active_minus1,
            ref_pic_list0: slice.ref_pic_list0,
            ref_pic_list1: slice.ref_pic_list1,
            ref_lists_present: slice.ref_lists_present,
            direct_spatial_mv_pred: slice.direct_spatial_mv_pred,
        }
    }

    /// Build slice parameters from stateless H.264 controls.
    pub fn from_stateless(
        slice: &H264SliceControl,
        decode: &H264DecodeControl,
        pps: &H264Pps,
        input: &[u8],
    ) -> (r: Result<Self, H264FrontendError>)
        ensures
            decode.nal_ref_idc > 3 || slice.nal_len == 0 ==> r == Err::<Self, _>(
                H264FrontendError::MalformedSlice,
            ),
            decode.nal_ref_idc <= 3 && slice.nal_len != 0 ==> match slice_data_range(
                input@,
                *slice,
                pps.entropy_coding_mode,
            ) {
                Some((offset, len)) => r == Ok::<Self, H264FrontendError>(
                    Self::lowered(*slice, *decode, offset as usize, len as usize),
                ),
                None => r == Err::<Self, _>(H264FrontendError::InvalidSliceRange),
            },
    {
        if decode.nal_ref_idc > 3 || slice.nal_len == 0 {
            return Err(H264FrontendError::MalformedSlice);
        }
        let kind = match slice.slice_type % 5 {
            0 | 3 => H264SliceKind::P,
            1 => H264SliceKind::B,
            _ => H264SliceKind::I,
        };
        let nal_unit_type = if decode.idr {
            H264NalUnitType::IdrSlice
        } else {
            H264NalUnitType::Slice
        };
        let (slice_data_offset, slice_data_len): (usize, usize) = match locate_slice_data(
            input,
            slice,
            pps.entropy_coding_mode,
        ) {
            Ok(range) => range,
            Err(error) => {
                return Err(error);
            },
        };
        Ok(
            H264SliceParameters {
                nal_ref_idc: decode.nal_ref_idc as u8,
                nal_unit_type,
                kind,
                slice_type: slice.slice_type as u32,
                pic_parameter_set_id: slice.pic_parameter_set_id as u32,
                nal_offset: slice.nal_offset as usize,
                nal_len: slice.nal_len as usize,
                slice_data_offset,
                slice_data_len,
                parsed_header_bits: slice.header_bit_size as usize,
                first_mb_in_slice: slice.first_mb_in_slice,
                cabac_init_idc: slice.cabac_init_idc,
                slice_qp_delta: slice.slice_qp_delta,
                disable_deblocking_filter_idc: slice.disable_deblocking_filter_idc,
                slice_alpha_c0_offset_div2: slice.slice_alpha_c0_offset_div2,
                slice_beta_offset_div2: slice.slice_beta_offset_div2,
                num_ref_idx_l0_active_minus1: slice.num_ref_idx_l0_active_minus1,
                num_ref_idx_l1_active_minus1: slice.num_ref_idx_l1_active_minus1,
                ref_pic_list0: slice.ref_pic_list0,
                ref_pic_list1: slice.ref_pic_list1,
                ref_lists_present: slice.ref_lists_present,
                direct_spatial_mv_pred: slice.direct_spatial_mv_pred,
            },
        )
    }

    /// Return whether this slice belongs to an IDR picture.
    pub fn is_idr(&self) -> (r: bool)
        ensures
            r == (self.nal_unit_type == H264NalUnitType::IdrSlice),
    {
        matches!(self.nal_unit_type, H264NalUnitType::IdrSlice)
    }

    /// Return whether this slice should be retained as a reference picture.
    pub fn is_reference(&self) -> (r: bool)
        ensures
            r == (self.nal_ref_idc != 0),
    {
        self.nal_ref_idc != 0
    }
}

} // verus!
