//! Lowering of stateless VP9 requests to AVD instruction words.

use crate::arith::{
    align_up_u32, align_up_usize, aligned_up, aligned_up_is_least_multiple, bit, bit_if, max_u32,
    next_power, next_power_bounds, next_power_of_two,
};
use crate::avd::common::{AvdDmaRange, PixelFormat};
use crate::avd::words::{kept, WordBuffer};
use crate::bytes::le32_all;
use vstd::prelude::*;

verus! {

pub const AVD_VP9_MAX_INSTRUCTION_WORDS: usize = 4096;

/// Transform mode in which every block selects its own size.
pub const VP9_TX_MODE_SELECT: u8 = 4;

/// VP9 stateless request lowering error.
#[derive(Clone, Copy, Debug, PartialEq, Eq, Structural)]
pub enum Vp9FrontendError {
    /// Request dimensions are not valid.
    InvalidDimensions,
    /// Stream uses a VP9 feature this AVD path does not accept.
    UnsupportedFrame,
    /// Tile table is malformed.
    InvalidTiles,
    /// Generated AVD instruction stream exceeded its destination buffer.
    InstructionStreamTooLarge,
}

/// Interpolation filter of a VP9 frame.
#[derive(Clone, Copy, Debug, PartialEq, Eq, Structural)]
pub enum Vp9InterpFilter {
    EightTap,
    EightTapSharp,
    Switchable,
    /// Any other filter.
    Other,
}

/// One tile of a VP9 frame.
#[derive(Clone, Copy, Debug, PartialEq, Eq, Structural)]
pub struct Vp9Tile {
    pub offset: u32,
    pub size: u32,
    pub row: u16,
    pub col: u16,
}

/// VP9 frame header handed over with a stateless request.
#[derive(Clone, Copy, Debug, PartialEq, Eq, Structural)]
pub struct Vp9FrameParams {
    pub profile: u8,
    pub bit_depth: u8,
    pub frame_width_minus_1: u16,
    pub frame_height_minus_1: u16,
    pub render_width_minus_1: u16,
    pub render_height_minus_1: u16,
    pub tile_cols_log2: u8,
    pub tile_rows_log2: u8,
    pub tx_mode: u8,
    pub refresh_frame_flags: u8,
    pub base_q_idx: u8,
    pub loop_filter_level: u8,
    pub interpolation_filter: Vp9InterpFilter,
    pub key_frame: bool,
    pub show_frame: bool,
    pub error_resilient: bool,
}

/// All controls of a stateless VP9 request. `tiles` is the tile table, of
/// which the first `tile_count` entries are in use.
pub struct Vp9StatelessParams {
    pub frame: Vp9FrameParams,
    pub tiles: Vec<Vp9Tile>,
    pub tile_count: u32,
}

/// Decoded NV12 frame layout expected from Apple AVD VP9.
#[derive(Clone, Copy, Debug, PartialEq, Eq, Structural)]
pub struct AvdVp9FrameLayout {
    /// Frame width in pixels.
    pub width: u32,
    /// Frame height in pixels.
    pub height: u32,
    /// Luma plane stride in bytes.
    pub y_stride: u32,
    /// Interleaved UV plane stride in bytes.
    pub uv_stride: u32,
    /// Pixel format; currently NV12.
    pub pixel_format: PixelFormat,
}

/// Bytes of the metadata section of the RVRA scratch area.
pub open spec fn vp9_rvra_meta(width: int, height: int) -> int {
    let m = (next_power(width) * next_power(height)) / 32;
    if m >= 0x100 {
        m
    } else {
        0x100
    }
}

impl AvdVp9FrameLayout {
    /// Bytes of both planes.
    pub open spec fn output_bytes(self) -> int {
        self.y_stride * self.height + self.uv_stride * (self.height / 2)
    }

    /// Bytes of the luma section of the RVRA scratch area.
    pub open spec fn rvra_luma(self) -> int {
        self.y_stride * aligned_up(self.height as int, 32)
    }

    /// End of the chroma section of the RVRA scratch area.
    pub open spec fn rvra_end(self) -> int {
        self.rvra_luma() + vp9_rvra_meta(self.width as int, self.height as int) + self.rvra_luma()
            / 2
    }

    /// The scratch offsets of this layout fit 32-bit arithmetic.
    pub open spec fn rvra_fits(self) -> bool {
        &&& self.width <= 0x8000_0000
        &&& self.height <= 0x8000_0000
        &&& next_power(self.width as int) * next_power(self.height as int) <= u32::MAX
        &&& self.rvra_end() <= u32::MAX
    }

    /// Construct an NV12 frame layout.
    pub fn nv12(width: u32, height: u32) -> (r: Self)
        requires
            width + 63 <= u32::MAX,
        ensures
            r == vp9_layout(width, height),
    {
        let y_stride: u32 = align_up_u32(width, 64);
        AvdVp9FrameLayout {
            width,
            height,
            y_stride,
            uv_stride: y_stride,
            pixel_format: PixelFormat::Nv12,
        }
    }

    /// Return the minimum output buffer size for this frame.
    pub fn output_len(&self) -> (r: usize)
        requires
            self.output_bytes() <= usize::MAX,
        ensures
            r == self.output_bytes(),
    {
        assert(0 <= self.y_stride * self.height) by (nonlinear_arith);
        assert(0 <= self.uv_stride * (self.height / 2)) by (nonlinear_arith);
        let y: usize = self.y_stride as usize * self.height as usize;
        let uv: usize = self.uv_stride as usize * (self.height as usize / 2);
        y + uv
    }

    /// Return the AVD RVRA scratch offsets for this frame layout.
    pub fn rvra_offsets(&self) -> (r: [u32; 4])
        requires
            self.rvra_fits(),
        ensures
            ({
                let luma = self.rvra_luma();
                let meta = vp9_rvra_meta(self.width as int, self.height as int);
                r@ == seq![
                    luma as u32,
                    (luma + meta) as u32,
                    (luma + meta + luma / 2) as u32,
                    (luma + meta + luma / 2 / 2) as u32,
                ]
            }),
    {
        proof {
            aligned_up_is_least_multiple(self.height as int, 32);
            let s = self.y_stride as int;
            let ah = aligned_up(self.height as int, 32);
            assert(0 <= s * ah) by (nonlinear_arith)
                requires
                    0 <= s,
                    0 <= ah,
            ;
            let a = next_power(self.width as int);
            let b = next_power(self.height as int);
            if self.width >= 1 {
                next_power_bounds(self.width as int);
            }
            if self.height >= 1 {
                next_power_bounds(self.height as int);
            }
            assert(a <= a * b && b <= a * b) by (nonlinear_arith)
                requires
                    a >= 1,
                    b >= 1,
            ;
        }
        let height: u32 = align_up_u32(self.height, 32);
        let luma: u32 = self.y_stride * height;
        let chroma: u32 = luma / 2;
        let cells: u32 = next_power_of_two(self.width) * next_power_of_two(self.height) / 32;
        let meta: u32 = max_u32(cells, 0x100);
        let offsets = [luma, luma + meta, luma + meta + chroma, luma + meta + chroma / 2];
        assert(offsets@ =~= seq![
            luma,
            (luma + meta) as u32,
            (luma + meta + luma / 2) as u32,
            (luma + meta + luma / 2 / 2) as u32,
        ]);
        offsets
    }

    /// Return the AVD RVRA scratch size for this frame layout.
    pub fn rvra_len(&self) -> (r: usize)
        requires
            self.rvra_fits(),
            self.rvra_end() + 0x4000 <= usize::MAX,
        ensures
            r == aligned_up(self.rvra_end(), 0x4000),
    {
        let offsets = self.rvra_offsets();
        proof {
            aligned_up_is_least_multiple(self.height as int, 32);
            let s = self.y_stride as int;
            let ah = aligned_up(self.height as int, 32);
            assert(0 <= s * ah) by (nonlinear_arith)
                requires
                    0 <= s,
                    0 <= ah,
            ;
            assert(offsets@[2] == self.rvra_end() as u32);
        }
        align_up_usize(offsets[2] as usize, 0x4000)
    }

    /// Return the AVD VP9 SPS scratch size for this frame layout.
    pub fn sps_scratch_len(&self) -> (r: usize)
        ensures
            r == 0x30000,
    {
        6 * 0x8000
    }
}

/// The layout of a frame: strides rounded up to 64 bytes.
pub open spec fn vp9_layout(width: u32, height: u32) -> AvdVp9FrameLayout {
    AvdVp9FrameLayout {
        width,
        height,
        y_stride: aligned_up(width as int, 64) as u32,
        uv_stride: aligned_up(width as int, 64) as u32,
        pixel_format: PixelFormat::Nv12,
    }
}

/// VP9 stream parameters needed by the AVD frontend.
#[derive(Clone, Copy, Debug, PartialEq, Eq, Structural)]
pub struct Vp9StreamParameters {
    /// VP9 profile.
    pub profile: u8,
    /// Component bit depth.
    pub bit_depth: u8,
    /// Decoded coded width.
    pub width: u32,
    /// Decoded coded height.
    pub height: u32,
    /// Display/render width.
    pub render_width: u32,
    /// Display/render height.
    pub render_height: u32,
    /// Log2 tile columns.
    pub tile_cols_log2: u8,
    /// Log2 tile rows.
    pub tile_rows_log2: u8,
}

impl Vp9FrameParams {
    /// At most 4096 pixels in each direction, rendered inside the coded size.
    pub open spec fn dimensions_ok(self) -> bool {
        &&& self.frame_width_minus_1 < 4096
        &&& self.frame_height_minus_1 < 4096
        &&& self.render_width_minus_1 <= self.frame_width_minus_1
        &&& self.render_height_minus_1 <= self.frame_height_minus_1
    }

    /// Profile 0, 8 bits, within the tile limits of the format.
    pub open spec fn supported(self) -> bool {
        &&& self.profile == 0
        &&& self.bit_depth == 8
        &&& self.tile_cols_log2 <= 6
        &&& self.tile_rows_log2 <= 2
    }
}

impl Vp9StreamParameters {
    /// Build stream parameters from stateless VP9 frame parameters.
    pub fn from_stateless_frame(frame: &Vp9FrameParams) -> (r: Result<Self, Vp9FrontendError>)
        ensures
            !frame.dimensions_ok() ==> r == Err::<Self, _>(Vp9FrontendError::InvalidDimensions),
            frame.dimensions_ok() && !frame.supported() ==> r == Err::<Self, _>(
                Vp9FrontendError::UnsupportedFrame,
            ),
            frame.dimensions_ok() && frame.supported() ==> r == Ok::<Self, Vp9FrontendError>(
                Vp9StreamParameters {
                    profile: frame.profile,
                    bit_depth: frame.bit_depth,
                    width: (frame.frame_width_minus_1 + 1) as u32,
                    height: (frame.frame_height_minus_1 + 1) as u32,
                    render_width: (frame.render_width_minus_1 + 1) as u32,
                    render_height: (frame.render_height_minus_1 + 1) as u32,
                    tile_cols_log2: frame.tile_cols_log2,
                    tile_rows_log2: frame.tile_rows_log2,
                },
            ),
    {
        let width: u32 = frame.frame_width_minus_1 as u32 + 1;
        let height: u32 = frame.frame_height_minus_1 as u32 + 1;
        let render_width: u32 = frame.render_width_minus_1 as u32 + 1;
        let render_height: u32 = frame.render_height_minus_1 as u32 + 1;
        if width > 4096 || height > 4096 {
            return Err(Vp9FrontendError::InvalidDimensions);
        }
        if render_width > width || render_height > height {
            return Err(Vp9FrontendError::InvalidDimensions);
        }
        if frame.profile != 0 || frame.bit_depth != 8 {
            return Err(Vp9FrontendError::UnsupportedFrame);
        }
        if frame.tile_cols_log2 > 6 || frame.tile_rows_log2 > 2 {
            return Err(Vp9FrontendError::UnsupportedFrame);
        }
        Ok(
            Vp9StreamParameters {
                profile: frame.profile,
                bit_depth: frame.bit_depth,
                width,
                height,
                render_width,
                render_height,
                tile_cols_log2: frame.tile_cols_log2,
                tile_rows_log2: frame.tile_rows_log2,
            },
        )
    }

    /// Build the NV12 output layout, with strides aligned for the decoder.
    pub fn nv12_layout(&self) -> (r: AvdVp9FrameLayout)
        requires
            self.width + 63 <= u32::MAX,
        ensures
            r == vp9_layout(self.width, self.height),
    {
        AvdVp9FrameLayout::nv12(self.width, self.height)
    }
}

/// Every frame that is accepted has a layout whose scratch offsets are
/// representable.
pub proof fn accepted_frames_have_scratch(width: u32, height: u32)
    requires
        width <= 4096,
        height <= 4096,
    ensures
        vp9_layout(width, height).rvra_fits(),
        vp9_layout(width, height).rvra_end() + 0x4000 <= u32::MAX,
{
    let layout = vp9_layout(width, height);
    let w = width as int;
    let h = height as int;
    if w >= 1 {
        next_power_bounds(w);
    }
    if h >= 1 {
        next_power_bounds(h);
    }
    let a = next_power(w);
    let b = next_power(h);
    aligned_up_is_least_multiple(h, 32);
    aligned_up_is_least_multiple(w, 64);
    let ah = aligned_up(h, 32);
    let s = layout.y_stride as int;
    assert(1 <= a * b <= 8192 * 8192) by (nonlinear_arith)
        requires
            1 <= a <= 8192,
            1 <= b <= 8192,
    ;
    assert(0 <= s * ah <= 4160 * 4128) by (nonlinear_arith)
        requires
            0 <= s <= 4160,
            0 <= ah <= 4128,
    ;
}

/// Device-visible addresses of AVD VP9 session work areas.
#[derive(Clone, Copy, Debug)]
pub struct AvdVp9Workspace {
    /// Instruction FIFO memory.
    pub instruction_fifo_dma_addr: u64,
    /// VP9 probability table memory.
    pub probabilities_dma_addr: u64,
    /// VP9 pps0 tile memory.
    pub pps0_tile_dma_addr: u64,
    /// VP9 pps1 tile memory ring.
    pub pps1_tile_dma_addrs: [u64; 8],
    /// VP9 pps2 tile memory pair.
    pub pps2_tile_dma_addrs: [u64; 2],
    /// VP9 SPS tile memory base.
    pub sps_tile_dma_addr: u64,
    /// Current decoded frame RVRA addresses.
    pub current_rvra_dma_addrs: [u64; 4],
    /// Last/golden/alternate reference RVRA addresses.
    pub reference_rvra_dma_addrs: [[u64; 4]; 3],
}

/// Previously decoded VP9 reference picture visible to the AVD command stream.
#[derive(Clone, Copy, Debug)]
pub struct AvdVp9ReferencePicture {
    /// Stateless reference timestamp identifying this decoded picture.
    pub timestamp: u64,
    /// RVRA scratch addresses for this reference picture.
    pub rvra_dma_addrs: [u64; 4],
}

/// VP9 decode request lowered for the Apple AVD command path.
pub struct Vp9DecodeRequest {
    /// Video session identifier.
    pub session_id: u64,
    /// Driver-local frame number.
    pub frame_number: u32,
    /// Input frame byte stream.
    pub input: AvdDmaRange,
    /// Output NV12 frame buffer.
    pub output: AvdDmaRange,
    /// Decoded frame layout.
    pub layout: AvdVp9FrameLayout,
    /// The frame header of the request.
    pub frame: Vp9FrameParams,
    /// The tiles in use.
    pub tiles: Vec<Vp9Tile>,
}

/// Tiles of a frame with the given numbers of columns and rows.
pub open spec fn tile_grid(frame: Vp9FrameParams) -> int {
    ((1usize << frame.tile_cols_log2) * (1usize << frame.tile_rows_log2)) as int
}

/// A tile is not empty and lies inside the input.
pub open spec fn tile_ok(tile: Vp9Tile, input_len: usize) -> bool {
    tile.size != 0 && tile.offset + tile.size <= input_len
}

/// The tile table fills the grid, and every tile in use is sound.
pub open spec fn tiles_ok(
    frame: Vp9FrameParams,
    tiles: Seq<Vp9Tile>,
    tile_count: u32,
    input_len: usize,
) -> bool {
    &&& tile_count != 0
    &&& tile_count == tile_grid(frame)
    &&& tile_count <= tiles.len()
    &&& forall|i: int| 0 <= i < tile_count ==> tile_ok(#[trigger] tiles[i], input_len)
}

fn validate_tiles(
    frame: &Vp9FrameParams,
    tiles: &Vec<Vp9Tile>,
    tile_count: u32,
    input_len: usize,
) -> (r: Result<(), Vp9FrontendError>)
    requires
        frame.tile_cols_log2 < usize::BITS,
        frame.tile_rows_log2 < usize::BITS,
        tile_grid(*frame) <= usize::MAX,
    ensures
        tiles_ok(*frame, tiles@, tile_count, input_len) ==> r is Ok,
        !tiles_ok(*frame, tiles@, tile_count, input_len) ==> r == Err::<(), _>(
            Vp9FrontendError::InvalidTiles,
        ),
{
    let cols: usize = 1usize << frame.tile_cols_log2;
    let rows: usize = 1usize << frame.tile_rows_log2;
    let expected: usize = cols * rows;
    let count: usize = tile_count as usize;
    if count == 0 || count != expected || count > tiles.len() {
        return Err(Vp9FrontendError::InvalidTiles);
    }
    let mut i: usize = 0;
    while i < count
        invariant
            i <= count <= tiles@.len(),
            count == tile_count,
            forall|k: int| 0 <= k < i ==> tile_ok(#[trigger] tiles@[k], input_len),
        decreases count - i,
    {
        let tile = tiles[i];
        let offset: usize = tile.offset as usize;
        let size: usize = tile.size as usize;
        let end: usize = match offset.checked_add(size) {
            Some(end) => end,
            None => {
                assert(!tile_ok(tiles@[i as int], input_len));
                return Err(Vp9FrontendError::InvalidTiles);
            },
        };
        if size == 0 || end > input_len {
            assert(!tile_ok(tiles@[i as int], input_len));
            return Err(Vp9FrontendError::InvalidTiles);
        }
        i = i + 1;
    }
    Ok(())
}

impl Vp9DecodeRequest {
    /// Build a decode request from stateless VP9 controls and DMA buffers.
    pub fn from_stateless(
        session_id: u64,
        frame_number: u32,
        params: &Vp9StatelessParams,
        input: AvdDmaRange,
        output: AvdDmaRange,
        layout: AvdVp9FrameLayout,
    ) -> (r: Result<Self, Vp9FrontendError>)
        requires
            layout.width != 0 && layout.height != 0 ==> {
                &&& params.frame.tile_cols_log2 < usize::BITS
                &&& params.frame.tile_rows_log2 < usize::BITS
                &&& tile_grid(params.frame) <= usize::MAX
            },
        ensures
            if layout.width == 0 || layout.height == 0 {
                r == Err::<Self, _>(Vp9FrontendError::InvalidDimensions)
            } else if !tiles_ok(params.frame, params.tiles@, params.tile_count, input.len) {
                r == Err::<Self, _>(Vp9FrontendError::InvalidTiles)
            } else {
                &&& r is Ok
                &&& r->Ok_0.session_id == session_id
                &&& r->Ok_0.frame_number == frame_number
                &&& r->Ok_0.input == input
                &&& r->Ok_0.output == output
                &&& r->Ok_0.layout == layout
                &&& r->Ok_0.frame == params.frame
                &&& r->Ok_0.tiles@ == params.tiles@.take(params.tile_count as int)
            },
    {
        if layout.width == 0 || layout.height == 0 {
            return Err(Vp9FrontendError::InvalidDimensions);
        }
        match validate_tiles(&params.frame, &params.tiles, params.tile_count, input.len) {
            Ok(()) => {},
            Err(error) => {
                return Err(error);
            },
        }
        let mut tiles: Vec<Vp9Tile> = Vec::new();
        let mut i: usize = 0;
        while i < params.tile_count as usize
            invariant
                i <= params.tile_count <= params.tiles@.len(),
                tiles@ == params.tiles@.take(i as int),
            decreases params.tile_count - i,
        {
            tiles.push(params.tiles[i]);
            assert(params.tiles@.take(i + 1) =~= params.tiles@.take(i as int).push(
                params.tiles@[i as int],
            ));
            i = i + 1;
        }
        Ok(
            Vp9DecodeRequest {
                session_id,
                frame_number,
                input,
                output,
                layout,
                frame: params.frame,
                tiles,
            },
        )
    }
}

/// AVD instruction stream produced from one VP9 frame.
pub struct AvdVp9InstructionStream {
    buffer: WordBuffer,
}

impl AvdVp9InstructionStream {
    /// Every word emitted so far.
    pub closed spec fn emitted(&self) -> Seq<u32> {
        self.buffer.emitted()
    }

    /// At most 4096 words are kept.
    pub closed spec fn wf(&self) -> bool {
        self.buffer.wf() && self.buffer.limit() == AVD_VP9_MAX_INSTRUCTION_WORDS
    }

    fn new() -> (r: Self)
        ensures
            r.wf(),
            r.emitted() == Seq::<u32>::empty(),
    {
        AvdVp9InstructionStream { buffer: WordBuffer::new(AVD_VP9_MAX_INSTRUCTION_WORDS) }
    }

    fn push_word(&mut self, value: u32)
        requires
            old(self).wf(),
        ensures
            final(self).wf(),
            final(self).emitted() == old(self).emitted().push(value),
    {
        self.buffer.push(value);
    }

    /// Return encoded instruction words: the first 4096 emitted.
    pub fn words(&self) -> (r: &[u32])
        requires
            self.wf(),
        ensures
            r@ == self.emitted().take(
                kept(self.emitted().len() as int, AVD_VP9_MAX_INSTRUCTION_WORDS as int),
            ),
    {
        self.buffer.words()
    }

    /// Copy this stream as little-endian words. It succeeds where no word was
    /// dropped and the bytes fit, and then leaves the rest of `dst` alone.
    pub fn write_le_bytes(&self, dst: &mut [u8]) -> (r: Result<usize, Vp9FrontendError>)
        requires
            self.wf(),
        ensures
            ({
                let all = self.emitted();
                if all.len() <= AVD_VP9_MAX_INSTRUCTION_WORDS && 4 * all.len() <= old(dst)@.len() {
                    &&& r == Ok::<usize, Vp9FrontendError>((4 * all.len()) as usize)
                    &&& final(dst)@ == le32_all(all) + old(dst)@.skip(4 * all.len() as int)
                } else {
                    &&& r == Err::<usize, _>(Vp9FrontendError::InstructionStreamTooLarge)
                    &&& final(dst)@ == old(dst)@
                }
            }),
    {
        match self.buffer.write_le_bytes(dst) {
            Some(byte_len) => Ok(byte_len),
            None => Err(Vp9FrontendError::InstructionStreamTooLarge),
        }
    }
}

/// Width and height minus one in two halves of a word.
pub open spec fn packed_dims(width: u32, height: u32) -> u32 {
    ((((height - 1) as u32) & 0xffff) << 16) | (((width - 1) as u32) & 0xffff)
}

fn pack_hw(width: u32, height: u32) -> (r: u32)
    requires
        width >= 1,
        height >= 1,
    ensures
        r == packed_dims(width, height),
{
    (((height - 1) & 0xffff) << 16) | ((width - 1) & 0xffff)
}

/// Line width in units of 16 bytes, at least 12.
pub open spec fn line_units(width: u32) -> u32 {
    let units = ((aligned_up(width as int, 64) as u32) >> 6) << 2;
    (if units >= 0xc {
        units
    } else {
        0xc
    }) & 0xffff
}

fn height_width_align(width: u32) -> (r: u32)
    requires
        width + 63 <= u32::MAX,
    ensures
        r == line_units(width),
{
    max_u32((align_up_u32(width, 64) >> 6) << 2, 0xc) & 0xffff
}

/// The first flag word of a frame.
pub open spec fn flags1(frame: Vp9FrameParams) -> u32 {
    let inter = !frame.key_frame;
    bit_if(0, true) | bit_if(14, !frame.error_resilient) | bit_if(15, frame.show_frame) | bit_if(
        19,
        inter,
    ) | bit_if(21, inter) | bit_if(
        16,
        inter && frame.interpolation_filter == Vp9InterpFilter::EightTap,
    ) | bit_if(17, inter && frame.interpolation_filter == Vp9InterpFilter::EightTapSharp) | bit_if(
        18,
        inter && frame.interpolation_filter == Vp9InterpFilter::Switchable,
    ) | bit_if(4, true) | bit_if(8, frame.refresh_frame_flags & 2 != 0) | bit_if(
        9,
        frame.refresh_frame_flags & 1 != 0,
    )
}

fn make_flags1(frame: &Vp9FrameParams) -> (r: u32)
    ensures
        r == flags1(*frame),
{
    let inter = !frame.key_frame;
    let filter = frame.interpolation_filter;
    bit(0, true) | bit(14, !frame.error_resilient) | bit(15, frame.show_frame) | bit(19, inter)
        | bit(21, inter) | bit(16, inter && matches!(filter, Vp9InterpFilter::EightTap)) | bit(
        17,
        inter && matches!(filter, Vp9InterpFilter::EightTapSharp),
    ) | bit(18, inter && matches!(filter, Vp9InterpFilter::Switchable)) | bit(4, true) | bit(
        8,
        frame.refresh_frame_flags & 2 != 0,
    ) | bit(9, frame.refresh_frame_flags & 1 != 0)
}

/// The transform mode word.
pub open spec fn transform_word(tx_mode: u8) -> u32 {
    let capped = if tx_mode <= VP9_TX_MODE_SELECT {
        tx_mode
    } else {
        VP9_TX_MODE_SELECT
    };
    0x0100_1800u32 | (((capped as u32) & 3) << 7) | bit_if(0, tx_mode == VP9_TX_MODE_SELECT)
}

/// An address in units of 256 bytes.
pub open spec fn unit256(addr: int) -> u32 {
    ((addr as u64) >> 8) as u32
}

/// An address in units of 128 bytes.
pub open spec fn unit128(addr: u64) -> u32 {
    (addr >> 7) as u32
}

/// Address of the interleaved chroma plane.
pub open spec fn vp9_uv_addr(request: Vp9DecodeRequest) -> int {
    request.output.dma_addr + request.layout.y_stride * request.layout.height
}

/// The words that describe the frame.
pub open spec fn frame_words(request: Vp9DecodeRequest, stream: Vp9StreamParameters) -> Seq<u32> {
    let dims = packed_dims(stream.width, stream.height);
    seq![
        0x2bff_f100u32 | ((request.frame_number % 7) * 0x10) as u32,
        if request.frame.key_frame {
            0x2db0_32e0u32
        } else {
            0x2db0_12e0u32
        },
        0x0200_0000,
        dims,
        0,
        dims,
        transform_word(request.frame.tx_mode),
        flags1(request.frame),
    ]
}

/// The scaling list, DMA configuration and tile memory words.
pub open spec fn memory_words(
    request: Vp9DecodeRequest,
    workspace: AvdVp9Workspace,
) -> Seq<u32> {
    let pps1 = workspace.pps1_tile_dma_addrs@[((request.frame_number / 128 + 1) % 8) as int];
    let a = (request.frame_number % 2) as int;
    seq![0u32, 0, 0, 0, 0, 0, 0, 0] + seq![
        0x0002_0000u32,
        0x0402_0002,
        0x0202_0202,
        0x240,
        unit256(workspace.probabilities_dma_addr as int),
        unit256(workspace.pps0_tile_dma_addr as int),
        unit256(pps1 as int),
        unit256(pps1 as int),
        unit256(workspace.pps2_tile_dma_addrs@[a] as int),
        unit256(workspace.pps2_tile_dma_addrs@[1 - a] as int),
        (request.frame.base_q_idx * 0x8000) as u32,
        0x0020_ffff,
        (request.frame.loop_filter_level * 0x4000) as u32,
    ]
}

/// The SPS tile addresses, the current picture and the output planes.
pub open spec fn picture_memory_words(
    request: Vp9DecodeRequest,
    stream: Vp9StreamParameters,
    workspace: AvdVp9Workspace,
) -> Seq<u32> {
    let sps = workspace.sps_tile_dma_addr;
    seq![
        0x0402_0002u32,
        0x0402_0002,
        0,
        unit256(sps as int),
        unit256(sps + 0x8000),
        0,
        unit256(sps + 0x18000),
        unit256(sps + 0x20000),
        unit256(sps + 0x30000),
        0x0007_0007,
        unit128(workspace.current_rvra_dma_addrs@[0]),
        unit128(workspace.current_rvra_dma_addrs@[1]),
        unit128(workspace.current_rvra_dma_addrs@[2]),
        unit128(workspace.current_rvra_dma_addrs@[3]),
        unit256(sps + 0x28000),
    ] + seq![
        unit256(request.output.dma_addr as int),
        line_units(stream.width),
        unit256(vp9_uv_addr(request)),
        line_units(stream.width),
        0u32,
        packed_dims(stream.width, stream.height),
    ]
}

/// Scratch addresses of a reference, zero where there is none.
pub open spec fn reference_rvra(reference: Option<AvdVp9ReferencePicture>, k: int) -> u64 {
    match reference {
        Some(picture) => picture.rvra_dma_addrs@[k],
        None => 0,
    }
}

/// The words of one reference picture.
pub open spec fn vp9_reference_words(
    dims: u32,
    reference: Option<AvdVp9ReferencePicture>,
) -> Seq<u32> {
    seq![
        0x0100_0000u32,
        dims,
        0x4000_4000,
        unit128(reference_rvra(reference, 0)),
        unit128(reference_rvra(reference, 1)),
        unit128(reference_rvra(reference, 2)),
        unit128(reference_rvra(reference, 3)),
    ]
}

/// The reference section of an inter frame: last, golden, alternate.
pub open spec fn vp9_reference_section(
    dims: u32,
    references: Seq<Option<AvdVp9ReferencePicture>>,
) -> Seq<u32> {
    seq![0x0007_0007u32, 0x0007_0007, 0x0007_0007] + vp9_reference_words(dims, references[0])
        + vp9_reference_words(dims, references[1]) + vp9_reference_words(dims, references[2])
}

/// Position of a tile: 1 for the only tile of a frame.
pub open spec fn tile_dims(tile: Vp9Tile, index: int, count: int) -> u32 {
    if count == 1 {
        1
    } else {
        ((index as u32) << 24) | ((((tile.row + 1) * 8 - 1) as u32) << 12) | (((tile.col + 1) * 4
            - 1) as u32)
    }
}

/// The words of one tile; the last one closes the instruction FIFO.
pub open spec fn tile_words(input: u64, tile: Vp9Tile, index: int, count: int) -> Seq<u32> {
    seq![
        0x2d80_0000u32,
        ((input + tile.offset) as u64) as u32,
        tile.size,
        0x2a00_0000u32 | ((index * 4) as u32),
        tile_dims(tile, index, count),
        if index + 1 == count {
            0x2b00_0400u32
        } else {
            0x2bff_f000u32
        },
    ]
}

/// The words of the first `n` tiles.
pub open spec fn tile_run(input: u64, tiles: Seq<Vp9Tile>, n: int) -> Seq<u32>
    decreases n,
{
    if n <= 0 {
        Seq::empty()
    } else {
        tile_run(input, tiles, n - 1) + tile_words(input, tiles[n - 1], n - 1, tiles.len() as int)
    }
}

/// The whole instruction stream of a frame.
pub open spec fn vp9_instruction_words(
    request: Vp9DecodeRequest,
    stream: Vp9StreamParameters,
    workspace: AvdVp9Workspace,
    references: Seq<Option<AvdVp9ReferencePicture>>,
) -> Seq<u32> {
    frame_words(request, stream) + memory_words(request, workspace) + picture_memory_words(
        request,
        stream,
        workspace,
    ) + (if request.frame.key_frame {
        Seq::empty()
    } else {
        vp9_reference_section(packed_dims(stream.width, stream.height), references)
    }) + tile_run(request.input.dma_addr, request.tiles@, request.tiles@.len() as int)
}

fn push(words: &mut AvdVp9InstructionStream, value: u32)
    requires
        old(words).wf(),
    ensures
        final(words).wf(),
        final(words).emitted() == old(words).emitted().push(value),
{
    words.push_word(value);
}

fn emit_frame(
    words: &mut AvdVp9InstructionStream,
    request: &Vp9DecodeRequest,
    stream: &Vp9StreamParameters,
)
    requires
        old(words).wf(),
        stream.width >= 1,
        stream.height >= 1,
    ensures
        final(words).wf(),
        final(words).emitted() == old(words).emitted() + frame_words(*request, *stream),
{
    let ghost start = words.emitted();
    let frame = &request.frame;
    let coded_hw: u32 = pack_hw(stream.width, stream.height);
    push(words, 0x2bff_f100 | ((request.frame_number % 7) * 0x10));
    push(
        words,
        if frame.key_frame {
            0x2db0_32e0
        } else {
            0x2db0_12e0
        },
    );
    push(words, 0x0200_0000);
    push(words, coded_hw);
    push(words, 0);
    push(words, coded_hw);
    let capped: u8 = if frame.tx_mode <= VP9_TX_MODE_SELECT {
        frame.tx_mode
    } else {
        VP9_TX_MODE_SELECT
    };
    push(
        words,
        0x0100_1800 | (((capped as u32) & 3) << 7) | bit(0, frame.tx_mode == VP9_TX_MODE_SELECT),
    );
    push(words, make_flags1(frame));
    assert(words.emitted() =~= start + frame_words(*request, *stream));
}

fn emit_memory(
    words: &mut AvdVp9InstructionStream,
    request: &Vp9DecodeRequest,
    workspace: &AvdVp9Workspace,
)
    requires
        old(words).wf(),
    ensures
        final(words).wf(),
        final(words).emitted() == old(words).emitted() + memory_words(*request, *workspace),
{
    let ghost start = words.emitted();
    let mut i: usize = 0;
    while i < 8
        invariant
            i <= 8,
            words.wf(),
            words.emitted() == start + Seq::new(i as nat, |k: int| 0u32),
        decreases 8 - i,
    {
        push(words, 0);
        assert(words.emitted() =~= start + Seq::new((i + 1) as nat, |k: int| 0u32));
        i = i + 1;
    }
    assert(words.emitted() =~= start + seq![0u32, 0, 0, 0, 0, 0, 0, 0]);
    let ghost mid = words.emitted();
    push(words, 0x0002_0000);
    push(words, 0x0402_0002);
    push(words, 0x0202_0202);
    push(words, 0x240);
    push(words, (workspace.probabilities_dma_addr >> 8) as u32);
    push(words, (workspace.pps0_tile_dma_addr >> 8) as u32);
    let pps1_index: usize = ((request.frame_number / 128 + 1) % 8) as usize;
    push(words, (workspace.pps1_tile_dma_addrs[pps1_index] >> 8) as u32);
    push(words, (workspace.pps1_tile_dma_addrs[pps1_index] >> 8) as u32);
    let pps2_a: usize = (request.frame_number % 2) as usize;
    let pps2_b: usize = 1 - pps2_a;
    push(words, (workspace.pps2_tile_dma_addrs[pps2_a] >> 8) as u32);
    push(words, (workspace.pps2_tile_dma_addrs[pps2_b] >> 8) as u32);
    push(words, (request.frame.base_q_idx as u32) * 0x8000);
    push(words, 0x0020_ffff);
    push(words, (request.frame.loop_filter_level as u32) * 0x4000);
    assert(words.emitted() =~= start + memory_words(*request, *workspace));
}

fn emit_picture_memory(
    words: &mut AvdVp9InstructionStream,
    request: &Vp9DecodeRequest,
    stream: &Vp9StreamParameters,
    workspace: &AvdVp9Workspace,
)
    requires
        old(words).wf(),
        1 <= stream.width <= u32::MAX - 63,
        stream.height >= 1,
        vp9_uv_addr(*request) <= u64::MAX,
        workspace.sps_tile_dma_addr + 0x30000 <= u64::MAX,
    ensures
        final(words).wf(),
        final(words).emitted() == old(words).emitted() + picture_memory_words(
            *request,
            *stream,
            *workspace,
        ),
{
    let ghost start = words.emitted();
    let sps: u64 = workspace.sps_tile_dma_addr;
    push(words, 0x0402_0002);
    push(words, 0x0402_0002);
    push(words, 0);
    push(words, (sps >> 8) as u32);
    push(words, ((sps + 0x8000) >> 8) as u32);
    push(words, 0);
    push(words, ((sps + 0x18000) >> 8) as u32);
    push(words, ((sps + 0x20000) >> 8) as u32);
    push(words, ((sps + 0x30000) >> 8) as u32);
    push(words, 0x0007_0007);
    push(words, (workspace.current_rvra_dma_addrs[0] >> 7) as u32);
    push(words, (workspace.current_rvra_dma_addrs[1] >> 7) as u32);
    push(words, (workspace.current_rvra_dma_addrs[2] >> 7) as u32);
    push(words, (workspace.current_rvra_dma_addrs[3] >> 7) as u32);
    push(words, ((sps + 0x28000) >> 8) as u32);
    let y_addr: u64 = request.output.dma_addr;
    assert(0 <= request.layout.y_stride * request.layout.height <= 0xffff_ffff * 0xffff_ffff)
        by (nonlinear_arith)
        requires
            0 <= request.layout.y_stride <= 0xffff_ffff,
            0 <= request.layout.height <= 0xffff_ffff,
    ;
    let uv_addr: u64 = y_addr + request.layout.y_stride as u64 * request.layout.height as u64;
    let units: u32 = height_width_align(stream.width);
    push(words, (y_addr >> 8) as u32);
    push(words, units);
    push(words, (uv_addr >> 8) as u32);
    push(words, units);
    push(words, 0);
    push(words, pack_hw(stream.width, stream.height));
    assert(words.emitted() =~= start + picture_memory_words(*request, *stream, *workspace));
}

fn push_reference(
    words: &mut AvdVp9InstructionStream,
    coded_hw: u32,
    reference: &Option<AvdVp9ReferencePicture>,
)
    requires
        old(words).wf(),
    ensures
        final(words).wf(),
        final(words).emitted() == old(words).emitted() + vp9_reference_words(coded_hw, *reference),
{
    let ghost start = words.emitted();
    push(words, 0x0100_0000);
    push(words, coded_hw);
    push(words, 0x4000_4000);
    let rvra = match reference {
        Some(picture) => picture.rvra_dma_addrs,
        None => [0u64, 0, 0, 0],
    };
    push(words, (rvra[0] >> 7) as u32);
    push(words, (rvra[1] >> 7) as u32);
    push(words, (rvra[2] >> 7) as u32);
    push(words, (rvra[3] >> 7) as u32);
    assert(words.emitted() =~= start + vp9_reference_words(coded_hw, *reference));
}

fn stream_refs(
    words: &mut AvdVp9InstructionStream,
    coded_hw: u32,
    references: &[Option<AvdVp9ReferencePicture>; 3],
)
    requires
        old(words).wf(),
    ensures
        final(words).wf(),
        final(words).emitted() == old(words).emitted() + vp9_reference_section(
            coded_hw,
            references@,
        ),
{
    let ghost start = words.emitted();
    push(words, 0x0007_0007);
    push(words, 0x0007_0007);
    push(words, 0x0007_0007);
    push_reference(words, coded_hw, &references[0]);
    push_reference(words, coded_hw, &references[1]);
    push_reference(words, coded_hw, &references[2]);
    assert(words.emitted() =~= start + vp9_reference_section(coded_hw, references@));
}

fn stream_tiles(words: &mut AvdVp9InstructionStream, request: &Vp9DecodeRequest)
    requires
        old(words).wf(),
        request.tiles@.len() <= 0x3fff_ffff,
        forall|i: int|
            0 <= i < request.tiles@.len() ==> request.input.dma_addr + (
            #[trigger] request.tiles@[i]).offset <= u64::MAX,
    ensures
        final(words).wf(),
        final(words).emitted() == old(words).emitted() + tile_run(
            request.input.dma_addr,
            request.tiles@,
            request.tiles@.len() as int,
        ),
{
    let ghost start = words.emitted();
    let tile_count: usize = request.tiles.len();
    let mut index: usize = 0;
    assert(words.emitted() =~= start + tile_run(request.input.dma_addr, request.tiles@, 0));
    while index < tile_count
        invariant
            index <= tile_count <= 0x3fff_ffff,
            tile_count == request.tiles@.len(),
            words.wf(),
            words.emitted() == start + tile_run(
                request.input.dma_addr,
                request.tiles@,
                index as int,
            ),
            forall|i: int|
                0 <= i < request.tiles@.len() ==> request.input.dma_addr + (
                #[trigger] request.tiles@[i]).offset <= u64::MAX,
        decreases tile_count - index,
    {
        let tile = request.tiles[index];
        let ghost before = words.emitted();
        let tile_addr: u64 = request.input.dma_addr + tile.offset as u64;
        push(words, 0x2d80_0000);
        push(words, tile_addr as u32);
        push(words, tile.size);
        push(words, 0x2a00_0000 | (index as u32 * 4));
        let dims: u32 = if tile_count == 1 {
            1
        } else {
            ((index as u32) << 24) | (((tile.row as u32 + 1) * 8 - 1) << 12) | ((tile.col as u32
                + 1) * 4 - 1)
        };
        push(words, dims);
        push(
            words,
            if index + 1 == tile_count {
                0x2b00_0400
            } else {
                0x2bff_f000
            },
        );
        proof {
            let more = tile_words(
                request.input.dma_addr,
                request.tiles@[index as int],
                index as int,
                tile_count as int,
            );
            assert(words.emitted() =~= before + more);
            assert(words.emitted() =~= start + tile_run(
                request.input.dma_addr,
                request.tiles@,
                index + 1,
            ));
        }
        index = index + 1;
    }
}

impl AvdVp9InstructionStream {
    /// Generate the AVD VP9 instruction stream of a frame.
    pub fn build(
        request: &Vp9DecodeRequest,
        stream: &Vp9StreamParameters,
        workspace: &AvdVp9Workspace,
        references: &[Option<AvdVp9ReferencePicture>; 3],
    ) -> (r: Self)
        requires
            1 <= stream.width <= u32::MAX - 63,
            stream.height >= 1,
            vp9_uv_addr(*request) <= u64::MAX,
            workspace.sps_tile_dma_addr + 0x30000 <= u64::MAX,
            request.tiles@.len() <= 0x3fff_ffff,
            forall|i: int|
                0 <= i < request.tiles@.len() ==> request.input.dma_addr + (
                #[trigger] request.tiles@[i]).offset <= u64::MAX,
        ensures
            r.wf(),
            r.emitted() == vp9_instruction_words(*request, *stream, *workspace, references@),
    {
        let mut words = Self::new();
        emit_frame(&mut words, request, stream);
        emit_memory(&mut words, request, workspace);
        emit_picture_memory(&mut words, request, stream, workspace);
        if !request.frame.key_frame {
            stream_refs(&mut words, pack_hw(stream.width, stream.height), references);
        }
        stream_tiles(&mut words, request);
        assert(words.emitted() =~= vp9_instruction_words(
            *request,
            *stream,
            *workspace,
            references@,
        ));
        words
    }
}

pub proof fn tile_run_len(input: u64, tiles: Seq<Vp9Tile>, n: int)
    requires
        n >= 0,
    ensures
        tile_run(input, tiles, n).len() == 6 * n,
    decreases n,
{
    if n > 0 {
        tile_run_len(input, tiles, n - 1);
    }
}

/// A key frame takes 50 words and 6 for each tile, an inter frame 24 more; so
/// the stream of any frame of up to 256 tiles fits its buffer.
pub proof fn vp9_stream_len(
    request: Vp9DecodeRequest,
    stream: Vp9StreamParameters,
    workspace: AvdVp9Workspace,
    references: Seq<Option<AvdVp9ReferencePicture>>,
)
    ensures
        vp9_instruction_words(request, stream, workspace, references).len() == (
        if request.frame.key_frame {
            50int
        } else {
            74int
        }) + 6 * request.tiles@.len(),
        request.tiles@.len() <= 256 ==> vp9_instruction_words(
            request,
            stream,
            workspace,
            references,
        ).len() <= AVD_VP9_MAX_INSTRUCTION_WORDS,
{
    tile_run_len(request.input.dma_addr, request.tiles@, request.tiles@.len() as int);
}

} // verus!
