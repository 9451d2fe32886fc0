//! The words that the video decoder finds for a frame of VP9, field by field.

use crate::arith::{aligned_up, aligned_up_is_least_multiple, bit_if};
use crate::avd::vp9::{
    flags1, frame_words, line_units, memory_words, packed_dims, picture_memory_words,
    tile_run, tile_run_len, tile_words, vp9_instruction_words,
    vp9_reference_section, vp9_reference_words, vp9_uv_addr, AvdVp9ReferencePicture,
    AvdVp9Workspace, Vp9DecodeRequest, Vp9FrameParams, Vp9InterpFilter, Vp9StreamParameters, Vp9Tile,
};
use crate::laws::h264::{address_words, one_if, size_words};
use vstd::prelude::*;

verus! {

/// Bit fields of the words, as numbers. The letters from `a` on are flags.
proof fn fields_in_numbers(
    x: u32,
    y: u32,
    z: u32,
    a: u32,
    b: u32,
    c: u32,
    d: u32,
    e: u32,
    f: u32,
    g: u32,
    h: u32,
    r: u8,
    l: u64,
)
    by (bit_vector)
    requires
        a < 2,
        b < 2,
        c < 2,
        d < 2,
        e < 2,
        f < 2,
        g < 2,
        h < 2,
    ensures
        ((1u32 << 0) | (a << 14) | (b << 15) | (c << 19) | (c << 21) | (d << 16) | (e << 17) | (f
            << 18) | (1u32 << 4) | (g << 8) | (h << 9) == 17 + 0x4000 * a + 0x8000 * b + 0x28_0000 * c
            + 0x1_0000 * d + 0x2_0000 * e + 0x4_0000 * f + 0x100 * g + 0x200 * h) && (0x0100_1800u32
            | ((x & 3) << 7) | (a << 0) == 0x0100_1800 + x % 4 * 128 + a) && (!(x < 256 && y < 4096
            && z < 4096) || (x << 24) | (y << 12) | z == 0x100_0000 * x + 0x1000 * y + z) && (!(x
            < 0x100_0000) || 0x2a00_0000u32 | x == 0x2a00_0000 + x) && (!(x < 7) || 0x2bff_f100u32 | (x
            * 0x10) as u32 == 0x2bff_f100 + 0x10 * x) && (!(x < 0x10_0000) || (x >> 6) << 2 == x / 64
            * 4) && (x & 0xffff == x % 0x1_0000) && ((r & 2 != 0) == (r / 2 % 2 == 1)) && ((r & 1 != 0)
            == (r % 2 == 1)) && (l as u32 == l % 0x1_0000_0000) && (0u32 << 0 == 0 && 0u32 << 8 == 0
            && 0u32 << 9 == 0 && 0u32 << 14 == 0 && 0u32 << 15 == 0 && 0u32 << 16 == 0 && 0u32 << 17
            == 0 && 0u32 << 18 == 0 && 0u32 << 19 == 0 && 0u32 << 21 == 0),
{
}

/// The flag word of a frame, bit for bit: error resilience (off) in 14, shown
/// in 15, the filter of an inter frame in 16 to 18, inter in 19 and 21, the
/// refreshed golden and last frames in 8 and 9.
pub proof fn flags_are_bits(frame: Vp9FrameParams)
    ensures
        ({
            let inter = !frame.key_frame;
            flags1(frame) == 17 + 0x4000 * one_if(!frame.error_resilient) + 0x8000 * one_if(
                frame.show_frame,
            ) + 0x28_0000 * one_if(inter) + 0x1_0000 * one_if(
                inter && frame.interpolation_filter == Vp9InterpFilter::EightTap,
            ) + 0x2_0000 * one_if(
                inter && frame.interpolation_filter == Vp9InterpFilter::EightTapSharp,
            ) + 0x4_0000 * one_if(
                inter && frame.interpolation_filter == Vp9InterpFilter::Switchable,
            ) + 0x100 * (frame.refresh_frame_flags / 2 % 2) + 0x200 * (frame.refresh_frame_flags % 2)
        }),
{
    let inter = !frame.key_frame;
    fields_in_numbers(
        0,
        0,
        0,
        one_if(!frame.error_resilient),
        one_if(frame.show_frame),
        one_if(inter),
        one_if(inter && frame.interpolation_filter == Vp9InterpFilter::EightTap),
        one_if(inter && frame.interpolation_filter == Vp9InterpFilter::EightTapSharp),
        one_if(inter && frame.interpolation_filter == Vp9InterpFilter::Switchable),
        one_if(frame.refresh_frame_flags & 2 != 0),
        one_if(frame.refresh_frame_flags & 1 != 0),
        frame.refresh_frame_flags,
        0,
    );
}

proof fn frame_numbers(n: u32, mode: u32, select: bool)
    ensures
        0x2bff_f100u32 | (n % 7 * 0x10) as u32 == 0x2bff_f100 + 0x10 * (n % 7),
        0x0100_1800u32 | ((mode & 3) << 7) | bit_if(0, select) == 0x0100_1800 + mode % 4 * 128
            + one_if(select),
{
    fields_in_numbers(n % 7, 0, 0, 0, 0, 0, 0, 0, 0, 0, 0, 0, 0);
    fields_in_numbers(mode, 0, 0, one_if(select), 0, 0, 0, 0, 0, 0, 0, 0, 0);
}

/// The first words of a frame: its place in a round of seven, whether it is a
/// key frame, its size twice, and its transform mode.
pub proof fn frames_describe_themselves(
    request: Vp9DecodeRequest,
    stream: Vp9StreamParameters,
    workspace: AvdVp9Workspace,
    references: Seq<Option<AvdVp9ReferencePicture>>,
)
    requires
        0 < stream.width <= 0x1_0000,
        0 < stream.height <= 0x1_0000,
        request.frame.tx_mode <= 4,
    ensures
        ({
            let w = vp9_instruction_words(request, stream, workspace, references);
            let dims = (stream.height - 1) * 0x1_0000 + (stream.width - 1);
            &&& w[0] == 0x2bff_f100 + 0x10 * (request.frame_number % 7)
            &&& w[1] == (if request.frame.key_frame {
                0x2db0_32e0int
            } else {
                0x2db0_12e0int
            })
            &&& w[2] == 0x0200_0000
            &&& w[3] == dims
            &&& w[4] == 0
            &&& w[5] == dims
            &&& w[6] == 0x0100_1800 + 128 * (request.frame.tx_mode % 4) + one_if(
                request.frame.tx_mode == 4,
            )
            &&& w[7] == flags1(request.frame)
            &&& w[26] == 0x8000 * request.frame.base_q_idx
            &&& w[27] == 0x0020_ffff
            &&& w[28] == 0x4000 * request.frame.loop_filter_level
            &&& w[49] == dims
        }),
{
    let w = vp9_instruction_words(request, stream, workspace, references);
    let head = frame_words(request, stream);
    let memory = memory_words(request, workspace);
    let picture = picture_memory_words(request, stream, workspace);
    front_in_place(request, stream, workspace, references);
    assert(w[0] == head[0] && w[1] == head[1] && w[2] == head[2] && w[3] == head[3] && w[4]
        == head[4] && w[5] == head[5] && w[6] == head[6] && w[7] == head[7]);
    assert(w[26] == memory[18] && w[27] == memory[19] && w[28] == memory[20]);
    assert(w[49] == picture[20]);
    size_words((stream.height - 1) as u32, (stream.width - 1) as u32);
    frame_numbers(request.frame_number, request.frame.tx_mode as u32, request.frame.tx_mode == 4);
}

/// Where the parts in front of the references lie.
proof fn front_in_place(
    request: Vp9DecodeRequest,
    stream: Vp9StreamParameters,
    workspace: AvdVp9Workspace,
    references: Seq<Option<AvdVp9ReferencePicture>>,
)
    ensures
        ({
            let w = vp9_instruction_words(request, stream, workspace, references);
            let head = frame_words(request, stream);
            let memory = memory_words(request, workspace);
            let picture = picture_memory_words(request, stream, workspace);
            &&& head.len() == 8
            &&& memory.len() == 21
            &&& picture.len() == 21
            &&& w.len() >= 50
            &&& forall|i: int| 0 <= i < 8 ==> #[trigger] head[i] == w[i]
            &&& forall|i: int| 0 <= i < 21 ==> #[trigger] memory[i] == w[8 + i]
            &&& forall|i: int| 0 <= i < 21 ==> #[trigger] picture[i] == w[29 + i]
        }),
{
}

proof fn line_numbers(width: u32)
    requires
        0 < width <= 0x8000,
    ensures
        line_units(width) == (if (width + 63) / 64 * 4 >= 12 {
            (width + 63) / 64 * 4
        } else {
            12
        }),
{
    let up = aligned_up(width as int, 64) as u32;
    aligned_up_is_least_multiple(width as int, 64);
    let units = (up >> 6) << 2;
    fields_in_numbers(up, 0, 0, 0, 0, 0, 0, 0, 0, 0, 0, 0, 0);
    fields_in_numbers(units, 0, 0, 0, 0, 0, 0, 0, 0, 0, 0, 0, 0);
    fields_in_numbers(0xc, 0, 0, 0, 0, 0, 0, 0, 0, 0, 0, 0, 0);
    assert(up / 64 == (width + 63) / 64);
}

/// The memories of a frame: probabilities, tiles and planes in units of 256
/// bytes, the four sections of its own reference in units of 128 bytes; the
/// first of eight tile memories changes every 128 frames, two others change
/// places with every frame.
pub proof fn frames_name_their_memory(
    request: Vp9DecodeRequest,
    stream: Vp9StreamParameters,
    workspace: AvdVp9Workspace,
    references: Seq<Option<AvdVp9ReferencePicture>>,
    j: int,
)
    requires
        0 < stream.width <= 0x8000,
        workspace.sps_tile_dma_addr + 0x30000 <= u64::MAX,
        request.output.dma_addr + request.layout.y_stride * request.layout.height <= u64::MAX,
        0 <= j < 4,
    ensures
        ({
            let w = vp9_instruction_words(request, stream, workspace, references);
            let n = request.frame_number as int;
            let ring = workspace.pps1_tile_dma_addrs@[(n / 128 + 1) % 8];
            let sps = workspace.sps_tile_dma_addr as int;
            let luma = request.output.dma_addr as int;
            let line = if (stream.width + 63) / 64 * 4 >= 12 {
                (stream.width + 63) / 64 * 4
            } else {
                12
            };
            &&& w[20] == workspace.probabilities_dma_addr / 256 % 0x1_0000_0000
            &&& w[21] == workspace.pps0_tile_dma_addr / 256 % 0x1_0000_0000
            &&& w[22] == ring / 256 % 0x1_0000_0000
            &&& w[23] == w[22]
            &&& w[24] == workspace.pps2_tile_dma_addrs@[n % 2] / 256 % 0x1_0000_0000
            &&& w[25] == workspace.pps2_tile_dma_addrs@[1 - n % 2] / 256 % 0x1_0000_0000
            &&& w[32] == sps / 256 % 0x1_0000_0000
            &&& w[33] == (sps + 0x8000) / 256 % 0x1_0000_0000
            &&& w[35] == (sps + 3 * 0x8000) / 256 % 0x1_0000_0000
            &&& w[36] == (sps + 4 * 0x8000) / 256 % 0x1_0000_0000
            &&& w[37] == (sps + 6 * 0x8000) / 256 % 0x1_0000_0000
            &&& w[39 + j] == workspace.current_rvra_dma_addrs@[j] / 128 % 0x1_0000_0000
            &&& w[43] == (sps + 5 * 0x8000) / 256 % 0x1_0000_0000
            &&& w[44] == luma / 256 % 0x1_0000_0000
            &&& w[45] == line
            &&& w[46] == (luma + request.layout.y_stride * request.layout.height) / 256
                % 0x1_0000_0000
            &&& w[47] == line
        }),
{
    let w = vp9_instruction_words(request, stream, workspace, references);
    let memory = memory_words(request, workspace);
    let picture = picture_memory_words(request, stream, workspace);
    front_in_place(request, stream, workspace, references);
    let n = request.frame_number;
    let ring = workspace.pps1_tile_dma_addrs@[((n / 128 + 1) % 8) as int];
    let sps = workspace.sps_tile_dma_addr;
    assert(w[20] == memory[12] && w[21] == memory[13] && w[22] == memory[14] && w[23] == memory[15]
        && w[24] == memory[16] && w[25] == memory[17]);
    assert(w[32] == picture[3] && w[33] == picture[4] && w[35] == picture[6] && w[36] == picture[7]
        && w[37] == picture[8] && w[39 + j] == picture[10 + j] && w[43] == picture[14]);
    assert(w[44] == picture[15] && w[45] == picture[16] && w[46] == picture[17] && w[47]
        == picture[18]);
    address_words(workspace.probabilities_dma_addr);
    address_words(workspace.pps0_tile_dma_addr);
    address_words(ring);
    address_words(workspace.pps2_tile_dma_addrs@[(n % 2) as int]);
    address_words(workspace.pps2_tile_dma_addrs@[1 - (n % 2) as int]);
    address_words(sps);
    address_words((sps + 0x8000) as u64);
    address_words((sps + 0x18000) as u64);
    address_words((sps + 0x20000) as u64);
    address_words((sps + 0x28000) as u64);
    address_words((sps + 0x30000) as u64);
    address_words(workspace.current_rvra_dma_addrs@[j]);
    address_words(request.output.dma_addr);
    address_words(vp9_uv_addr(request) as u64);
    line_numbers(stream.width);
}

/// An inter frame names the last, the golden and the alternate picture, each
/// by the size of the frame and its four sections, zero where there is none.
pub proof fn inter_frames_name_their_references(
    request: Vp9DecodeRequest,
    stream: Vp9StreamParameters,
    workspace: AvdVp9Workspace,
    references: Seq<Option<AvdVp9ReferencePicture>>,
    i: int,
    j: int,
)
    requires
        !request.frame.key_frame,
        references.len() == 3,
        0 < stream.width <= 0x1_0000,
        0 < stream.height <= 0x1_0000,
        0 <= i < 3,
        0 <= j < 4,
    ensures
        ({
            let w = vp9_instruction_words(request, stream, workspace, references);
            &&& w[53 + 7 * i] == 0x0100_0000
            &&& w[53 + 7 * i + 1] == (stream.height - 1) * 0x1_0000 + (stream.width - 1)
            &&& w[53 + 7 * i + 2] == 0x4000_4000
            &&& w[53 + 7 * i + 3 + j] == (match references[i] {
                Some(picture) => picture.rvra_dma_addrs@[j] / 128 % 0x1_0000_0000,
                None => 0,
            })
        }),
{
    let w = vp9_instruction_words(request, stream, workspace, references);
    let dims = packed_dims(stream.width, stream.height);
    let section = vp9_reference_section(dims, references);
    let words = vp9_reference_words(dims, references[i]);
    assert(frame_words(request, stream).len() == 8);
    assert(memory_words(request, workspace).len() == 21);
    assert(picture_memory_words(request, stream, workspace).len() == 21);
    assert(section.len() == 24);
    assert(section[3 + 7 * i] == words[0] && section[3 + 7 * i + 1] == words[1] && section[3 + 7 * i
        + 2] == words[2] && section[3 + 7 * i + 3 + j] == words[3 + j]);
    assert(w[53 + 7 * i] == section[3 + 7 * i]);
    assert(w[53 + 7 * i + 1] == section[3 + 7 * i + 1]);
    assert(w[53 + 7 * i + 2] == section[3 + 7 * i + 2]);
    assert(w[53 + 7 * i + 3 + j] == section[3 + 7 * i + 3 + j]);
    size_words((stream.height - 1) as u32, (stream.width - 1) as u32);
    address_words(
        match references[i] {
            Some(picture) => picture.rvra_dma_addrs@[j],
            None => 0,
        },
    );
}

proof fn run_in_place(input: u64, tiles: Seq<Vp9Tile>, n: int, i: int)
    requires
        0 <= i < n <= tiles.len(),
    ensures
        tile_run(input, tiles, n).len() == 6 * n,
        tile_run(input, tiles, n).subrange(6 * i, 6 * i + 6) == tile_words(
            input,
            tiles[i],
            i,
            tiles.len() as int,
        ),
    decreases n,
{
    tile_run_len(input, tiles, n);
    tile_run_len(input, tiles, n - 1);
    let run = tile_run(input, tiles, n);
    let front = tile_run(input, tiles, n - 1);
    if i == n - 1 {
        assert(run.subrange(6 * i, 6 * i + 6) =~= tile_words(input, tiles[i], i, tiles.len() as int));
    } else {
        run_in_place(input, tiles, n - 1, i);
        assert(run.subrange(6 * i, 6 * i + 6) =~= front.subrange(6 * i, 6 * i + 6));
    }
}

proof fn tile_numbers(addr: u64, i: u32, y: u32, x: u32)
    requires
        i < 256,
        y < 4096,
        x < 4096,
    ensures
        addr as u32 == addr % 0x1_0000_0000,
        0x2a00_0000u32 | ((i * 4) as u32) == 0x2a00_0000 + 4 * i,
        (i << 24) | (y << 12) | x == 0x100_0000 * i + 0x1000 * y + x,
{
    fields_in_numbers(i, y, x, 0, 0, 0, 0, 0, 0, 0, 0, 0, addr);
    fields_in_numbers((i * 4) as u32, 0, 0, 0, 0, 0, 0, 0, 0, 0, 0, 0, 0);
}

/// Each tile names its data and its place in the frame: six words, of which
/// the last one closes the frame behind the last tile.
pub proof fn tiles_are_listed(
    request: Vp9DecodeRequest,
    stream: Vp9StreamParameters,
    workspace: AvdVp9Workspace,
    references: Seq<Option<AvdVp9ReferencePicture>>,
    i: int,
)
    requires
        0 <= i < request.tiles@.len() <= 256,
        request.input.dma_addr + request.tiles@[i].offset <= u64::MAX,
        request.tiles@[i].row < 512,
        request.tiles@[i].col < 1024,
    ensures
        ({
            let w = vp9_instruction_words(request, stream, workspace, references);
            let k = if request.frame.key_frame {
                50 + 6 * i
            } else {
                74 + 6 * i
            };
            let tile = request.tiles@[i];
            let count = request.tiles@.len();
            &&& w[k] == 0x2d80_0000
            &&& w[k + 1] == (request.input.dma_addr + tile.offset) % 0x1_0000_0000
            &&& w[k + 2] == tile.size
            &&& w[k + 3] == 0x2a00_0000 + 4 * i
            &&& count == 1 ==> w[k + 4] == 1
            &&& count > 1 ==> w[k + 4] == 0x100_0000 * i + 0x1000 * (8 * tile.row + 7) + (4 * tile.col
                + 3)
            &&& w[k + 5] == (if i == count - 1 {
                0x2b00_0400int
            } else {
                0x2bff_f000int
            })
        }),
{
    let w = vp9_instruction_words(request, stream, workspace, references);
    let tiles = request.tiles@;
    let n = tiles.len() as int;
    let tile = tiles[i];
    run_in_place(request.input.dma_addr, tiles, n, i);
    let run = tile_run(request.input.dma_addr, tiles, n);
    let words = tile_words(request.input.dma_addr, tile, i, n);
    let part = run.subrange(6 * i, 6 * i + 6);
    let start = if request.frame.key_frame {
        50int
    } else {
        74int
    };
    assert(frame_words(request, stream).len() == 8);
    assert(memory_words(request, workspace).len() == 21);
    assert(picture_memory_words(request, stream, workspace).len() == 21);
    assert(w.len() == start + 6 * n);
    assert forall|c: int| 0 <= c < 6 implies w[start + 6 * i + c] == #[trigger] words[c] by {
        assert(part[c] == run[6 * i + c]);
        assert(w[start + 6 * i + c] == run[6 * i + c]);
    }
    assert(w[start + 6 * i] == words[0] && w[start + 6 * i + 1] == words[1] && w[start + 6 * i + 2]
        == words[2] && w[start + 6 * i + 3] == words[3] && w[start + 6 * i + 4] == words[4]
        && w[start + 6 * i + 5] == words[5]);
    tile_numbers(
        (request.input.dma_addr + tile.offset) as u64,
        i as u32,
        ((tile.row + 1) * 8 - 1) as u32,
        ((tile.col + 1) * 4 - 1) as u32,
    );
}

} // verus!
