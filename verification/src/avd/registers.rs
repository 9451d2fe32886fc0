//! The decoder's register block: power-up tables, coprocessor control and the
//! H.264 command path.

use crate::arith::ceil_div;
use crate::bus::{
    rd, reg, registers_after, registers_append, set_bits, wr, Bus, Mmio, Op, Until,
};
use vstd::prelude::*;

verus! {

pub const REG_TOP_GATE: usize = 0x1000000;

pub const REG_DART_TUNING0: usize = 0x1010060;

pub const REG_DART_TUNING1: usize = 0x1010068;

pub const REG_DART_TUNING2: usize = 0x101006c;

pub const REG_PIODMA_CONFIG: usize = 0x1070000;

pub const REG_PIODMA_BASE: usize = 0x1070024;

pub const REG_MCPU_CODE: usize = 0x1080000;

pub const REG_MCPU_SRAM: usize = 0x108c000;

pub const REG_DECODER_CONTROL_BASE: usize = 0x1100000;

pub const REG_MCPU_CONTROL: usize = 0x1098008;

pub const REG_MCPU_IRQ_ENABLE0: usize = 0x1098010;

pub const REG_MCPU_IRQ_ENABLE1: usize = 0x1098048;

pub const REG_MCPU_AP_ACK: usize = 0x1098050;

pub const REG_MAILBOX_AP_TO_CM3: usize = 0x1098054;

pub const REG_MCPU_AP_IRQ_CLEAR: usize = 0x109805c;

pub const REG_MAILBOX_CM3_TO_AP: usize = 0x1098064;

pub const REG_MCPU_CM3_ACK: usize = 0x1098068;

pub const REG_MCPU_CM3_IRQ_CLEAR: usize = 0x1098074;

pub const REG_MCPU_IRQ_ARM: usize = 0x109807c;

pub const REG_MCPU_IRQ_MASK: usize = 0x1098080;

pub const REG_MCPU_STATUS: usize = 0x1098090;

pub const REG_H264_INSTRUCTION: usize = 0x1104000;

pub const REG_H264_MODE: usize = 0x110400c;

pub const REG_H264_SUBMIT: usize = 0x1104014;

pub const REG_H264_COUNTER0: usize = 0x1104018;

pub const REG_H264_COUNTER1: usize = 0x110401c;

pub const REG_H264_COUNTER2: usize = 0x1104020;

pub const REG_H264_COUNTER3: usize = 0x1104024;

pub const REG_H264_COUNTER4: usize = 0x1104028;

pub const REG_H264_CONTROL0: usize = 0x1104034;

pub const REG_H264_CONTROL1: usize = 0x110403c;

pub const REG_H265_CONTROL: usize = 0x1104040;

pub const REG_H264_DMA_TRIGGER: usize = 0x1104048;

pub const REG_VP9_CONTROL: usize = 0x110404c;

pub const REG_H264_TIMEOUT: usize = 0x110405c;

pub const REG_H264_STATUS: usize = 0x1104060;

pub const REG_H264_STATUS_MASK: usize = 0x1104064;

pub const REG_H264_PIPE_SELECT: usize = 0x11040f4;

pub const REG_H264_PIPE_CONTROL: usize = 0x1104110;

pub const REG_AVD_DMA_CONFIG_BASE: usize = 0x108ee90;

pub const REG_AVD_DMA_BASE: usize = 0x110c000;

pub const REG_AVD_DMA_CTRL0: usize = 0x110c010;

pub const REG_AVD_DMA_CTRL1: usize = 0x110c018;

pub const REG_AVD_DMA_IRQ_CLEAR0: usize = 0x110cc90;

pub const REG_AVD_DMA_IRQ_CLEAR1: usize = 0x110cc94;

pub const REG_AVD_DMA_IRQ_CLEAR2: usize = 0x110ccd0;

pub const REG_AVD_DMA_IRQ_CLEAR3: usize = 0x110ccd4;

pub const REG_AVD_DMA_IRQ_CLEAR4: usize = 0x110cac8;

pub const REG_WRAP_CONTROL: usize = 0x1400000;

pub const REG_WRAP_IDLE: usize = 0x1400014;

pub const REG_WRAP_INIT: usize = 0x1400018;

pub const MCPU_CONTROL_RESET: u32 = 0xe;

pub const MCPU_CONTROL_RUN: u32 = 0x1;

pub const H264_SUBMIT_FRAME: u32 = 0x2b00_0107;

pub const H264_STATUS_DONE_MASK: u32 = 0x0084_2108;

pub const H264_STATUS_ERROR_MASK: u32 = 0x0000_0003;

/// Bytes of the coprocessor's code window.
pub const AVD_MCPU_CODE_BYTES: usize = 0xc000;

/// Bytes of the coprocessor's data window that are cleared. The mailbox and
/// control block begins right behind it, and clearing that would take the run
/// request back.
pub const AVD_MCPU_SRAM_BYTES: usize = 0xc000;

pub const AVD_MCPU_RUN_POLLS: u64 = 100;

pub const AVD_MCPU_RUN_POLL_US: u64 = 10;

/// DMA channel configuration for H.264.
pub const AVD_H264_DMA_CONFIG: [u32; 30] = [
    0x0402_0002,
    0x0002_0002,
    0x0402_0002,
    0x0402_0002,
    0x0402_0002,
    0x0007_0007,
    0x0007_0007,
    0x0007_0007,
    0x0007_0007,
    0x0007_0007,
    0x0402_0002,
    0x0002_0002,
    0x0402_0002,
    0x0402_0002,
    0x0402_0002,
    0x0007_0007,
    0x0007_0007,
    0x0007_0007,
    0x0007_0007,
    0x0007_0007,
    0x0402_0002,
    0x0202_0202,
    0x0402_0002,
    0x0402_0002,
    0x0402_0202,
    0x0007_0007,
    0x0007_0007,
    0x0007_0007,
    0x0007_0007,
    0x0007_0007,
];

/// DMA buffer assignments, as register offset and value.
pub const AVD_DMA_STAGE0: [(usize, u32); 45] = [
    (0x110c044, 0x0000_0040),
    (0x110c084, 0x0040_0040),
    (0x110c244, 0x0080_0034),
    (0x110c284, 0x0000_0018),
    (0x110c2c4, 0x00b4_0020),
    (0x110c3c4, 0x00d4_0030),
    (0x110c404, 0x0018_0014),
    (0x110c444, 0x0104_001c),
    (0x110c484, 0x002c_0014),
    (0x110c4c4, 0x0120_0014),
    (0x110c504, 0x0040_0018),
    (0x110c544, 0x0134_0024),
    (0x110c584, 0x0058_0014),
    (0x110c5c4, 0x0158_0014),
    (0x110c1c4, 0x006c_0048),
    (0x110c204, 0x00b4_0048),
    (0x110c384, 0x00fc_0038),
    (0x110c604, 0x0134_0030),
    (0x110c644, 0x016c_00b0),
    (0x110c684, 0x021c_00b0),
    (0x110c844, 0x0164_001c),
    (0x110c884, 0x02cc_0028),
    (0x110c744, 0x0180_0018),
    (0x110c784, 0x02f4_0020),
    (0x110c7c4, 0x0198_0018),
    (0x110c804, 0x0314_001c),
    (0x110c8c4, 0x01b0_0024),
    (0x110c904, 0x0330_0040),
    (0x110c944, 0x01d4_001c),
    (0x110c984, 0x0370_002c),
    (0x110c9c4, 0x01f0_0030),
    (0x110ca04, 0x039c_003c),
    (0x110ca44, 0x0220_0014),
    (0x110ca84, 0x03d8_0014),
    (0x110cb04, 0x0234_0014),
    (0x110cb44, 0x03ec_0014),
    (0x110cac4, 0x0248_0080),
    (0x110cc8c, 0x02c8_0014),
    (0x110cccc, 0x02dc_0014),
    (0x110cc88, 0x02f0_0060),
    (0x110ccc8, 0x0350_0054),
    (0x110cb84, 0x03a4_001c),
    (0x110cbc4, 0x0400_0040),
    (0x110cc04, 0x03c0_0040),
    (0x110cc44, 0x0440_00c0),
];

/// Power register settings, as register offset and value.
pub const AVD_PMGR_BOOT_WRITES: [(usize, u32); 22] = [
    (0x000, 0x11),
    (0x00c, 0x0d),
    (0x010, 0x0c),
    (0x014, 0x01),
    (0x018, 0x01),
    (0x01c, 0x03),
    (0x020, 0x03),
    (0x024, 0x03),
    (0x028, 0x03),
    (0x02c, 0x03),
    (0x108, 0x11),
    (0x10c, 0x0d),
    (0x110, 0x0c),
    (0x114, 0x01),
    (0x118, 0x01),
    (0x11c, 0x03),
    (0x120, 0x03),
    (0x124, 0x03),
    (0x128, 0x03),
    (0x12c, 0x03),
    (0x400, 0xc0f1_0010),
    (0xa00, 0x01ff_ffff),
];

/// Decoder control settings, as offset in the decoder control block and value.
pub const AVD_CTRL_BOOT_TUNABLES: [(usize, u32); 147] = [
    (0x0008, 0x8000_0000),
    (0x1000, 0x8000_0000),
    (0x1100, 0x8000_0000),
    (0x1200, 0x8000_0000),
    (0x1300, 0x8000_0000),
    (0x1400, 0x8000_0000),
    (0x1500, 0x8000_0000),
    (0x1600, 0x8000_0000),
    (0x1700, 0x8000_0000),
    (0x1800, 0x8000_0000),
    (0x4000, 0x8000_0000),
    (0x4100, 0x8000_0000),
    (0x4200, 0x8000_0000),
    (0x4300, 0x8000_0000),
    (0x4400, 0x8000_0000),
    (0x4500, 0x8000_0000),
    (0x4600, 0x8000_0000),
    (0xc000, 0x0000_0001),
    (0xc080, 0x8001_07ff),
    (0xc084, 0x0000_0028),
    (0xc0c0, 0x8001_07ff),
    (0xc0c4, 0x0028_0028),
    (0xc100, 0x8001_07ff),
    (0xc104, 0x0050_0028),
    (0xc140, 0x8001_07ff),
    (0xc144, 0x0078_0028),
    (0xc180, 0x8001_07ff),
    (0xc184, 0x0052_0028),
    (0xc1c0, 0x8001_07ff),
    (0xc1c4, 0x007a_0028),
    (0xc200, 0x8001_07ff),
    (0xc204, 0x00a2_0028),
    (0xc240, 0x8001_07ff),
    (0xc244, 0x00ca_0028),
    (0xc280, 0x8001_07ff),
    (0xc284, 0x00a0_0020),
    (0xc2c0, 0x8001_07ff),
    (0xc2c4, 0x00c0_0020),
    (0xc300, 0x8001_07ff),
    (0xc304, 0x00e0_0020),
    (0xc340, 0x8001_07ff),
    (0xc344, 0x0100_0020),
    (0xc380, 0x8001_07ff),
    (0xc384, 0x0000_000a),
    (0xc3c0, 0x8001_07ff),
    (0xc3c4, 0x000a_000a),
    (0xc400, 0x8001_07ff),
    (0xc404, 0x0014_000a),
    (0xc440, 0x8001_07ff),
    (0xc444, 0x001e_000a),
    (0xc480, 0x8001_07ff),
    (0xc484, 0x0120_000c),
    (0xc4c0, 0x8001_07ff),
    (0xc4c4, 0x012c_000c),
    (0xc500, 0x8001_07ff),
    (0xc504, 0x0138_000c),
    (0xc540, 0x8001_07ff),
    (0xc544, 0x0144_000c),
    (0xc580, 0x8001_07ff),
    (0xc584, 0x00f2_0020),
    (0xc5c0, 0x8001_07ff),
    (0xc5c4, 0x0112_0020),
    (0xc600, 0x8001_07ff),
    (0xc604, 0x0132_0020),
    (0xc640, 0x8001_07ff),
    (0xc644, 0x0152_0020),
    (0xc680, 0x8001_07ff),
    (0xc684, 0x0150_0018),
    (0xc6c0, 0x8001_07ff),
    (0xc6c4, 0x0028_000a),
    (0xc700, 0x8001_07ff),
    (0xc704, 0x0168_000e),
    (0xc740, 0x8001_07ff),
    (0xc744, 0x0032_000a),
    (0xc780, 0x8001_07ff),
    (0xc784, 0x0176_000a),
    (0xc7c0, 0x8001_07ff),
    (0xc7c4, 0x003c_000c),
    (0xc800, 0x8001_07ff),
    (0xc804, 0x0180_0012),
    (0xc840, 0x8001_07ff),
    (0xc844, 0x0048_000a),
    (0xc880, 0x8001_07ff),
    (0xc884, 0x0192_000a),
    (0xc8c0, 0x8001_07ff),
    (0xc8c4, 0x0172_0018),
    (0xc900, 0x8001_13ff),
    (0xc904, 0x019c_011c),
    (0xc940, 0x8001_13ff),
    (0xc944, 0x02b8_011c),
    (0xc980, 0x8001_13ff),
    (0xc984, 0x03d4_011c),
    (0xc9c0, 0x8001_13ff),
    (0xc9c4, 0x04f0_011c),
    (0xe000, 0x0000_0001),
    (0xe080, 0x8002_07ff),
    (0xe084, 0x0000_001c),
    (0xe0c0, 0x8002_07ff),
    (0xe0c4, 0x0000_002e),
    (0xe100, 0x8002_07ff),
    (0xe104, 0x001c_0054),
    (0xe140, 0x8002_07ff),
    (0xe144, 0x002e_009e),
    (0xe180, 0x8002_07ff),
    (0xe184, 0x0070_0016),
    (0xe1c0, 0x8002_07ff),
    (0xe1c4, 0x00cc_0022),
    (0xe200, 0x8002_07ff),
    (0xe204, 0x0086_0020),
    (0xe240, 0x8002_07ff),
    (0xe244, 0x00ee_0020),
    (0xe280, 0x8002_07ff),
    (0xe284, 0x00a6_000c),
    (0xe2c0, 0x8002_07ff),
    (0xe2c4, 0x010e_000c),
    (0xe300, 0x8002_3fff),
    (0xe304, 0x00c0_00cc),
    (0xe340, 0x8002_07ff),
    (0xe344, 0x00b6_000a),
    (0xe380, 0x8002_07ff),
    (0xe384, 0x011a_000a),
    (0xe3c0, 0x8002_07ff),
    (0xe3c4, 0x018c_0012),
    (0xe400, 0x8002_07ff),
    (0xe404, 0x0124_0020),
    (0xe440, 0x8002_07ff),
    (0xe444, 0x019e_0068),
    (0xe480, 0x8002_07ff),
    (0xe484, 0x0144_0060),
    (0xe4c0, 0x8003_4072),
    (0xe4c8, 0x021e_009e),
    (0xe4cc, 0x0206_000c),
    (0xe500, 0x8005_6072),
    (0xe508, 0x02bc_009e),
    (0xe50c, 0x0212_000c),
    (0xe540, 0x8002_07ff),
    (0xe544, 0x00b2_0004),
    (0xe800, 0x0000_0001),
    (0xe880, 0x8002_07ff),
    (0xe884, 0x0000_0016),
    (0xe8c0, 0x8002_07ff),
    (0xe8c4, 0x0000_0022),
    (0xe900, 0x8002_07ff),
    (0xe904, 0x0016_0022),
    (0xe940, 0x8002_07ff),
    (0xe944, 0x0022_003a),
    (0xe980, 0x8077_0003),
];

/// Wrapper bring-up, as register offset and value.
pub const AVD_WRAPPER_WRITES: [(usize, u32); 22] = [
    (REG_WRAP_IDLE, 1),
    (REG_WRAP_INIT, 1),
    (REG_DECODER_CONTROL_BASE + 0x14c, 0x14),
    (REG_DECODER_CONTROL_BASE + 0xe4d0, 0),
    (REG_DECODER_CONTROL_BASE + 0xe4d4, 0),
    (REG_DECODER_CONTROL_BASE + 0xe510, 0),
    (REG_DECODER_CONTROL_BASE + 0xe514, 0),
    (REG_DECODER_CONTROL_BASE + 0xe308, 0xffff_ffff),
    (REG_DECODER_CONTROL_BASE + 0xe300, 0x8002_3fff),
    (REG_DECODER_CONTROL_BASE + 0xc900, 0x8001_13ff),
    (REG_DECODER_CONTROL_BASE + 0xc940, 0x8001_13ff),
    (REG_DECODER_CONTROL_BASE + 0xc980, 0x8001_13ff),
    (REG_DECODER_CONTROL_BASE + 0xc9c0, 0x8001_13ff),
    (REG_PIODMA_CONFIG, 0),
    (REG_H264_STATUS_MASK, 0x3),
    (REG_AVD_DMA_IRQ_CLEAR0, 0xffff_ffff),
    (REG_AVD_DMA_IRQ_CLEAR1, 0xffff_ffff),
    (REG_AVD_DMA_IRQ_CLEAR2, 0xffff_ffff),
    (REG_AVD_DMA_IRQ_CLEAR3, 0xffff_ffff),
    (REG_AVD_DMA_IRQ_CLEAR4, 0xffff_ffff),
    (REG_PIODMA_BASE, 0x2690_7000),
    (REG_WRAP_IDLE, 0),
];

/// H.264 engine counters and controls, as register offset and value.
pub const AVD_ENGINE_WRITES: [(usize, u32); 10] = [
    (REG_H264_COUNTER0, 0x78),
    (REG_H264_COUNTER1, 0x78),
    (REG_H264_COUNTER2, 0x78),
    (REG_H264_COUNTER3, 0x78),
    (REG_H264_COUNTER4, 0x20),
    (REG_H264_CONTROL0, 0),
    (REG_H264_CONTROL1, 0),
    (REG_H265_CONTROL, 0),
    (REG_H264_DMA_TRIGGER, 0),
    (REG_VP9_CONTROL, 0),
];

/// Writes of a table of offsets and values, in order.
pub open spec fn table_ops(base: usize, shift: int, table: Seq<(usize, u32)>) -> Seq<Op> {
    Seq::new(table.len(), |i: int| wr(base, shift + table[i].0, table[i].1))
}

/// Every offset of a table lies below a limit.
pub open spec fn table_below(table: Seq<(usize, u32)>, limit: int) -> bool {
    forall|i: int| 0 <= i < table.len() ==> (#[trigger] table[i]).0 < limit
}

/// Writes of consecutive words.
pub open spec fn word_run_ops(base: usize, offset: int, words: Seq<u32>) -> Seq<Op> {
    Seq::new(words.len(), |i: int| wr(base, offset + 4 * i, words[i]))
}

/// A byte, or zero behind the end.
pub open spec fn byte_or_zero(bytes: Seq<u8>, i: int) -> int {
    if i < bytes.len() {
        bytes[i] as int
    } else {
        0
    }
}

/// A little-endian word of a buffer that is filled up with zeros.
pub open spec fn padded_word(bytes: Seq<u8>, at: int) -> u32 {
    (byte_or_zero(bytes, at) + 256 * byte_or_zero(bytes, at + 1) + 65536 * byte_or_zero(
        bytes,
        at + 2,
    ) + 16777216 * byte_or_zero(bytes, at + 3)) as u32
}

/// The words of a buffer that is filled up with zeros to whole words.
pub open spec fn padded_words(bytes: Seq<u8>) -> Seq<u32> {
    Seq::new(ceil_div(bytes.len() as int, 4) as nat, |i: int| padded_word(bytes, 4 * i))
}

/// As many zero words as cover a length.
pub open spec fn zero_words(len: int) -> Seq<u32> {
    Seq::new(ceil_div(len, 4) as nat, |i: int| 0u32)
}

/// Both interrupt enable registers written.
pub open spec fn irq_enable_ops(base: usize, first: u32, second: u32) -> Seq<Op> {
    seq![wr(base, 0x1098010, first), wr(base, 0x1098048, second)]
}

/// The coprocessor held in reset with its interrupts masked.
pub open spec fn hold_ops(base: usize) -> Seq<Op> {
    seq![wr(base, 0x1098008, 0xe)] + irq_enable_ops(base, 0, 0)
}

/// The coprocessor released. `running` tells whether it reported to run.
#[verifier::opaque]
pub open spec fn run_ops(base: usize, running: bool) -> Seq<Op> {
    hold_ops(base) + irq_enable_ops(base, 0, 0) + seq![
        wr(base, 0x1098050, 1),
        wr(base, 0x1098068, 1),
        wr(base, 0x109805c, 1),
        wr(base, 0x1098074, 1),
    ] + irq_enable_ops(base, 2, 8) + seq![
        Op::Fence,
        wr(base, 0x1098008, 1),
        Op::Fence,
        Op::Poll {
            addr: reg(base, 0x1098090),
            mask: 1,
            until: Until::Equal,
            tries: 100,
            step_us: 10,
            hit: running,
        },
        wr(base, 0x1400014, 0),
    ]
}

/// The receive mailbox emptied and acknowledged.
pub open spec fn clear_mailbox_ops(base: usize) -> Seq<Op> {
    seq![wr(base, 0x1098064, 0), wr(base, 0x1098068, 1), Op::Fence]
}

/// Both coprocessor windows filled with zeros.
pub open spec fn clear_windows_ops(base: usize) -> Seq<Op> {
    word_run_ops(base, 0x1080000, zero_words(0xc000)) + word_run_ops(
        base,
        0x108c000,
        zero_words(0xc000),
    )
}

/// A firmware image placed in the code window, the rest of both windows zero.
#[verifier::opaque]
pub open spec fn stage_ops(base: usize, image: Seq<u8>) -> Seq<Op> {
    clear_windows_ops(base) + word_run_ops(base, 0x1080000, padded_words(image)) + seq![Op::Fence]
}

/// The decoder's sub-blocks switched on.
pub open spec fn block_enable_ops(base: usize) -> Seq<Op> {
    Seq::new(12, |i: int| wr(base, 0x1100000 + 0x1000 * i, 0xc000_0000))
}

/// The DMA channels switched on.
pub open spec fn channel_enable_ops(base: usize) -> Seq<Op> {
    Seq::new(50, |i: int| set_bits(base, 0x110c000 + 0x40 * (i + 1), 0xc000_0000))
}

/// First stage of the DMA bring-up.
pub open spec fn dma_stage0_ops(base: usize) -> Seq<Op> {
    seq![
        wr(base, 0x1070024, 0x2690_7000),
        wr(base, 0x1400000, 3),
        wr(base, 0x1104000, 0),
        wr(base, 0x110405c, 0),
        wr(base, 0x1104110, 0),
        wr(base, 0x11040f4, 0x1555),
    ] + block_enable_ops(base) + seq![wr(base, 0x110c010, 1), wr(base, 0x110c018, 1)]
        + channel_enable_ops(base) + seq![set_bits(base, 0x110cd00, 0xc000_0003)] + table_ops(
        base,
        0,
        AVD_DMA_STAGE0@,
    ) + seq![
        set_bits(base, 0x110405c, 0x0050_0000),
        wr(base, 0x109807c, 1),
        wr(base, 0x1098080, 0xffff_ffff),
    ]
}

/// DMA translation tuning.
pub open spec fn dart_tuning_ops(base: usize) -> Seq<Op> {
    seq![
        wr(base, 0x1010060, 0x8001_6100),
        wr(base, 0x1010068, 0x000f_0f0f),
        wr(base, 0x101006c, 0x0008_0808),
    ]
}

/// The whole hardware bring-up.
#[verifier::opaque]
pub open spec fn init_ops(base: usize) -> Seq<Op> {
    table_ops(base, 0, AVD_PMGR_BOOT_WRITES@) + seq![wr(base, 0x1000000, 0xfff)] + dart_tuning_ops(
        base,
    ) + clear_windows_ops(base) + table_ops(base, 0x1100000, AVD_CTRL_BOOT_TUNABLES@) + table_ops(
        base,
        0,
        AVD_WRAPPER_WRITES@,
    ) + dma_stage0_ops(base)
}

/// The H.264 engine brought to its defaults.
pub open spec fn engine_ops(base: usize) -> Seq<Op> {
    table_ops(base, 0, AVD_ENGINE_WRITES@) + seq![
        set_bits(base, 0x110405c, 0x0050_0000),
        wr(base, 0x1104064, 3),
    ] + word_run_ops(base, 0x108ee90, AVD_H264_DMA_CONFIG@)
}

/// Instruction words fed to the H.264 engine.
pub open spec fn instruction_ops(base: usize, words: Seq<u32>) -> Seq<Op> {
    Seq::new(words.len(), |i: int| wr(base, 0x110400c, words[i]))
}

/// Snapshot of the decoder's status registers.
#[derive(Clone, Copy, Debug, PartialEq, Eq, Structural)]
pub struct AvdStatusSnapshot {
    /// Coprocessor status register.
    pub status: u32,
    /// Interrupt status register.
    pub irq_status: u32,
    /// Mailbox status bits.
    pub mailbox: u32,
}

/// The coprocessor did not report to run.
#[derive(Clone, Copy, Debug, PartialEq, Eq, Structural)]
pub struct RunTimeout;

/// The register block of a decoder.
#[derive(Clone, Copy, Debug, PartialEq, Eq, Structural)]
pub struct AvdRegisters {
    pub base: usize,
}

proof fn tables_are_in_range()
    ensures
        table_below(AVD_DMA_STAGE0@, 0x1500000),
        table_below(AVD_PMGR_BOOT_WRITES@, 0x1500000),
        table_below(AVD_CTRL_BOOT_TUNABLES@, 0x100000),
        table_below(AVD_WRAPPER_WRITES@, 0x1500000),
        table_below(AVD_ENGINE_WRITES@, 0x1500000),
{
}

impl AvdRegisters {
    /// All registers lie in the address space.
    pub open spec fn wf(&self) -> bool {
        self.base + 0x1500000 <= usize::MAX
    }

    pub fn new(base: usize) -> (r: Self)
        ensures
            r.base == base,
    {
        AvdRegisters { base }
    }

    fn read32<M: Mmio>(&self, bus: &mut Bus<M>, offset: usize) -> (value: u32)
        requires
            self.wf(),
            offset < 0x1500000,
        ensures
            final(bus).ops() == old(bus).ops().push(rd(self.base, offset as int, value)),
    {
        bus.read32(self.base + offset)
    }

    fn write32<M: Mmio>(&self, bus: &mut Bus<M>, offset: usize, value: u32)
        requires
            self.wf(),
            offset < 0x1500000,
        ensures
            final(bus).ops() == old(bus).ops().push(wr(self.base, offset as int, value)),
    {
        bus.write32(self.base + offset, value)
    }

    fn set32<M: Mmio>(&self, bus: &mut Bus<M>, offset: usize, bits: u32)
        requires
            self.wf(),
            offset < 0x1500000,
        ensures
            final(bus).ops() == old(bus).ops().push(set_bits(self.base, offset as int, bits)),
    {
        bus.set32(self.base + offset, bits)
    }

    fn write_table<M: Mmio>(&self, bus: &mut Bus<M>, shift: usize, table: &[(usize, u32)])
        requires
            self.wf(),
            shift <= 0x1500000,
            table_below(table@, 0x1500000 - shift),
        ensures
            final(bus).ops() == old(bus).ops() + table_ops(self.base, shift as int, table@),
    {
        let ghost start = bus.ops();
        let ghost all = table_ops(self.base, shift as int, table@);
        let mut i: usize = 0;
        while i < table.len()
            invariant
                i <= table@.len(),
                self.wf(),
                shift <= 0x1500000,
                table_below(table@, 0x1500000 - shift),
                all == table_ops(self.base, shift as int, table@),
                bus.ops() == start + all.take(i as int),
            decreases table@.len() - i,
        {
            let (offset, value) = table[i];
            assert(table@[i as int].0 < 0x1500000 - shift);
            self.write32(bus, shift + offset, value);
            assert(bus.ops() =~= start + all.take(i + 1));
            i = i + 1;
        }
        assert(all.take(all.len() as int) =~= all);
    }

    /// Writes consecutive words.
    fn write_words<M: Mmio>(&self, bus: &mut Bus<M>, offset: usize, words: &[u32])
        requires
            self.wf(),
            offset + 4 * words@.len() <= 0x1500000,
        ensures
            final(bus).ops() == old(bus).ops() + word_run_ops(self.base, offset as int, words@),
    {
        let ghost start = bus.ops();
        let ghost all = word_run_ops(self.base, offset as int, words@);
        let mut i: usize = 0;
        while i < words.len()
            invariant
                i <= words@.len(),
                self.wf(),
                offset + 4 * words@.len() <= 0x1500000,
                all == word_run_ops(self.base, offset as int, words@),
                bus.ops() == start + all.take(i as int),
            decreases words@.len() - i,
        {
            self.write32(bus, offset + 4 * i, words[i]);
            assert(bus.ops() =~= start + all.take(i + 1));
            i = i + 1;
        }
        assert(all.take(all.len() as int) =~= all);
    }

    /// The coprocessor status register.
    pub fn status<M: Mmio>(&self, bus: &mut Bus<M>) -> (value: u32)
        requires
            self.wf(),
        ensures
            final(bus).ops() == old(bus).ops().push(rd(self.base, 0x1098090, value)),
    {
        self.read32(bus, REG_MCPU_STATUS)
    }

    pub fn irq_status<M: Mmio>(&self, bus: &mut Bus<M>) -> (value: u32)
        requires
            self.wf(),
        ensures
            final(bus).ops() == old(bus).ops().push(rd(self.base, 0x1098048, value)),
    {
        self.read32(bus, REG_MCPU_IRQ_ENABLE1)
    }

    pub fn mask_irqs<M: Mmio>(&self, bus: &mut Bus<M>)
        requires
            self.wf(),
        ensures
            final(bus).ops() == old(bus).ops() + irq_enable_ops(self.base, 0, 0),
    {
        let ghost start = bus.ops();
        self.write32(bus, REG_MCPU_IRQ_ENABLE0, 0);
        self.write32(bus, REG_MCPU_IRQ_ENABLE1, 0);
        assert(bus.ops() =~= start + irq_enable_ops(self.base, 0, 0));
    }

    pub fn enable_irqs<M: Mmio>(&self, bus: &mut Bus<M>)
        requires
            self.wf(),
        ensures
            final(bus).ops() == old(bus).ops() + irq_enable_ops(self.base, 2, 8),
    {
        let ghost start = bus.ops();
        self.write32(bus, REG_MCPU_IRQ_ENABLE0, 0x2);
        self.write32(bus, REG_MCPU_IRQ_ENABLE1, 0x8);
        assert(bus.ops() =~= start + irq_enable_ops(self.base, 2, 8));
    }

    pub fn hold_cm3_in_reset<M: Mmio>(&self, bus: &mut Bus<M>)
        requires
            self.wf(),
        ensures
            final(bus).ops() == old(bus).ops() + hold_ops(self.base),
    {
        let ghost start = bus.ops();
        self.write32(bus, REG_MCPU_CONTROL, MCPU_CONTROL_RESET);
        self.mask_irqs(bus);
        assert(bus.ops() =~= start + hold_ops(self.base));
    }

    /// Releases the coprocessor and waits until it reports to run.
    pub fn run_cm3<M: Mmio>(&self, bus: &mut Bus<M>) -> (r: Result<(), RunTimeout>)
        requires
            self.wf(),
        ensures
            final(bus).ops() == old(bus).ops() + run_ops(self.base, r is Ok),
    {
        let ghost start = bus.ops();
        self.write32(bus, REG_MCPU_CONTROL, MCPU_CONTROL_RESET);
        self.mask_irqs(bus);
        self.mask_irqs(bus);
        self.write32(bus, REG_MCPU_AP_ACK, 1);
        self.write32(bus, REG_MCPU_CM3_ACK, 1);
        self.write32(bus, REG_MCPU_AP_IRQ_CLEAR, 1);
        self.write32(bus, REG_MCPU_CM3_IRQ_CLEAR, 1);
        self.enable_irqs(bus);
        bus.barrier();
        self.write32(bus, REG_MCPU_CONTROL, MCPU_CONTROL_RUN);
        bus.barrier();
        let running = bus.poll32(
            self.base + REG_MCPU_STATUS,
            1,
            Until::Equal,
            AVD_MCPU_RUN_POLLS,
            AVD_MCPU_RUN_POLL_US,
        );
        self.write32(bus, REG_WRAP_IDLE, 0);
        proof {
            reveal(run_ops);
            assert(bus.ops() =~= start + run_ops(self.base, running));
        }
        if running {
            Ok(())
        } else {
            Err(RunTimeout)
        }
    }

    /// Brings the decoder's hardware up.
    pub fn init_hardware<M: Mmio>(&self, bus: &mut Bus<M>)
        requires
            self.wf(),
        ensures
            final(bus).ops() == old(bus).ops() + init_ops(self.base),
    {
        proof {
            tables_are_in_range();
        }
        let ghost start = bus.ops();
        self.write_table(bus, 0, &AVD_PMGR_BOOT_WRITES);
        self.write32(bus, REG_TOP_GATE, 0xfff);
        self.init_dart_tuning(bus);
        self.clear_windows(bus);
        self.write_table(bus, REG_DECODER_CONTROL_BASE, &AVD_CTRL_BOOT_TUNABLES);
        self.write_table(bus, 0, &AVD_WRAPPER_WRITES);
        self.init_dma_stage0(bus);
        proof {
            reveal(init_ops);
            assert(bus.ops() =~= start + init_ops(self.base));
        }
    }

    fn init_dart_tuning<M: Mmio>(&self, bus: &mut Bus<M>)
        requires
            self.wf(),
        ensures
            final(bus).ops() == old(bus).ops() + dart_tuning_ops(self.base),
    {
        let ghost start = bus.ops();
        self.write32(bus, REG_DART_TUNING0, 0x8001_6100);
        self.write32(bus, REG_DART_TUNING1, 0x000f_0f0f);
        self.write32(bus, REG_DART_TUNING2, 0x0008_0808);
        assert(bus.ops() =~= start + dart_tuning_ops(self.base));
    }

    fn clear_window<M: Mmio>(&self, bus: &mut Bus<M>, offset: usize, len: usize)
        requires
            self.wf(),
            offset + len <= 0x1400000,
        ensures
            final(bus).ops() == old(bus).ops() + word_run_ops(
                self.base,
                offset as int,
                zero_words(len as int),
            ),
    {
        let ghost start = bus.ops();
        let ghost all = word_run_ops(self.base, offset as int, zero_words(len as int));
        let mut at: usize = 0;
        while at < len
            invariant
                at % 4 == 0,
                at < len + 4,
                at / 4 <= ceil_div(len as int, 4),
                self.wf(),
                offset + len <= 0x1400000,
                all == word_run_ops(self.base, offset as int, zero_words(len as int)),
                bus.ops() == start + all.take(at as int / 4),
            decreases len + 4 - at,
        {
            self.write32(bus, offset + at, 0);
            assert(bus.ops() =~= start + all.take((at + 4) as int / 4));
            at = at + 4;
        }
        assert(all.take(all.len() as int) =~= all);
    }

    fn clear_windows<M: Mmio>(&self, bus: &mut Bus<M>)
        requires
            self.wf(),
        ensures
            final(bus).ops() == old(bus).ops() + clear_windows_ops(self.base),
    {
        let ghost start = bus.ops();
        self.clear_window(bus, REG_MCPU_CODE, AVD_MCPU_CODE_BYTES);
        self.clear_window(bus, REG_MCPU_SRAM, AVD_MCPU_SRAM_BYTES);
        assert(bus.ops() =~= start + clear_windows_ops(self.base));
    }

    fn write_buffer<M: Mmio>(&self, bus: &mut Bus<M>, offset: usize, bytes: &[u8])
        requires
            self.wf(),
            offset + bytes@.len() <= 0x1400000,
        ensures
            final(bus).ops() == old(bus).ops() + word_run_ops(
                self.base,
                offset as int,
                padded_words(bytes@),
            ),
    {
        let ghost start = bus.ops();
        let ghost all = word_run_ops(self.base, offset as int, padded_words(bytes@));
        let len: usize = bytes.len();
        let mut at: usize = 0;
        while at < len
            invariant
                len == bytes@.len(),
                at % 4 == 0,
                at < len + 4,
                at / 4 <= ceil_div(len as int, 4),
                self.wf(),
                offset + len <= 0x1400000,
                all == word_run_ops(self.base, offset as int, padded_words(bytes@)),
                bus.ops() == start + all.take(at as int / 4),
            decreases len + 4 - at,
        {
            let word: u32 = word_with_padding(bytes, at);
            self.write32(bus, offset + at, word);
            assert(padded_words(bytes@)[at as int / 4] == word);
            assert(bus.ops() =~= start + all.take((at + 4) as int / 4));
            at = at + 4;
        }
        assert(all.take(all.len() as int) =~= all);
    }

    /// Places a firmware image in the code window; a larger one is refused.
    pub fn stage_firmware_image<M: Mmio>(&self, bus: &mut Bus<M>, image: &[u8]) -> (staged: bool)
        requires
            self.wf(),
        ensures
            staged == (image@.len() <= 0xc000),
            final(bus).ops() == if staged {
                old(bus).ops() + stage_ops(self.base, image@)
            } else {
                old(bus).ops()
            },
    {
        if image.len() > AVD_MCPU_CODE_BYTES {
            return false;
        }
        let ghost start = bus.ops();
        self.clear_windows(bus);
        self.write_buffer(bus, REG_MCPU_CODE, image);
        bus.barrier();
        proof {
            reveal(stage_ops);
            assert(bus.ops() =~= start + stage_ops(self.base, image@));
        }
        true
    }

    pub fn send_mailbox<M: Mmio>(&self, bus: &mut Bus<M>, value: u32)
        requires
            self.wf(),
        ensures
            final(bus).ops() == old(bus).ops().push(wr(self.base, 0x1098054, value)),
    {
        self.write32(bus, REG_MAILBOX_AP_TO_CM3, value);
    }

    pub fn recv_mailbox<M: Mmio>(&self, bus: &mut Bus<M>) -> (value: u32)
        requires
            self.wf(),
        ensures
            final(bus).ops() == old(bus).ops().push(rd(self.base, 0x1098064, value)),
    {
        self.read32(bus, REG_MAILBOX_CM3_TO_AP)
    }

    pub fn recv_mailbox_status<M: Mmio>(&self, bus: &mut Bus<M>) -> (value: u32)
        requires
            self.wf(),
        ensures
            final(bus).ops() == old(bus).ops().push(rd(self.base, 0x109805c, value)),
    {
        self.read32(bus, REG_MCPU_AP_IRQ_CLEAR)
    }

    pub fn clear_recv_mailbox<M: Mmio>(&self, bus: &mut Bus<M>)
        requires
            self.wf(),
        ensures
            final(bus).ops() == old(bus).ops() + clear_mailbox_ops(self.base),
    {
        let ghost start = bus.ops();
        self.write32(bus, REG_MAILBOX_CM3_TO_AP, 0);
        self.write32(bus, REG_MCPU_CM3_ACK, 1);
        bus.barrier();
        assert(bus.ops() =~= start + clear_mailbox_ops(self.base));
    }

    /// Status, interrupt status and mailbox status, read in this order.
    pub fn snapshot<M: Mmio>(&self, bus: &mut Bus<M>) -> (r: AvdStatusSnapshot)
        requires
            self.wf(),
        ensures
            final(bus).ops() == old(bus).ops() + seq![
                rd(self.base, 0x1098090, r.status),
                rd(self.base, 0x1098048, r.irq_status),
                rd(self.base, 0x109805c, r.mailbox),
            ],
    {
        let ghost start = bus.ops();
        let status: u32 = self.status(bus);
        let irq_status: u32 = self.irq_status(bus);
        let mailbox: u32 = self.recv_mailbox_status(bus);
        assert(bus.ops() =~= start + seq![
            rd(self.base, 0x1098090, status),
            rd(self.base, 0x1098048, irq_status),
            rd(self.base, 0x109805c, mailbox),
        ]);
        AvdStatusSnapshot { status, irq_status, mailbox }
    }

    /// Brings the H.264 engine to its defaults.
    pub fn init_h264_engine<M: Mmio>(&self, bus: &mut Bus<M>)
        requires
            self.wf(),
        ensures
            final(bus).ops() == old(bus).ops() + engine_ops(self.base),
    {
        proof {
            tables_are_in_range();
        }
        let ghost start = bus.ops();
        self.write_table(bus, 0, &AVD_ENGINE_WRITES);
        self.set32(bus, REG_H264_TIMEOUT, 0x0050_0000);
        self.write32(bus, REG_H264_STATUS_MASK, 0x3);
        self.write_words(bus, REG_AVD_DMA_CONFIG_BASE, &AVD_H264_DMA_CONFIG);
        assert(bus.ops() =~= start + engine_ops(self.base));
    }

    pub fn clear_h264_status<M: Mmio>(&self, bus: &mut Bus<M>, mask: u32)
        requires
            self.wf(),
        ensures
            final(bus).ops() == old(bus).ops().push(wr(self.base, 0x1104060, mask)),
    {
        self.write32(bus, REG_H264_STATUS, mask);
    }

    pub fn h264_status<M: Mmio>(&self, bus: &mut Bus<M>) -> (value: u32)
        requires
            self.wf(),
        ensures
            final(bus).ops() == old(bus).ops().push(rd(self.base, 0x1104060, value)),
    {
        self.read32(bus, REG_H264_STATUS)
    }

    /// Feeds instruction words to the engine.
    pub fn write_h264_instructions<M: Mmio>(&self, bus: &mut Bus<M>, words: &[u32])
        requires
            self.wf(),
        ensures
            final(bus).ops() == old(bus).ops() + instruction_ops(self.base, words@),
    {
        let ghost start = bus.ops();
        let ghost all = instruction_ops(self.base, words@);
        let mut i: usize = 0;
        while i < words.len()
            invariant
                i <= words@.len(),
                self.wf(),
                all == instruction_ops(self.base, words@),
                bus.ops() == start + all.take(i as int),
            decreases words@.len() - i,
        {
            self.write32(bus, REG_H264_MODE, words[i]);
            assert(bus.ops() =~= start + all.take(i + 1));
            i = i + 1;
        }
        assert(all.take(all.len() as int) =~= all);
    }

    pub fn submit_h264<M: Mmio>(&self, bus: &mut Bus<M>)
        requires
            self.wf(),
        ensures
            final(bus).ops() == old(bus).ops().push(wr(self.base, 0x1104014, 0x2b00_0107)),
    {
        self.write32(bus, REG_H264_SUBMIT, H264_SUBMIT_FRAME);
    }

    fn enable_blocks<M: Mmio>(&self, bus: &mut Bus<M>)
        requires
            self.wf(),
        ensures
            final(bus).ops() == old(bus).ops() + block_enable_ops(self.base),
    {
        let ghost start = bus.ops();
        let ghost all = block_enable_ops(self.base);
        let mut i: usize = 0;
        while i < 12
            invariant
                i <= 12,
                self.wf(),
                all == block_enable_ops(self.base),
                bus.ops() == start + all.take(i as int),
            decreases 12 - i,
        {
            self.write32(bus, REG_DECODER_CONTROL_BASE + 0x1000 * i, 0xc000_0000);
            assert(bus.ops() =~= start + all.take(i + 1));
            i = i + 1;
        }
        assert(all.take(12) =~= all);
    }

    fn enable_channels<M: Mmio>(&self, bus: &mut Bus<M>)
        requires
            self.wf(),
        ensures
            final(bus).ops() == old(bus).ops() + channel_enable_ops(self.base),
    {
        let ghost start = bus.ops();
        let ghost all = channel_enable_ops(self.base);
        let mut i: usize = 0;
        while i < 50
            invariant
                i <= 50,
                self.wf(),
                all == channel_enable_ops(self.base),
                bus.ops() == start + all.take(i as int),
            decreases 50 - i,
        {
            self.set32(bus, REG_AVD_DMA_BASE + 0x40 * (i + 1), 0xc000_0000);
            assert(bus.ops() =~= start + all.take(i + 1));
            i = i + 1;
        }
        assert(all.take(50) =~= all);
    }

    fn init_dma_stage0<M: Mmio>(&self, bus: &mut Bus<M>)
        requires
            self.wf(),
        ensures
            final(bus).ops() == old(bus).ops() + dma_stage0_ops(self.base),
    {
        proof {
            tables_are_in_range();
        }
        let ghost start = bus.ops();
        self.write32(bus, REG_PIODMA_BASE, 0x2690_7000);
        self.write32(bus, REG_WRAP_CONTROL, 0x3);
        self.write32(bus, REG_H264_INSTRUCTION, 0);
        self.write32(bus, REG_H264_TIMEOUT, 0);
        self.write32(bus, REG_H264_PIPE_CONTROL, 0);
        self.write32(bus, REG_H264_PIPE_SELECT, 0x1555);
        self.enable_blocks(bus);
        self.write32(bus, REG_AVD_DMA_CTRL0, 1);
        self.write32(bus, REG_AVD_DMA_CTRL1, 1);
        self.enable_channels(bus);
        self.set32(bus, REG_AVD_DMA_BASE + 0xd00, 0xc000_0003);
        self.write_table(bus, 0, &AVD_DMA_STAGE0);
        self.set32(bus, REG_H264_TIMEOUT, 0x0050_0000);
        self.write32(bus, REG_MCPU_IRQ_ARM, 1);
        self.write32(bus, REG_MCPU_IRQ_MASK, 0xffff_ffff);
        assert(bus.ops() =~= start + dma_stage0_ops(self.base));
    }
}

/// A word of a buffer, with zeros behind its end.
fn word_with_padding(bytes: &[u8], at: usize) -> (r: u32)
    requires
        at < bytes@.len(),
        at + 4 <= usize::MAX,
    ensures
        r == padded_word(bytes@, at as int),
{
    let b0: u32 = bytes[at] as u32;
    let b1: u32 = if at + 1 < bytes.len() {
        bytes[at + 1] as u32
    } else {
        0
    };
    let b2: u32 = if at + 2 < bytes.len() {
        bytes[at + 2] as u32
    } else {
        0
    };
    let b3: u32 = if at + 3 < bytes.len() {
        bytes[at + 3] as u32
    } else {
        0
    };
    b0 + 256 * b1 + 65536 * b2 + 16777216 * b3
}

/// A run of words is found in the registers afterwards, and nothing else has
/// changed.
proof fn word_run_stores(base: usize, offset: int, words: Seq<u32>, regs: Map<usize, u32>)
    requires
        0 <= offset,
        base + offset + 4 * words.len() <= usize::MAX,
    ensures
        forall|i: int|
            0 <= i < words.len() ==> registers_after(
                word_run_ops(base, offset, words),
                regs,
            )[#[trigger] reg(base, offset + 4 * i)] == words[i],
        forall|a: usize|
            a < base + offset || a >= base + offset + 4 * words.len() ==> #[trigger] registers_after(
                word_run_ops(base, offset, words),
                regs,
            )[a] == regs[a],
    decreases words.len(),
{
    if words.len() > 0 {
        let front = words.drop_last();
        word_run_stores(base, offset, front, regs);
        let ops = word_run_ops(base, offset, words);
        assert(ops.drop_last() =~= word_run_ops(base, offset, front));
        let before = registers_after(word_run_ops(base, offset, front), regs);
        let after = registers_after(ops, regs);
        let last = reg(base, offset + 4 * (words.len() - 1));
        assert(after == before.insert(last, words.last()));
        assert forall|i: int| 0 <= i < words.len() implies after[#[trigger] reg(
            base,
            offset + 4 * i,
        )] == words[i] by {
            if i < words.len() - 1 {
                assert(before[reg(base, offset + 4 * i)] == front[i]);
            }
        }
    }
}

/// A staged image fills the code window from its start, with zeros behind it,
/// and the data window is zero.
pub proof fn staged_image_is_in_place(base: usize, image: Seq<u8>, regs: Map<usize, u32>)
    requires
        base + 0x1500000 <= usize::MAX,
        image.len() <= 0xc000,
    ensures
        forall|i: int|
            0 <= i < 0x3000 ==> registers_after(stage_ops(base, image), regs)[#[trigger] reg(
                base,
                0x1080000 + 4 * i,
            )] == padded_word(image, 4 * i),
        forall|i: int|
            0 <= i < 0x3000 ==> registers_after(stage_ops(base, image), regs)[#[trigger] reg(
                base,
                0x108c000 + 4 * i,
            )] == 0,
{
    reveal(stage_ops);
    let zeros = zero_words(0xc000);
    let code = word_run_ops(base, 0x1080000, zeros);
    let sram = word_run_ops(base, 0x108c000, zeros);
    let words = padded_words(image);
    let body = word_run_ops(base, 0x1080000, words);
    let fence = seq![Op::Fence];
    let a = registers_after(code, regs);
    let b = registers_after(sram, a);
    let c = registers_after(body, b);
    registers_append(code, sram, regs);
    registers_append(code + sram, body, regs);
    registers_append(code + sram + body, fence, regs);
    assert(fence.drop_last() =~= Seq::<Op>::empty());
    assert(registers_after(fence, c) == c) by {
        reveal_with_fuel(registers_after, 2);
    }
    assert(registers_after(stage_ops(base, image), regs) == c);
    word_run_stores(base, 0x1080000, zeros, regs);
    word_run_stores(base, 0x108c000, zeros, a);
    word_run_stores(base, 0x1080000, words, b);
    assert forall|i: int| 0 <= i < 0x3000 implies c[#[trigger] reg(base, 0x1080000 + 4 * i)]
        == padded_word(image, 4 * i) by {
        let at = reg(base, 0x1080000 + 4 * i);
        assert(a[at] == zeros[i]);
        assert(b[at] == a[at]);
        if i < words.len() {
            assert(c[at] == words[i]);
        } else {
            assert(c[at] == b[at]);
        }
    }
    assert forall|i: int| 0 <= i < 0x3000 implies c[#[trigger] reg(base, 0x108c000 + 4 * i)]
        == 0 by {
        let at = reg(base, 0x108c000 + 4 * i);
        assert(b[at] == zeros[i]);
        assert(c[at] == b[at]);
    }
}

} // verus!
