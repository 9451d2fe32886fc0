//! The firmware that runs on the decoder's coprocessor: interrupt handling,
//! tunables and status messages.

use crate::avd::firmware::{MSG_PP_DONE, MSG_UNKNOWN_IRQ, MSG_VP_DONE};
use crate::bus::{Bus, Mmio, Op, Until};
use vstd::prelude::*;

verus! {

pub const NVIC_ISER_BASE: usize = 0xe000_e100;

pub const NVIC_ICER_BASE: usize = 0xe000_e180;

pub const NVIC_ICPR_BASE: usize = 0xe000_e280;

pub const NVIC_WORD_BITS: usize = 32;

pub const VIDEO_PIPE_IRQ_STRIDE: usize = 5;

pub const SYST_CSR: usize = 0xe000_e010;

pub const DECODE_STATUS_UNK: u32 = 1;

pub const DECODE_STATUS_ERR: u32 = 2;

pub const DECODE_STATUS_DONE: u32 = 4;

pub const DECODE_STATUS_CLEAR_POLLS: u64 = 1_024;

pub const H264_STATUS_OFFSET: usize = 0x4060;

pub const H264_STATUS_IRQ1: u32 = 0x800;

pub const MAILBOX_CM3_TO_AP: usize = 0x5001_0060;

pub const CM3_BOOT: usize = 0x5001_0090;

/// One tunable register update.
#[derive(Clone, Copy, Debug, PartialEq, Eq, Structural)]
pub struct Tunable {
    /// Register offset inside the decode control block.
    pub offset: u32,
    /// Bit mask to replace.
    pub mask: u32,
    /// Value to apply under `mask`.
    pub value: u32,
}

/// Tunables of the first decoder generation, as offset, mask and value.
pub const V2_T0_TUNABLES: [(u32, u32, u32); 111] = [
    (0x0000, 0xc0000000, 0xc0000000),
    (0x1000, 0xc0000000, 0xc0000000),
    (0x2000, 0xc0000000, 0xc0000000),
    (0x3000, 0xc0000000, 0xc0000000),
    (0x4000, 0xc0000000, 0xc0000000),
    (0x5000, 0xc0000000, 0xc0000000),
    (0x6000, 0xc0000000, 0xc0000000),
    (0x7000, 0xc0000000, 0xc0000000),
    (0x8000, 0xc0000000, 0xc0000000),
    (0x9000, 0xc0000000, 0xc0000000),
    (0xa000, 0xc0000000, 0xc0000000),
    (0xb000, 0xc0000000, 0xc0000000),
    (0xc010, 0x00000001, 0x00000001),
    (0xc018, 0x00000001, 0x00000001),
    (0xc040, 0xc0000000, 0xc0000000),
    (0xc044, 0xffffffff, 0x00000040),
    (0xc080, 0xc0000000, 0xc0000000),
    (0xc084, 0xffffffff, 0x00400040),
    (0xc0c0, 0xc0000000, 0xc0000000),
    (0xc100, 0xc0000000, 0xc0000000),
    (0xc140, 0xc0000000, 0xc0000000),
    (0xc180, 0xc0000000, 0xc0000000),
    (0xc1c0, 0xc0000000, 0xc0000000),
    (0xc1c4, 0xffffffff, 0x006c0048),
    (0xc200, 0xc0000000, 0xc0000000),
    (0xc204, 0xffffffff, 0x00b40048),
    (0xc240, 0xc0000000, 0xc0000000),
    (0xc244, 0xffffffff, 0x00800034),
    (0xc280, 0xc0000000, 0xc0000000),
    (0xc284, 0xffffffff, 0x00000018),
    (0xc2c0, 0xc0000000, 0xc0000000),
    (0xc2c4, 0xffffffff, 0x00b40020),
    (0xc300, 0xc0000000, 0xc0000000),
    (0xc340, 0xc0000000, 0xc0000000),
    (0xc380, 0xc0000000, 0xc0000000),
    (0xc384, 0xffffffff, 0x00fc0038),
    (0xc3c0, 0xc0000000, 0xc0000000),
    (0xc3c4, 0xffffffff, 0x00d40030),
    (0xc400, 0xc0000000, 0xc0000000),
    (0xc404, 0xffffffff, 0x00180014),
    (0xc440, 0xc0000000, 0xc0000000),
    (0xc444, 0xffffffff, 0x0104001c),
    (0xc480, 0xc0000000, 0xc0000000),
    (0xc484, 0xffffffff, 0x002c0014),
    (0xc4c0, 0xc0000000, 0xc0000000),
    (0xc4c4, 0xffffffff, 0x01200014),
    (0xc500, 0xc0000000, 0xc0000000),
    (0xc504, 0xffffffff, 0x00400018),
    (0xc540, 0xc0000000, 0xc0000000),
    (0xc544, 0xffffffff, 0x01340024),
    (0xc580, 0xc0000000, 0xc0000000),
    (0xc584, 0xffffffff, 0x00580014),
    (0xc5c0, 0xc0000000, 0xc0000000),
    (0xc5c4, 0xffffffff, 0x01580014),
    (0xc600, 0xc0000000, 0xc0000000),
    (0xc604, 0xffffffff, 0x01340030),
    (0xc640, 0xc0000000, 0xc0000000),
    (0xc644, 0xffffffff, 0x016c00b0),
    (0xc680, 0xc0000000, 0xc0000000),
    (0xc684, 0xffffffff, 0x021c00b0),
    (0xc6c0, 0xc0000000, 0xc0000000),
    (0xc700, 0xc0000000, 0xc0000000),
    (0xc740, 0xc0000000, 0xc0000000),
    (0xc744, 0xffffffff, 0x01800018),
    (0xc780, 0xc0000000, 0xc0000000),
    (0xc784, 0xffffffff, 0x02f40020),
    (0xc7c0, 0xc0000000, 0xc0000000),
    (0xc7c4, 0xffffffff, 0x01980018),
    (0xc800, 0xc0000000, 0xc0000000),
    (0xc804, 0xffffffff, 0x0314001c),
    (0xc840, 0xc0000000, 0xc0000000),
    (0xc844, 0xffffffff, 0x0164001c),
    (0xc880, 0xc0000000, 0xc0000000),
    (0xc884, 0xffffffff, 0x02cc0028),
    (0xc8c0, 0xc0000000, 0xc0000000),
    (0xc8c4, 0xffffffff, 0x01b00024),
    (0xc900, 0xc0000000, 0xc0000000),
    (0xc904, 0xffffffff, 0x03300040),
    (0xc940, 0xc0000000, 0xc0000000),
    (0xc944, 0xffffffff, 0x01d4001c),
    (0xc980, 0xc0000000, 0xc0000000),
    (0xc984, 0xffffffff, 0x0370002c),
    (0xc9c0, 0xc0000000, 0xc0000000),
    (0xc9c4, 0xffffffff, 0x01f00030),
    (0xca00, 0xc0000000, 0xc0000000),
    (0xca04, 0xffffffff, 0x039c003c),
    (0xca40, 0xc0000000, 0xc0000000),
    (0xca44, 0xffffffff, 0x02200014),
    (0xca80, 0xc0000000, 0xc0000000),
    (0xca84, 0xffffffff, 0x03d80014),
    (0xcac0, 0xc0000000, 0xc0000000),
    (0xcac4, 0xffffffff, 0x02480080),
    (0xcb00, 0xc0000000, 0xc0000000),
    (0xcb04, 0xffffffff, 0x02340014),
    (0xcb40, 0xc0000000, 0xc0000000),
    (0xcb44, 0xffffffff, 0x03ec0014),
    (0xcb80, 0xc0000000, 0xc0000000),
    (0xcb84, 0xffffffff, 0x03a4001c),
    (0xcbc0, 0xc0000000, 0xc0000000),
    (0xcbc4, 0xffffffff, 0x04000040),
    (0xcc00, 0xc0000000, 0xc0000000),
    (0xcc04, 0xffffffff, 0x03c00040),
    (0xcc40, 0xc0000000, 0xc0000000),
    (0xcc44, 0xffffffff, 0x044000c0),
    (0xcc80, 0xc0000000, 0xc0000000),
    (0xcc88, 0x0fff0fff, 0x02f00060),
    (0xcc8c, 0x0fff0fff, 0x02c80014),
    (0xccc0, 0xc0000000, 0xc0000000),
    (0xccc8, 0x0fff0fff, 0x03500054),
    (0xcccc, 0x0fff0fff, 0x02dc0014),
    (0xcd00, 0xc0000003, 0xc0000003),
];

/// Decoder generation and tier.
#[derive(Clone, Copy, Debug, PartialEq, Eq, Structural)]
pub enum Generation {
    V2T0,
    V3T0,
    V3T1,
    V4T0,
    V5T0,
    V5T1,
}

/// What the firmware needs to know of a generation.
pub struct FirmwareVariant {
    /// Human-readable variant name.
    pub name: &'static str,
    /// Decode control block as the coprocessor sees it.
    pub decode_ctrl_base: usize,
    /// Tunable writes required before decode interrupts are enabled.
    pub tunables: Vec<Tunable>,
}

impl Generation {
    pub open spec fn label(self) -> Seq<char> {
        match self {
            Generation::V2T0 => "v2-t0"@,
            Generation::V3T0 => "v3-t0"@,
            Generation::V3T1 => "v3-t1"@,
            Generation::V4T0 => "v4-t0"@,
            Generation::V5T0 => "v5-t0"@,
            Generation::V5T1 => "v5-t1"@,
        }
    }

    /// Decode control block as the coprocessor sees it.
    pub open spec fn control_base(self) -> usize {
        match self {
            Generation::V2T0 | Generation::V3T0 | Generation::V3T1 => 0x4010_0000,
            Generation::V4T0 | Generation::V5T0 | Generation::V5T1 => 0x4110_0000,
        }
    }

    /// Offset of the first decode status register.
    pub open spec fn status_offset(self) -> usize {
        match self {
            Generation::V2T0 => 0x4060,
            Generation::V3T0 | Generation::V3T1 => 0x124,
            Generation::V4T0 | Generation::V5T0 | Generation::V5T1 => 0x194,
        }
    }

    /// Status slot of the submit queue.
    pub open spec fn submit_slot(self) -> u32 {
        match self {
            Generation::V2T0 => 4,
            Generation::V3T0 | Generation::V3T1 => 9,
            Generation::V4T0 | Generation::V5T0 | Generation::V5T1 => 13,
        }
    }

    /// All slots share one status register.
    pub open spec fn packed(self) -> bool {
        self == Generation::V2T0
    }

    /// First interrupt line of the first video pipe.
    pub open spec fn pipe_irq_base(self) -> int {
        if self.packed() {
            18
        } else {
            78
        }
    }

    pub open spec fn pipe_count(self) -> int {
        if self.packed() {
            4
        } else {
            12
        }
    }

    pub open spec fn submit_irq(self) -> int {
        if self.packed() {
            38
        } else {
            62
        }
    }

    pub open spec fn post_process_irq(self) -> int {
        if self.packed() {
            40
        } else {
            64
        }
    }

    /// Tunables of the generation.
    pub open spec fn tunables(self) -> Seq<Tunable> {
        if self.packed() {
            Seq::new(V2_T0_TUNABLES@.len(), |i: int| tunable_of(V2_T0_TUNABLES@[i]))
        } else {
            Seq::empty()
        }
    }

    /// Status register of a slot.
    pub open spec fn status_addr(self, slot: u32) -> usize {
        if self.packed() {
            (self.control_base() + self.status_offset()) as usize
        } else {
            (self.control_base() + self.status_offset() + slot * 4) as usize
        }
    }

    /// Status bits of a slot in its register.
    pub open spec fn status_mask(self, slot: u32, status: u32) -> u32 {
        if self.packed() {
            status << ((slot * 5) as u32)
        } else {
            status
        }
    }

    /// A slot that the generation has.
    pub open spec fn has_slot(self, slot: u32) -> bool {
        if self.packed() {
            slot <= 4
        } else {
            slot <= 0xff
        }
    }

    /// Interrupt lines that are enabled, in order.
    pub open spec fn known_irqs(self) -> Seq<int> {
        (if self.packed() {
            seq![1int]
        } else {
            Seq::empty()
        }) + pipe_irqs(self.pipe_irq_base(), self.pipe_count()) + seq![
            self.submit_irq(),
            self.post_process_irq(),
        ]
    }
}

/// A tunable of a table row.
pub open spec fn tunable_of(row: (u32, u32, u32)) -> Tunable {
    Tunable { offset: row.0, mask: row.1, value: row.2 }
}

/// Three lines of each pipe: unknown status, error, done.
pub open spec fn pipe_irqs(base: int, count: int) -> Seq<int>
    decreases count,
{
    if count <= 0 {
        Seq::empty()
    } else {
        let at = base + (count - 1) * 5;
        pipe_irqs(base, count - 1) + seq![at, at + 1, at + 2]
    }
}

/// Describes the firmware variant of a generation.
pub fn selected_variant(generation: Generation) -> (r: FirmwareVariant)
    ensures
        r.name@ == generation.label(),
        r.decode_ctrl_base == generation.control_base(),
        r.tunables@ == generation.tunables(),
{
    let name = match generation {
        Generation::V2T0 => "v2-t0",
        Generation::V3T0 => "v3-t0",
        Generation::V3T1 => "v3-t1",
        Generation::V4T0 => "v4-t0",
        Generation::V5T0 => "v5-t0",
        Generation::V5T1 => "v5-t1",
    };
    let decode_ctrl_base: usize = match generation {
        Generation::V2T0 | Generation::V3T0 | Generation::V3T1 => 0x4010_0000,
        Generation::V4T0 | Generation::V5T0 | Generation::V5T1 => 0x4110_0000,
    };
    let mut tunables: Vec<Tunable> = Vec::new();
    if matches!(generation, Generation::V2T0) {
        let mut i: usize = 0;
        while i < 111
            invariant
                i <= 111,
                tunables@ == generation.tunables().take(i as int),
                generation == Generation::V2T0,
            decreases 111 - i,
        {
            let (offset, mask, value) = V2_T0_TUNABLES[i];
            tunables.push(Tunable { offset, mask, value });
            assert(tunables@ =~= generation.tunables().take(i + 1));
            i = i + 1;
        }
    }
    assert(tunables@ =~= generation.tunables());
    FirmwareVariant { name, decode_ctrl_base, tunables }
}

/// How an interrupt handler ends.
#[derive(Clone, Copy, Debug, PartialEq, Eq, Structural)]
pub enum IrqEnd {
    /// The handler returns.
    Return,
    /// The coprocessor waits forever.
    Halt,
}

/// The firmware of one generation.
#[derive(Clone, Copy, Debug, PartialEq, Eq, Structural)]
pub struct AvdCm3 {
    pub generation: Generation,
    /// Error bit of the mailbox protocol.
    pub vp_error: u32,
    /// Panic bit of the mailbox protocol.
    pub panic: u32,
}

/// What an interrupt line stands for.
#[derive(Clone, Copy, Debug, PartialEq, Eq, Structural)]
pub enum IrqAction {
    PipeUnknown(u32),
    PipeError(u32),
    PipeDone(u32),
    SubmitUnknown,
    PostProcessDone,
    H264Status,
    Unknown(u32),
}

/// Lines of a row of pipes.
pub open spec fn pipe_action(irq: int, base: int) -> IrqAction {
    let pipe = ((irq - base) / 5) as u32;
    let line = (irq - base) % 5;
    if line == 0 {
        IrqAction::PipeUnknown(pipe)
    } else if line == 1 {
        IrqAction::PipeError(pipe)
    } else if line == 2 {
        IrqAction::PipeDone(pipe)
    } else {
        IrqAction::Unknown(irq as u32)
    }
}

/// The vector table: what each interrupt line stands for.
pub open spec fn vector(irq: int) -> IrqAction {
    if irq == 1 {
        IrqAction::H264Status
    } else if irq == 38 || irq == 62 {
        IrqAction::SubmitUnknown
    } else if irq == 40 || irq == 64 {
        IrqAction::PostProcessDone
    } else if 18 <= irq < 38 {
        pipe_action(irq, 18)
    } else if 78 <= irq < 138 {
        pipe_action(irq, 78)
    } else {
        IrqAction::Unknown(irq as u32)
    }
}

/// A message put into the mailbox.
pub open spec fn message_op(message: u32) -> Op {
    Op::Write { addr: 0x5001_0060, value: message }
}

/// A status bit acknowledged, and whether the hardware took it back.
pub open spec fn clear_ops(generation: Generation, slot: u32, status: u32, cleared: bool) -> Seq<Op> {
    let addr = generation.status_addr(slot);
    let mask = generation.status_mask(slot, status);
    seq![
        Op::Write { addr, value: mask },
        Op::Fence,
        Op::Poll { addr, mask, until: Until::Clear, tries: 1024, step_us: 0, hit: cleared },
    ]
}

/// What follows an acknowledgement: a fault is reported where the bit stayed.
pub open spec fn acknowledged(
    cm3: AvdCm3,
    slot: u32,
    status: u32,
    cleared: bool,
) -> Seq<Op> {
    clear_ops(cm3.generation, slot, status, cleared) + (if cleared {
        Seq::empty()
    } else {
        seq![message_op(cm3.vp_error | (slot & 0xff))]
    })
}

/// An error was acknowledged and reported once, whether the bit stayed or not.
pub open spec fn error_reported(
    cm3: AvdCm3,
    pipe: u32,
    before: Seq<Op>,
    after: Seq<Op>,
    cleared: bool,
) -> bool {
    after == before + clear_ops(cm3.generation, pipe, 2, cleared) + seq![
        message_op(cm3.vp_error | (pipe & 0xff)),
    ]
}

/// Enable bit of an interrupt line set.
pub open spec fn enable_op(irq: int) -> Op {
    Op::Write { addr: (0xe000_e100 + (irq / 32) * 4) as usize, value: 1u32 << ((irq % 32) as u32) }
}

/// All lines disabled and nothing pending.
pub open spec fn quiet_ops(n: int) -> Seq<Op>
    decreases n,
{
    if n <= 0 {
        Seq::empty()
    } else {
        quiet_ops(n - 1) + seq![
            Op::Write { addr: (0xe000_e180 + (n - 1) * 4) as usize, value: 0xffff_ffff },
            Op::Write { addr: (0xe000_e280 + (n - 1) * 4) as usize, value: 0xffff_ffff },
        ]
    }
}

/// Enable bits of interrupt lines set, in order.
pub open spec fn enable_ops(irqs: Seq<int>) -> Seq<Op> {
    Seq::new(irqs.len(), |i: int| enable_op(irqs[i]))
}

/// Interrupt controller brought to the lines that are handled.
pub open spec fn nvic_ops(generation: Generation) -> Seq<Op> {
    quiet_ops(7) + enable_ops(generation.known_irqs())
}

/// Tunables applied in order.
pub open spec fn tunable_ops(base: usize, tunables: Seq<Tunable>) -> Seq<Op> {
    Seq::new(
        tunables.len(),
        |i: int|
            Op::Update {
                addr: (base + tunables[i].offset) as usize,
                clear: tunables[i].mask,
                set: tunables[i].value,
            },
    )
}

/// Number under which an exception is reported: external lines under their own,
/// the processor's exceptions above a thousand.
pub open spec fn exception_report(ipsr: u32) -> u32 {
    let exception = ipsr & 0x1ff;
    if exception < 16 {
        (1000 + exception) as u32
    } else {
        (exception - 16) as u32
    }
}

fn enable_nvic_irq<M: Mmio>(bus: &mut Bus<M>, irq: usize)
    requires
        irq < 224,
    ensures
        final(bus).ops() == old(bus).ops().push(enable_op(irq as int)),
{
    let mask: u32 = 1u32 << ((irq % NVIC_WORD_BITS) as u32);
    bus.write32(NVIC_ISER_BASE + (irq / NVIC_WORD_BITS) * 4, mask);
}

/// Switches the system timer off, so that an inherited setting cannot trap.
pub fn disable_systick<M: Mmio>(bus: &mut Bus<M>)
    ensures
        final(bus).ops() == old(bus).ops().push(Op::Write { addr: 0xe000_e010, value: 0 }),
{
    bus.write32(SYST_CSR, 0);
}

/// Mark the firmware as booted.
pub fn signal_booted<M: Mmio>(bus: &mut Bus<M>)
    ensures
        final(bus).ops() == old(bus).ops().push(Op::Write { addr: 0x5001_0090, value: 1 }),
{
    bus.write32(CM3_BOOT, 1);
}

/// Send one status message.
pub fn send_message<M: Mmio>(bus: &mut Bus<M>, message: u32)
    ensures
        final(bus).ops() == old(bus).ops().push(message_op(message)),
{
    bus.write32(MAILBOX_CM3_TO_AP, message);
}

impl AvdCm3 {
    /// Clear inherited interrupt state and enable only the lines that this
    /// variant handles.
    pub fn enable_known_nvic_irqs<M: Mmio>(&self, bus: &mut Bus<M>)
        ensures
            final(bus).ops() == old(bus).ops() + nvic_ops(self.generation),
    {
        let ghost start = bus.ops();
        let mut word: usize = 0;
        while word < 7
            invariant
                word <= 7,
                bus.ops() == start + quiet_ops(word as int),
            decreases 7 - word,
        {
            bus.write32(NVIC_ICER_BASE + word * 4, 0xffff_ffff);
            bus.write32(NVIC_ICPR_BASE + word * 4, 0xffff_ffff);
            assert(bus.ops() =~= start + quiet_ops(word + 1));
            word = word + 1;
        }
        let ghost quiet = bus.ops();
        let ghost mut done: Seq<int> = Seq::empty();
        let packed = matches!(self.generation, Generation::V2T0);
        if packed {
            enable_nvic_irq(bus, 1);
            proof {
                done = seq![1int];
            }
        }
        assert(bus.ops() =~= quiet + enable_ops(done));
        let ghost first = done;
        let count: usize = if packed {
            4
        } else {
            12
        };
        let base: usize = if packed {
            18
        } else {
            78
        };
        let mut pipe: usize = 0;
        while pipe < count
            invariant
                pipe <= count,
                count == self.generation.pipe_count(),
                base == self.generation.pipe_irq_base(),
                bus.ops() == quiet + enable_ops(done),
                done == first + pipe_irqs(base as int, pipe as int),
            decreases count - pipe,
        {
            let at: usize = base + pipe * VIDEO_PIPE_IRQ_STRIDE;
            enable_nvic_irq(bus, at);
            enable_nvic_irq(bus, at + 1);
            enable_nvic_irq(bus, at + 2);
            proof {
                let more = done + seq![at as int, at + 1, at + 2];
                assert(bus.ops() =~= quiet + enable_ops(more));
                assert(more =~= first + pipe_irqs(base as int, pipe + 1));
                done = more;
            }
            pipe = pipe + 1;
        }
        let submit_irq: usize = if packed {
            38
        } else {
            62
        };
        let post_process_irq: usize = if packed {
            40
        } else {
            64
        };
        enable_nvic_irq(bus, submit_irq);
        enable_nvic_irq(bus, post_process_irq);
        proof {
            assert(done + seq![submit_irq as int, post_process_irq as int]
                =~= self.generation.known_irqs());
            assert(bus.ops() =~= quiet + enable_ops(self.generation.known_irqs()));
            assert(bus.ops() =~= start + nvic_ops(self.generation));
        }
    }

    /// Acknowledge the accepted-status interrupt of the first generation.
    pub fn h264_status_irq1<M: Mmio>(&self, bus: &mut Bus<M>)
        ensures
            final(bus).ops() == old(bus).ops().push(
                Op::Write {
                    addr: (self.generation.control_base() + 0x4060) as usize,
                    value: 0x800,
                },
            ),
    {
        let variant = selected_variant(self.generation);
        bus.write32(variant.decode_ctrl_base + H264_STATUS_OFFSET, H264_STATUS_IRQ1);
    }

    /// Apply the tunables of the generation.
    pub fn apply_selected_tunables<M: Mmio>(&self, bus: &mut Bus<M>)
        ensures
            final(bus).ops() == old(bus).ops() + tunable_ops(
                self.generation.control_base(),
                self.generation.tunables(),
            ),
    {
        let variant = selected_variant(self.generation);
        let ghost start = bus.ops();
        let ghost all = tunable_ops(variant.decode_ctrl_base, variant.tunables@);
        proof {
            tunables_are_near();
        }
        let mut i: usize = 0;
        while i < variant.tunables.len()
            invariant
                i <= variant.tunables@.len(),
                variant.decode_ctrl_base <= 0x4110_0000,
                forall|k: int|
                    0 <= k < variant.tunables@.len() ==> (
                    #[trigger] variant.tunables@[k]).offset < 0x1_0000,
                all == tunable_ops(variant.decode_ctrl_base, variant.tunables@),
                bus.ops() == start + all.take(i as int),
            decreases variant.tunables@.len() - i,
        {
            let tunable = variant.tunables[i];
            assert(variant.tunables@[i as int].offset < 0x1_0000);
            bus.mask32(
                variant.decode_ctrl_base + tunable.offset as usize,
                tunable.mask,
                tunable.value,
            );
            assert(bus.ops() =~= start + all.take(i + 1));
            i = i + 1;
        }
        assert(all.take(all.len() as int) =~= all);
    }

    /// Everything behind reset up to where interrupts are let through.
    pub fn prepare<M: Mmio>(&self, bus: &mut Bus<M>)
        ensures
            final(bus).ops() == old(bus).ops().push(Op::Write { addr: 0xe000_e010, value: 0 })
                + tunable_ops(self.generation.control_base(), self.generation.tunables())
                + nvic_ops(self.generation),
    {
        disable_systick(bus);
        self.apply_selected_tunables(bus);
        self.enable_known_nvic_irqs(bus);
    }

    fn decode_status_addr(&self, slot: u32) -> (r: usize)
        requires
            self.generation.has_slot(slot),
        ensures
            r == self.generation.status_addr(slot),
    {
        match self.generation {
            Generation::V2T0 => 0x4010_0000 + 0x4060,
            Generation::V3T0 | Generation::V3T1 => 0x4010_0000 + (0x124 + slot as usize * 4),
            Generation::V4T0 | Generation::V5T0 | Generation::V5T1 => 0x4110_0000 + (0x194
                + slot as usize * 4),
        }
    }

    fn decode_status_mask(&self, slot: u32, status: u32) -> (r: u32)
        requires
            self.generation.has_slot(slot),
        ensures
            r == self.generation.status_mask(slot, status),
    {
        match self.generation {
            Generation::V2T0 => status << (slot * 5),
            _ => status,
        }
    }

    /// Acknowledges a status bit and waits until the hardware has taken it back.
    fn clear_decode_status<M: Mmio>(&self, bus: &mut Bus<M>, slot: u32, status: u32) -> (cleared:
        bool)
        requires
            self.generation.has_slot(slot),
        ensures
            final(bus).ops() == old(bus).ops() + clear_ops(self.generation, slot, status, cleared),
    {
        let ghost start = bus.ops();
        let addr: usize = self.decode_status_addr(slot);
        let mask: u32 = self.decode_status_mask(slot, status);
        bus.write32(addr, mask);
        bus.barrier();
        let cleared = bus.poll32(addr, mask, Until::Clear, DECODE_STATUS_CLEAR_POLLS, 0);
        assert(bus.ops() =~= start + clear_ops(self.generation, slot, status, cleared));
        cleared
    }

    /// Acknowledges a status bit; where it stays, a fault is reported and the
    /// coprocessor halts.
    fn clear_decode_status_or_fault<M: Mmio>(&self, bus: &mut Bus<M>, slot: u32, status: u32) -> (r:
        IrqEnd)
        requires
            self.generation.has_slot(slot),
        ensures
            final(bus).ops() == old(bus).ops() + acknowledged(
                *self,
                slot,
                status,
                r == IrqEnd::Return,
            ),
    {
        let ghost start = bus.ops();
        let cleared = self.clear_decode_status(bus, slot, status);
        if cleared {
            assert(bus.ops() =~= start + acknowledged(*self, slot, status, true));
            IrqEnd::Return
        } else {
            send_message(bus, self.vp_error | (slot & 0xff));
            assert(bus.ops() =~= start + acknowledged(*self, slot, status, false));
            IrqEnd::Halt
        }
    }

    /// Handle a video-pipe unknown-status interrupt.
    pub fn video_pipe_unknown<M: Mmio>(&self, bus: &mut Bus<M>, pipe: u32) -> (r: IrqEnd)
        requires
            self.generation.has_slot(pipe),
        ensures
            final(bus).ops() == old(bus).ops() + acknowledged(*self, pipe, 1, r == IrqEnd::Return),
    {
        self.clear_decode_status_or_fault(bus, pipe, DECODE_STATUS_UNK)
    }

    /// Handle a video-pipe done interrupt.
    pub fn video_pipe_done<M: Mmio>(&self, bus: &mut Bus<M>, pipe: u32) -> (r: IrqEnd)
        requires
            self.generation.has_slot(pipe),
        ensures
            final(bus).ops() == if r == IrqEnd::Return {
                (old(bus).ops() + acknowledged(*self, pipe, 4, true)).push(
                    message_op(0x100u32 | (pipe & 0xff)),
                )
            } else {
                old(bus).ops() + acknowledged(*self, pipe, 4, false)
            },
    {
        match self.clear_decode_status_or_fault(bus, pipe, DECODE_STATUS_DONE) {
            IrqEnd::Return => {
                send_message(bus, MSG_VP_DONE | (pipe & 0xff));
                IrqEnd::Return
            },
            IrqEnd::Halt => IrqEnd::Halt,
        }
    }

    /// Handle a video-pipe error interrupt: the coprocessor halts either way.
    pub fn video_pipe_error<M: Mmio>(&self, bus: &mut Bus<M>, pipe: u32) -> (r: IrqEnd)
        requires
            self.generation.has_slot(pipe),
        ensures
            r == IrqEnd::Halt,
            exists|cleared: bool| #[trigger]
                error_reported(*self, pipe, old(bus).ops(), final(bus).ops(), cleared),
    {
        let ghost start = bus.ops();
        match self.clear_decode_status_or_fault(bus, pipe, DECODE_STATUS_ERR) {
            IrqEnd::Return => {
                send_message(bus, self.vp_error | (pipe & 0xff));
                assert(bus.ops() =~= start + clear_ops(self.generation, pipe, 2, true) + seq![
                    message_op(self.vp_error | (pipe & 0xff)),
                ]);
                assert(error_reported(*self, pipe, start, bus.ops(), true));
            },
            IrqEnd::Halt => {
                assert(bus.ops() =~= start + clear_ops(self.generation, pipe, 2, false) + seq![
                    message_op(self.vp_error | (pipe & 0xff)),
                ]);
                assert(error_reported(*self, pipe, start, bus.ops(), false));
            },
        }
        IrqEnd::Halt
    }

    fn slot_of_submit(&self) -> (r: u32)
        ensures
            r == self.generation.submit_slot(),
            self.generation.has_slot(r),
    {
        match self.generation {
            Generation::V2T0 => 4,
            Generation::V3T0 | Generation::V3T1 => 9,
            Generation::V4T0 | Generation::V5T0 | Generation::V5T1 => 13,
        }
    }

    /// Handle a submit-queue unknown-status interrupt.
    pub fn submit_unknown<M: Mmio>(&self, bus: &mut Bus<M>) -> (r: IrqEnd)
        ensures
            final(bus).ops() == old(bus).ops() + acknowledged(
                *self,
                self.generation.submit_slot(),
                1,
                r == IrqEnd::Return,
            ),
    {
        let slot: u32 = self.slot_of_submit();
        self.clear_decode_status_or_fault(bus, slot, DECODE_STATUS_UNK)
    }

    /// Handle a post-process done interrupt.
    pub fn post_process_done<M: Mmio>(&self, bus: &mut Bus<M>) -> (r: IrqEnd)
        ensures
            final(bus).ops() == if r == IrqEnd::Return {
                (old(bus).ops() + acknowledged(*self, self.generation.submit_slot(), 4, true)).push(
                    message_op(0x1000),
                )
            } else {
                old(bus).ops() + acknowledged(*self, self.generation.submit_slot(), 4, false)
            },
    {
        let slot: u32 = self.slot_of_submit();
        match self.clear_decode_status_or_fault(bus, slot, DECODE_STATUS_DONE) {
            IrqEnd::Return => {
                send_message(bus, MSG_PP_DONE);
                IrqEnd::Return
            },
            IrqEnd::Halt => IrqEnd::Halt,
        }
    }

    /// Handle an unexpected interrupt.
    pub fn unknown_irq<M: Mmio>(&self, bus: &mut Bus<M>, irq: u32) -> (r: IrqEnd)
        ensures
            r == IrqEnd::Halt,
            final(bus).ops() == old(bus).ops().push(message_op(0x0001_0000u32 | irq)),
    {
        send_message(bus, MSG_UNKNOWN_IRQ | irq);
        IrqEnd::Halt
    }

    /// Report the active exception, given the processor's exception register.
    pub fn unknown_exception<M: Mmio>(&self, bus: &mut Bus<M>, ipsr: u32) -> (r: IrqEnd)
        ensures
            r == IrqEnd::Halt,
            final(bus).ops() == old(bus).ops().push(
                message_op(0x0001_0000u32 | exception_report(ipsr)),
            ),
    {
        assert(ipsr & 0x1ff <= 0x1ff) by (bit_vector);
        let exception: u32 = ipsr & 0x1ff;
        let irq: u32 = if exception < 16 {
            1000 + exception
        } else {
            exception - 16
        };
        self.unknown_irq(bus, irq)
    }

    /// Report a failure outside an exception handler.
    pub fn fatal_exception<M: Mmio>(&self, bus: &mut Bus<M>, exception: u32) -> (r: IrqEnd)
        requires
            exception <= u32::MAX - 1000,
        ensures
            r == IrqEnd::Halt,
            final(bus).ops() == old(bus).ops().push(
                message_op(0x0001_0000u32 | ((1000 + exception) as u32)),
            ),
    {
        self.unknown_irq(bus, 1000 + exception)
    }

    /// Non-maskable interrupt.
    pub fn nmi_handler<M: Mmio>(&self, bus: &mut Bus<M>) -> (r: IrqEnd)
        ensures
            r == IrqEnd::Halt,
            final(bus).ops() == old(bus).ops().push(message_op(self.panic | 0x10)),
    {
        send_message(bus, self.panic | 0x10);
        IrqEnd::Halt
    }

    /// Hard fault.
    pub fn hardfault_handler<M: Mmio>(&self, bus: &mut Bus<M>) -> (r: IrqEnd)
        ensures
            r == IrqEnd::Halt,
            final(bus).ops() == old(bus).ops().push(message_op(self.panic | 0x20)),
    {
        send_message(bus, self.panic | 0x20);
        IrqEnd::Halt
    }

    /// Any other exception of the processor: it is reported and returns.
    pub fn default_exception_handler<M: Mmio>(&self, bus: &mut Bus<M>) -> (r: IrqEnd)
        ensures
            r == IrqEnd::Return,
            final(bus).ops() == old(bus).ops().push(message_op(self.panic | 0x30)),
    {
        send_message(bus, self.panic | 0x30);
        IrqEnd::Return
    }

    /// System timer.
    pub fn systick_handler<M: Mmio>(&self, bus: &mut Bus<M>) -> (r: IrqEnd)
        ensures
            r == IrqEnd::Halt,
            final(bus).ops() == old(bus).ops().push(message_op(0x0001_0000u32 | 15)),
    {
        self.unknown_irq(bus, 15)
    }
}

/// Looks an interrupt line up in the vector table.
pub fn irq_action(irq: u32) -> (r: IrqAction)
    ensures
        r == vector(irq as int),
{
    if irq == 1 {
        return IrqAction::H264Status;
    }
    if irq == 38 || irq == 62 {
        return IrqAction::SubmitUnknown;
    }
    if irq == 40 || irq == 64 {
        return IrqAction::PostProcessDone;
    }
    let base: u32 = if 18 <= irq && irq < 38 {
        18
    } else if 78 <= irq && irq < 138 {
        78
    } else {
        return IrqAction::Unknown(irq);
    };
    let pipe: u32 = (irq - base) / 5;
    let line: u32 = (irq - base) % 5;
    if line == 0 {
        IrqAction::PipeUnknown(pipe)
    } else if line == 1 {
        IrqAction::PipeError(pipe)
    } else if line == 2 {
        IrqAction::PipeDone(pipe)
    } else {
        IrqAction::Unknown(irq)
    }
}

proof fn tunables_are_near()
    ensures
        forall|k: int|
            0 <= k < V2_T0_TUNABLES@.len() ==> (#[trigger] V2_T0_TUNABLES@[k]).0 < 0x1_0000,
{
}

proof fn pipe_irq_is_a_line(base: int, count: int, i: int)
    requires
        0 <= i < pipe_irqs(base, count).len(),
    ensures
        pipe_irqs(base, count).len() == 3 * count || count < 0,
        base <= pipe_irqs(base, count)[i] < base + 5 * count,
        (pipe_irqs(base, count)[i] - base) % 5 < 3,
    decreases count,
{
    if count > 0 {
        let front = pipe_irqs(base, count - 1);
        if front.len() > 0 {
            pipe_irq_is_a_line(base, count - 1, if i < front.len() {
                i
            } else {
                0
            });
        }
        if i < front.len() {
            assert(pipe_irqs(base, count)[i] == front[i]);
        } else {
            assert(front.len() == 3 * (count - 1)) by {
                if count - 1 <= 0 {
                } else {
                    assert(front.len() > 0);
                }
            }
        }
    }
}

/// Every interrupt line that is enabled has a handler of its own in the vector
/// table.
pub proof fn enabled_lines_are_handled(generation: Generation, i: int)
    requires
        0 <= i < generation.known_irqs().len(),
    ensures
        0 <= generation.known_irqs()[i] < 224,
        !(vector(generation.known_irqs()[i]) is Unknown),
{
    let base = generation.pipe_irq_base();
    let count = generation.pipe_count();
    let pipes = pipe_irqs(base, count);
    let first: int = if generation.packed() {
        1
    } else {
        0
    };
    if first <= i < first + pipes.len() {
        pipe_irq_is_a_line(base, count, i - first);
        assert(generation.known_irqs()[i] == pipes[i - first]);
    }
}

} // verus!
