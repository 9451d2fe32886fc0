//! Pin controller: directions, values, functions and pin interrupts.

use crate::arith::ceil_div;
use crate::bus::{appending_extends, extends, rd, reg, updated, wr, Bus, Mmio, Op};
use crate::platform::{first_of, span, Resource, ResourceKind};
use std::collections::BTreeMap;
use crate::ports::irq::{IrqSink, SinkPort};
use vstd::prelude::*;

verus! {

pub const REG_IRQ_BASE: usize = 0x800;

pub const REG_IRQ_GROUP_STRIDE: usize = 0x40;

pub const GPIO_DATA: u32 = 0x1;

pub const GPIO_MODE_MASK: u32 = 0xe;

pub const GPIO_PULL_MASK: u32 = 0x180;

pub const GPIO_INPUT_ENABLE: u32 = 0x200;

pub const GPIO_IRQ_GROUP_MASK: u32 = 0x7_0000;

/// Function, mode and value of a pin.
pub const OUTPUT_FIELDS: u32 = 0x6f;

/// Function, mode, value and input buffer of a pin.
pub const INPUT_FIELDS: u32 = 0x26f;

/// Function, mode, value, input buffer and interrupt group of a pin.
pub const IRQ_FIELDS: u32 = 0x7_026f;

/// Function and input buffer of a pin.
pub const FUNCTION_FIELDS: u32 = 0x260;

/// Input without interrupt, with the input buffer on.
pub const PLAIN_INPUT: u32 = 0x20e;

/// Output, in the mode field.
pub const MODE_OUT: u32 = 0x2;

/// Interrupt on a high level, in the mode field.
pub const MODE_IN_IRQ_HI: u32 = 0x4;

/// Interrupt on a low level, in the mode field.
pub const MODE_IN_IRQ_LO: u32 = 0x6;

/// Interrupt on a rising edge, in the mode field.
pub const MODE_IN_IRQ_UP: u32 = 0x8;

/// Interrupt on a falling edge, in the mode field.
pub const MODE_IN_IRQ_DN: u32 = 0xa;

/// Input without interrupt, in the mode field.
pub const MODE_IN_IRQ_OFF: u32 = 0xe;

/// Pull resistor of a pin.
#[derive(Clone, Copy, Debug, PartialEq, Eq, Structural)]
pub enum GpioPull {
    /// No resistor.
    Off,
    Down,
    Up,
}

/// What raises a pin's interrupt.
#[derive(Clone, Copy, Debug, PartialEq, Eq, Structural)]
pub enum GpioIrqTrigger {
    RisingEdge,
    FallingEdge,
    HighLevel,
    LowLevel,
}

/// Mode field of a trigger.
pub open spec fn trigger_mode(trigger: GpioIrqTrigger) -> u32 {
    match trigger {
        GpioIrqTrigger::RisingEdge => 0x8,
        GpioIrqTrigger::FallingEdge => 0xa,
        GpioIrqTrigger::HighLevel => 0x4,
        GpioIrqTrigger::LowLevel => 0x6,
    }
}

/// Pull field of a resistor.
pub open spec fn pull_field(pull: GpioPull) -> u32 {
    match pull {
        GpioPull::Off => 0,
        GpioPull::Down => 0x80,
        GpioPull::Up => 0x180,
    }
}

/// Interrupt status register of a pin in a group.
pub open spec fn group_offset(group: int, pin: int) -> int {
    0x800 + 0x40 * group + 4 * (pin / 32)
}

/// Status bit of a pin.
pub open spec fn status_bit(pin: u32) -> u32 {
    1u32 << (pin & 31)
}

/// Interrupt group that a pin register names.
pub open spec fn group_of(value: u32) -> u32 {
    (value & 0x7_0000) >> 16
}

/// A pin register changed.
pub open spec fn pin_op(base: usize, pin: u32, clear: u32, set: u32) -> Op {
    Op::Update { addr: reg(base, 4 * (pin as int)), clear, set }
}

/// A pin made an output with a value.
pub open spec fn output_op(base: usize, pin: u32, value: bool) -> Op {
    pin_op(
        base,
        pin,
        0x6f,
        if value {
            3
        } else {
            2
        },
    )
}

/// A pin made an input without interrupt.
pub open spec fn input_op(base: usize, pin: u32) -> Op {
    pin_op(base, pin, 0x26f, 0x20e)
}

/// The value of an output set.
pub open spec fn value_op(base: usize, pin: u32, value: bool) -> Op {
    pin_op(
        base,
        pin,
        1,
        if value {
            1
        } else {
            0
        },
    )
}

/// The resistor of a pin set.
pub open spec fn pull_op(base: usize, pin: u32, pull: GpioPull) -> Op {
    pin_op(base, pin, 0x180, pull_field(pull))
}

/// The function of a pin chosen.
pub open spec fn function_op(base: usize, pin: u32, func: u8) -> Op {
    pin_op(base, pin, 0x260, (((func as u32) & 3) << 5) | 0x200)
}

/// The interrupt of a pin masked.
pub open spec fn masked_op(base: usize, pin: u32) -> Op {
    pin_op(base, pin, 0xe, 0xe)
}

/// A pin made an input with an interrupt.
pub open spec fn trigger_op(base: usize, pin: u32, trigger: GpioIrqTrigger) -> Op {
    pin_op(base, pin, 0x7_026f, trigger_mode(trigger) | 0x200)
}

/// An interrupt acknowledged in the group that the pin register names.
pub open spec fn ack_ops(base: usize, pin: u32, value: u32) -> Seq<Op> {
    seq![
        rd(base, 4 * (pin as int), value),
        wr(base, group_offset(group_of(value) as int, pin as int), status_bit(pin)),
    ]
}

/// The handlers that belong to some calls.
pub open spec fn handlers_of<H>(handlers: Map<u32, H>, calls: Seq<(u32, nat)>) -> Seq<H> {
    Seq::new(calls.len(), |i: int| handlers[calls[i].0])
}

/// One step of looking for pending interrupts.
pub enum PinStep {
    Access(Op),
    Handle(u32),
}

/// The register accesses among some steps.
pub open spec fn accesses(steps: Seq<PinStep>) -> Seq<Op>
    decreases steps.len(),
{
    if steps.len() == 0 {
        Seq::empty()
    } else {
        match steps.last() {
            PinStep::Access(op) => accesses(steps.drop_last()).push(op),
            PinStep::Handle(_) => accesses(steps.drop_last()),
        }
    }
}

/// The calls among some steps that begin behind `start` accesses.
pub open spec fn handled(steps: Seq<PinStep>, start: nat) -> Seq<(u32, nat)>
    decreases steps.len(),
{
    if steps.len() == 0 {
        Seq::empty()
    } else {
        match steps.last() {
            PinStep::Access(_) => handled(steps.drop_last(), start),
            PinStep::Handle(pin) => handled(steps.drop_last(), start).push(
                (pin, start + accesses(steps.drop_last()).len()),
            ),
        }
    }
}

/// A bit of a status word.
pub open spec fn bit_set(value: u32, n: int) -> bool {
    value & (1u32 << (n as u32)) != 0
}

/// The steps for one pending pin: its handler, where there is one, and then the
/// acknowledgement.
pub open spec fn pin_steps(addr: usize, pin: int, n: int, npins: u32, dom: Set<u32>) -> Seq<PinStep> {
    let ack = seq![PinStep::Access(Op::Write { addr, value: 1u32 << (n as u32) })];
    if pin < npins && dom.contains(pin as u32) {
        seq![PinStep::Handle(pin as u32)] + ack
    } else {
        ack
    }
}

/// The steps for the first `n` bits of a status word, lowest first.
pub open spec fn bit_steps(
    addr: usize,
    first: int,
    value: u32,
    n: int,
    npins: u32,
    dom: Set<u32>,
) -> Seq<PinStep>
    decreases n,
{
    if n <= 0 {
        Seq::empty()
    } else {
        bit_steps(addr, first, value, n - 1, npins, dom) + (if bit_set(value, n - 1) {
            pin_steps(addr, first + n - 1, n - 1, npins, dom)
        } else {
            Seq::empty()
        })
    }
}

/// The steps for the first words of a group.
pub open spec fn group_steps(
    base: usize,
    group: int,
    values: Seq<u32>,
    npins: u32,
    dom: Set<u32>,
) -> Seq<PinStep>
    decreases values.len(),
{
    if values.len() == 0 {
        Seq::empty()
    } else {
        let first = 32 * (values.len() - 1);
        let addr = reg(base, group_offset(group, first));
        group_steps(base, group, values.drop_last(), npins, dom) + seq![
            PinStep::Access(Op::Read { addr, value: values.last() }),
        ] + bit_steps(addr, first, values.last(), 32, npins, dom)
    }
}

/// The steps for the first groups.
pub open spec fn scan_steps(base: usize, rows: Seq<Seq<u32>>, npins: u32, dom: Set<u32>) -> Seq<
    PinStep,
>
    decreases rows.len(),
{
    if rows.len() == 0 {
        Seq::empty()
    } else {
        scan_steps(base, rows.drop_last(), npins, dom) + group_steps(
            base,
            rows.len() - 1,
            rows.last(),
            npins,
            dom,
        )
    }
}

/// Every word of every group was read.
pub open spec fn full_rows(rows: Seq<Seq<u32>>, groups: int, words: int) -> bool {
    &&& rows.len() == groups
    &&& forall|g: int| 0 <= g < rows.len() ==> (#[trigger] rows[g]).len() == words
}

proof fn accesses_append(a: Seq<PinStep>, b: Seq<PinStep>, start: nat)
    ensures
        accesses(a + b) == accesses(a) + accesses(b),
        handled(a + b, start) == handled(a, start) + handled(
            b,
            start + accesses(a).len(),
        ),
    decreases b.len(),
{
    if b.len() == 0 {
        assert(a + b =~= a);
        assert(accesses(a) + accesses(b) =~= accesses(a));
        assert(handled(a, start) + handled(b, start + accesses(a).len()) =~= handled(a, start));
    } else {
        accesses_append(a, b.drop_last(), start);
        assert((a + b).drop_last() =~= a + b.drop_last());
        match b.last() {
            PinStep::Access(op) => {
                assert(accesses(a + b) =~= accesses(a) + accesses(b));
            },
            PinStep::Handle(pin) => {
                assert(handled(a + b, start) =~= handled(a, start) + handled(
                    b,
                    start + accesses(a).len(),
                ));
            },
        }
    }
}

/// Apple pin controller. `H` is whatever handles the interrupt of a pin.
pub struct ApplePinctrl<H> {
    pub base: usize,
    pub npins: u32,
    /// Interrupt lines to the parent controller, one for each group.
    pub parent_irqs: Vec<u32>,
    pub irq_handlers: BTreeMap<u32, H>,
}

/// What happens of an interrupt of the controller.
pub open spec fn scanned<H>(
    p: &ApplePinctrl<H>,
    ops: (Seq<Op>, Seq<Op>),
    calls: (Seq<(u32, nat)>, Seq<(u32, nat)>),
    rows: Seq<Seq<u32>>,
) -> bool {
    let steps = scan_steps(p.base, rows, p.npins, p.irq_handlers@.dom());
    &&& full_rows(rows, p.groups(), p.words())
    &&& ops.1 == ops.0 + accesses(steps)
    &&& calls.1 == calls.0 + handled(steps, ops.0.len())
}

impl<H> ApplePinctrl<H> {
    /// Groups that are looked at: one for each parent line, at least one.
    pub open spec fn groups(&self) -> int {
        if self.parent_irqs@.len() == 0 {
            1
        } else {
            self.parent_irqs@.len() as int
        }
    }

    /// Status words of a group.
    pub open spec fn words(&self) -> int {
        ceil_div(self.npins as int, 32)
    }

    /// All registers lie in the address space.
    pub open spec fn wf(&self) -> bool {
        &&& self.groups() <= u32::MAX
        &&& self.base + 4 * self.npins + 0x800 + 0x40 * (self.groups() + 8) + 4 * (self.words() + 1)
            <= usize::MAX
    }

    /// The wiring of another controller.
    pub open spec fn same_wiring(&self, other: &ApplePinctrl<H>) -> bool {
        &&& self.base == other.base
        &&& self.npins == other.npins
        &&& self.parent_irqs@ == other.parent_irqs@
    }

    pub fn new(base: usize, npins: u32) -> (r: Self)
        ensures
            r.base == base,
            r.npins == npins,
            r.parent_irqs@ == Seq::<u32>::empty(),
            r.irq_handlers@ == Map::<u32, H>::empty(),
    {
        ApplePinctrl { base, npins, parent_irqs: Vec::new(), irq_handlers: BTreeMap::new() }
    }

    fn modify_pin<M: Mmio>(&self, bus: &mut Bus<M>, pin: u32, clear: u32, set: u32)
        requires
            self.wf(),
            pin < self.npins,
        ensures
            final(bus).ops() == old(bus).ops().push(pin_op(self.base, pin, clear, set)),
    {
        bus.mask32(self.base + pin as usize * 4, clear, set);
    }

    /// Makes a pin an output with a value.
    pub fn set_direction_output<M: Mmio>(&self, bus: &mut Bus<M>, pin: u32, value: bool)
        requires
            self.wf(),
        ensures
            final(bus).ops() == if pin < self.npins {
                old(bus).ops().push(
                    output_op(self.base, pin, value),
                )
            } else {
                old(bus).ops()
            },
    {
        if pin >= self.npins {
            return;
        }
        let set: u32 = if value {
            MODE_OUT + GPIO_DATA
        } else {
            MODE_OUT
        };
        self.modify_pin(bus, pin, OUTPUT_FIELDS, set);
    }

    /// Makes a pin an input without interrupt.
    pub fn set_direction_input<M: Mmio>(&self, bus: &mut Bus<M>, pin: u32)
        requires
            self.wf(),
        ensures
            final(bus).ops() == if pin < self.npins {
                old(bus).ops().push(input_op(self.base, pin))
            } else {
                old(bus).ops()
            },
    {
        if pin >= self.npins {
            return;
        }
        self.modify_pin(bus, pin, INPUT_FIELDS, PLAIN_INPUT);
    }

    /// Sets the value of an output.
    pub fn set_value<M: Mmio>(&self, bus: &mut Bus<M>, pin: u32, value: bool)
        requires
            self.wf(),
        ensures
            final(bus).ops() == if pin < self.npins {
                old(bus).ops().push(
                    value_op(self.base, pin, value),
                )
            } else {
                old(bus).ops()
            },
    {
        if pin >= self.npins {
            return;
        }
        let data: u32 = if value {
            GPIO_DATA
        } else {
            0
        };
        self.modify_pin(bus, pin, GPIO_DATA, data);
    }

    /// The value of a pin; a pin that does not exist is low.
    pub fn get_value<M: Mmio>(&self, bus: &mut Bus<M>, pin: u32) -> (r: bool)
        requires
            self.wf(),
        ensures
            if pin < self.npins {
                exists|value: u32| #[trigger]
                    value_read(self.base, pin, old(bus).ops(), final(bus).ops(), r, value)
            } else {
                !r && final(bus).ops() == old(bus).ops()
            },
    {
        if pin >= self.npins {
            return false;
        }
        let ghost start = bus.ops();
        let value: u32 = bus.read32(self.base + pin as usize * 4);
        let r = value & GPIO_DATA != 0;
        assert(value_read(self.base, pin, start, bus.ops(), r, value));
        r
    }

    /// Sets the pull resistor of a pin.
    pub fn set_pull<M: Mmio>(&self, bus: &mut Bus<M>, pin: u32, pull: GpioPull)
        requires
            self.wf(),
        ensures
            final(bus).ops() == if pin < self.npins {
                old(bus).ops().push(pull_op(self.base, pin, pull))
            } else {
                old(bus).ops()
            },
    {
        if pin >= self.npins {
            return;
        }
        let field: u32 = match pull {
            GpioPull::Off => 0,
            GpioPull::Down => 0x80,
            GpioPull::Up => 0x180,
        };
        self.modify_pin(bus, pin, GPIO_PULL_MASK, field);
    }

    /// Gives a pin to a peripheral function.
    pub fn set_function<M: Mmio>(&self, bus: &mut Bus<M>, pin: u32, func: u8)
        requires
            self.wf(),
        ensures
            final(bus).ops() == if pin < self.npins {
                old(bus).ops().push(
                    function_op(self.base, pin, func),
                )
            } else {
                old(bus).ops()
            },
    {
        if pin >= self.npins {
            return;
        }
        self.modify_pin(
            bus,
            pin,
            FUNCTION_FIELDS,
            (((func as u32) & 3) << 5) | GPIO_INPUT_ENABLE,
        );
    }

    /// Lets a pin raise interrupts, in the first group, and clears what was
    /// pending.
    pub fn enable_irq<M: Mmio>(&self, bus: &mut Bus<M>, pin: u32, trigger: GpioIrqTrigger)
        requires
            self.wf(),
        ensures
            irq_enabled(self, old(bus).ops(), final(bus).ops(), pin, trigger),
    {
        if pin >= self.npins {
            return;
        }
        let ghost start = bus.ops();
        let mode: u32 = match trigger {
            GpioIrqTrigger::RisingEdge => MODE_IN_IRQ_UP,
            GpioIrqTrigger::FallingEdge => MODE_IN_IRQ_DN,
            GpioIrqTrigger::HighLevel => MODE_IN_IRQ_HI,
            GpioIrqTrigger::LowLevel => MODE_IN_IRQ_LO,
        };
        self.modify_pin(bus, pin, IRQ_FIELDS, mode | GPIO_INPUT_ENABLE);
        let ghost set = bus.ops();
        self.ack_irq(bus, pin);
        proof {
            let value = choose|value: u32| #[trigger]
                acknowledged(self, set, bus.ops(), pin, value);
            assert(acknowledged(self, set, bus.ops(), pin, value));
        }
    }

    /// Stops the interrupts of a pin.
    pub fn disable_irq<M: Mmio>(&self, bus: &mut Bus<M>, pin: u32)
        requires
            self.wf(),
        ensures
            final(bus).ops() == if pin < self.npins {
                old(bus).ops().push(masked_op(self.base, pin))
            } else {
                old(bus).ops()
            },
    {
        if pin >= self.npins {
            return;
        }
        self.modify_pin(bus, pin, GPIO_MODE_MASK, MODE_IN_IRQ_OFF);
    }

    /// Acknowledges the interrupt of a pin.
    pub fn ack_irq<M: Mmio>(&self, bus: &mut Bus<M>, pin: u32)
        requires
            self.wf(),
        ensures
            exists|value: u32| #[trigger]
                acknowledged(self, old(bus).ops(), final(bus).ops(), pin, value),
    {
        let ghost start = bus.ops();
        if pin >= self.npins {
            assert(acknowledged(self, start, bus.ops(), pin, 0));
            return;
        }
        let value: u32 = bus.read32(self.base + pin as usize * 4);
        assert((value & 0x7_0000u32) >> 16 <= 7u32 && pin & 31 < 32 && pin >> 5 == pin / 32)
            by (bit_vector);
        let group: u32 = (value & GPIO_IRQ_GROUP_MASK) >> 16;
        proof {
            crate::arith::ceil_div_counts(self.npins as int, 32);
        }
        bus.write32(
            self.base + (REG_IRQ_BASE + group as usize * REG_IRQ_GROUP_STRIDE + (pin >> 5) as usize
                * 4),
            1u32 << (pin & 31),
        );
        proof {
            assert(bus.ops() =~= start + ack_ops(self.base, pin, value));
            assert(acknowledged(self, start, bus.ops(), pin, value));
        }
    }

    /// Registers the handler of a pin and enables its interrupt. A pin that
    /// does not exist is refused.
    pub fn request_irq<M: Mmio>(
        &mut self,
        bus: &mut Bus<M>,
        pin: u32,
        trigger: GpioIrqTrigger,
        handler: H,
    ) -> (r: bool)
        requires
            old(self).wf(),
        ensures
            r == (pin < old(self).npins),
            final(self).same_wiring(old(self)),
            irq_enabled(old(self), old(bus).ops(), final(bus).ops(), pin, trigger),
            final(self).irq_handlers@ == if r {
                old(self).irq_handlers@.insert(pin, handler)
            } else {
                old(self).irq_handlers@
            },
    {
        broadcast use vstd::std_specs::btree::group_btree_axioms;
        broadcast use vstd::laws_cmp::group_laws_cmp;

        if pin >= self.npins {
            return false;
        }
        self.enable_irq(bus, pin, trigger);
        self.irq_handlers.insert(pin, handler);
        true
    }

    /// Takes the handler of a pin back and stops its interrupt.
    pub fn free_irq<M: Mmio>(&mut self, bus: &mut Bus<M>, pin: u32)
        requires
            old(self).wf(),
        ensures
            final(self).same_wiring(old(self)),
            final(self).irq_handlers@ == if pin < old(self).npins {
                old(self).irq_handlers@.remove(pin)
            } else {
                old(self).irq_handlers@
            },
            final(bus).ops() == if pin < old(self).npins {
                old(bus).ops().push(masked_op(old(self).base, pin))
            } else {
                old(bus).ops()
            },
    {
        broadcast use vstd::std_specs::btree::group_btree_axioms;
        broadcast use vstd::laws_cmp::group_laws_cmp;

        if pin >= self.npins {
            return;
        }
        self.irq_handlers.remove(&pin);
        self.disable_irq(bus, pin);
    }

    /// The interrupt line of the controller.
    pub fn interrupt_id(&self) -> (r: Option<u32>)
        ensures
            r == if self.parent_irqs@.len() > 0 {
                Some(self.parent_irqs@[0])
            } else {
                None
            },
    {
        if self.parent_irqs.len() > 0 {
            Some(self.parent_irqs[0])
        } else {
            None
        }
    }

    /// The handler of a pin.
    fn handler_of(&self, pin: u32) -> (r: Option<&H>)
        ensures
            r == if self.irq_handlers@.dom().contains(pin) {
                Some(&self.irq_handlers@[pin])
            } else {
                None
            },
    {
        broadcast use vstd::std_specs::btree::group_btree_axioms;
        broadcast use vstd::laws_cmp::group_laws_cmp;

        self.irq_handlers.get(&pin)
    }

    /// Handles one status word.
    fn handle_word<M: Mmio, S: IrqSink<H>>(
        &self,
        bus: &mut Bus<M>,
        sink: &mut SinkPort<H, S>,
        addr: usize,
        first: u32,
    ) -> (value: u32)
        requires
            first + 31 <= u32::MAX,
        ensures
            ({
                let steps = seq![PinStep::Access(Op::Read { addr, value })] + bit_steps(
                    addr,
                    first as int,
                    value,
                    32,
                    self.npins,
                    self.irq_handlers@.dom(),
                );
                &&& final(bus).ops() == old(bus).ops() + accesses(steps)
                &&& final(sink).log() == old(sink).log() + handled(steps, old(bus).ops().len())
                &&& final(sink).handlers() == old(sink).handlers() + handlers_of(
                    self.irq_handlers@,
                    handled(steps, old(bus).ops().len()),
                )
            }),
    {
        let ghost start = bus.ops();
        let ghost calls = sink.log();
        let ghost called = sink.handlers();
        let ghost handlers = self.irq_handlers@;
        let ghost dom = self.irq_handlers@.dom();
        let value: u32 = bus.read32(addr);
        let ghost head = seq![PinStep::Access(Op::Read { addr, value })];
        let ghost mut steps = head;
        proof {
            assert(head.drop_last() =~= Seq::<PinStep>::empty());
            reveal_with_fuel(accesses, 2);
            reveal_with_fuel(handled, 2);
            assert(bus.ops() =~= start + accesses(head));
            assert(sink.log() =~= calls + handled(head, start.len()));
            assert(sink.handlers() =~= called + handlers_of(handlers, handled(head, start.len())));
            assert(steps =~= head + bit_steps(addr, first as int, value, 0, self.npins, dom));
        }
        let mut n: u32 = 0;
        while n < 32
            invariant
                n <= 32,
                first + 31 <= u32::MAX,
                dom == self.irq_handlers@.dom(),
                steps == head + bit_steps(addr, first as int, value, n as int, self.npins, dom),
                bus.ops() == start + accesses(steps),
                sink.log() == calls + handled(steps, start.len()),
                handlers == self.irq_handlers@,
                sink.handlers() == called + handlers_of(handlers, handled(steps, start.len())),
            decreases 32 - n,
        {
            if value & (1u32 << n) != 0 {
                let pin: u32 = first + n;
                let ghost before = steps;
                if pin < self.npins {
                    match self.handler_of(pin) {
                        Some(handler) => {
                            sink.handle(bus, pin, handler);
                            proof {
                                steps = steps.push(PinStep::Handle(pin));
                                assert(steps.drop_last() =~= before);
                                assert(accesses(steps) == accesses(before));
                                assert(sink.log() =~= calls + handled(steps, start.len()));
                                assert(sink.handlers() =~= called + handlers_of(
                                    handlers,
                                    handled(steps, start.len()),
                                ));
                            }
                        },
                        None => {},
                    }
                }
                let ghost mid = steps;
                bus.write32(addr, 1u32 << n);
                proof {
                    steps = steps.push(
                        PinStep::Access(Op::Write { addr, value: 1u32 << n }),
                    );
                    assert(steps.drop_last() =~= mid);
                    assert(accesses(steps) == accesses(mid).push(
                        Op::Write { addr, value: 1u32 << n },
                    ));
                    assert(bus.ops() =~= start + accesses(steps));
                    assert(sink.log() =~= calls + handled(steps, start.len()));
                    assert(steps =~= before + pin_steps(
                        addr,
                        first + n,
                        n as int,
                        self.npins,
                        dom,
                    ));
                    assert(steps =~= head + bit_steps(
                        addr,
                        first as int,
                        value,
                        n + 1,
                        self.npins,
                        dom,
                    ));
                }
            } else {
                proof {
                    assert(bit_steps(addr, first as int, value, n + 1, self.npins, dom)
                        =~= bit_steps(addr, first as int, value, n as int, self.npins, dom));
                }
            }
            n = n + 1;
        }
        value
    }

    /// Looks through all groups for pending interrupts: handlers are called and
    /// every pending bit is acknowledged, lowest first.
    pub fn handle_interrupt<M: Mmio, S: IrqSink<H>>(
        &self,
        bus: &mut Bus<M>,
        sink: &mut SinkPort<H, S>,
    )
        requires
            self.wf(),
        ensures
            exists|rows: Seq<Seq<u32>>| #[trigger]
                scanned(
                    self,
                    (old(bus).ops(), final(bus).ops()),
                    (old(sink).log(), final(sink).log()),
                    rows,
                ),
            extends(old(sink).log(), final(sink).log()),
            final(sink).handlers() == old(sink).handlers() + handlers_of(
                self.irq_handlers@,
                final(sink).log().skip(old(sink).log().len() as int),
            ),
    {
        let ghost start = bus.ops();
        let ghost calls = sink.log();
        let ghost called = sink.handlers();
        let ghost handlers = self.irq_handlers@;
        let ghost dom = self.irq_handlers@.dom();
        let count: usize = self.parent_irqs.len();
        let groups: usize = if count == 0 {
            1
        } else {
            count
        };
        proof {
            crate::arith::ceil_div_counts(self.npins as int, 32);
        }
        let words: u32 = if self.npins % 32 != 0 {
            self.npins / 32 + 1
        } else {
            self.npins / 32
        };
        let ghost mut rows: Seq<Seq<u32>> = Seq::empty();
        let ghost mut steps: Seq<PinStep> = Seq::empty();
        assert(bus.ops() =~= start + accesses(steps));
        assert(sink.log() =~= calls + handled(steps, start.len()));
        assert(sink.handlers() =~= called + handlers_of(handlers, handled(steps, start.len())));
        let mut group: usize = 0;
        while group < groups
            invariant
                self.wf(),
                groups == self.groups(),
                words == self.words(),
                32 * words < self.npins + 32,
                group <= groups,
                dom == self.irq_handlers@.dom(),
                full_rows(rows, group as int, words as int),
                steps == scan_steps(self.base, rows, self.npins, dom),
                bus.ops() == start + accesses(steps),
                sink.log() == calls + handled(steps, start.len()),
                handlers == self.irq_handlers@,
                sink.handlers() == called + handlers_of(handlers, handled(steps, start.len())),
            decreases groups - group,
        {
            let ghost mut values: Seq<u32> = Seq::empty();
            let ghost done = steps;
            proof {
                assert(done + group_steps(self.base, group as int, values, self.npins, dom)
                    =~= done);
            }
            let mut word: u32 = 0;
            while word < words
                invariant
                    self.wf(),
                    groups == self.groups(),
                    words == self.words(),
                    32 * words < self.npins + 32,
                    group < groups,
                    word <= words,
                    dom == self.irq_handlers@.dom(),
                    values.len() == word,
                    steps == done + group_steps(
                        self.base,
                        group as int,
                        values,
                        self.npins,
                        dom,
                    ),
                    bus.ops() == start + accesses(steps),
                    sink.log() == calls + handled(steps, start.len()),
                    handlers == self.irq_handlers@,
                    sink.handlers() == called + handlers_of(handlers, handled(steps, start.len())),
                decreases words - word,
            {
                let first: u32 = word * 32;
                assert(first as int / 32 == word);
                let addr: usize = self.base + (REG_IRQ_BASE + group * REG_IRQ_GROUP_STRIDE
                    + word as usize * 4);
                let ghost before = bus.ops();
                let value: u32 = self.handle_word(bus, sink, addr, first);
                proof {
                    let more = values.push(value);
                    assert(more.drop_last() =~= values);
                    let piece = seq![PinStep::Access(Op::Read { addr, value })] + bit_steps(
                        addr,
                        first as int,
                        value,
                        32,
                        self.npins,
                        dom,
                    );
                    accesses_append(steps, piece, start.len());
                    assert(addr == reg(self.base, group_offset(group as int, first as int)));
                    assert(group_steps(self.base, group as int, more, self.npins, dom)
                        =~= group_steps(self.base, group as int, values, self.npins, dom) + piece);
                    assert(steps + piece =~= done + group_steps(
                        self.base,
                        group as int,
                        more,
                        self.npins,
                        dom,
                    ));
                    assert(bus.ops() =~= start + accesses(steps + piece));
                    assert(sink.log() =~= calls + handled(steps + piece, start.len()));
                    assert(sink.handlers() =~= called + handlers_of(
                        handlers,
                        handled(steps + piece, start.len()),
                    ));
                    steps = steps + piece;
                    values = more;
                }
                word = word + 1;
            }
            proof {
                let more = rows.push(values);
                assert(more.drop_last() =~= rows);
                assert(full_rows(more, group + 1, words as int));
                assert(steps =~= scan_steps(self.base, more, self.npins, dom));
                rows = more;
            }
            group = group + 1;
        }
        proof {
            assert(scanned(self, (start, bus.ops()), (calls, sink.log()), rows));
            appending_extends(calls, handled(steps, start.len()));
            assert(sink.log().skip(calls.len() as int) =~= handled(steps, start.len()));
        }
    }

    /// Notes the interrupt line of one more group.
    pub fn add_parent_irq(&mut self, irq: u32)
        ensures
            final(self).base == old(self).base,
            final(self).npins == old(self).npins,
            final(self).irq_handlers@ == old(self).irq_handlers@,
            final(self).parent_irqs@ == old(self).parent_irqs@.push(irq),
    {
        self.parent_irqs.push(irq);
    }
}

/// A pin was read.
pub open spec fn value_read(
    base: usize,
    pin: u32,
    before: Seq<Op>,
    after: Seq<Op>,
    r: bool,
    value: u32,
) -> bool {
    after == before.push(rd(base, 4 * (pin as int), value)) && r == (value & 1 != 0)
}

/// An interrupt was acknowledged; a pin that does not exist is left alone.
pub open spec fn acknowledged<H>(
    p: &ApplePinctrl<H>,
    before: Seq<Op>,
    after: Seq<Op>,
    pin: u32,
    value: u32,
) -> bool {
    after == if pin < p.npins {
        before + ack_ops(p.base, pin, value)
    } else {
        before
    }
}

/// An interrupt was enabled and acknowledged; a pin that does not exist is left
/// alone.
pub open spec fn irq_enabled<H>(
    p: &ApplePinctrl<H>,
    before: Seq<Op>,
    after: Seq<Op>,
    pin: u32,
    trigger: GpioIrqTrigger,
) -> bool {
    if pin < p.npins {
        exists|value: u32| #[trigger]
            acknowledged(
                p,
                before.push(trigger_op(p.base, pin, trigger)),
                after,
                pin,
                value,
            )
    } else {
        after == before
    }
}

/// Why a controller was not accepted.
#[derive(Clone, Copy, Debug, PartialEq, Eq, Structural)]
pub enum PinctrlError {
    NoMemory,
    InvalidMemory,
    NoPins,
    NoPhandle,
    NoParentIrqs,
}

impl PinctrlError {
    pub fn message(self) -> (r: &'static str)
        ensures
            r@ == (match self {
                PinctrlError::NoMemory => "apple-pinctrl: no memory resource"@,
                PinctrlError::InvalidMemory => "apple-pinctrl: invalid memory resource"@,
                PinctrlError::NoPins => "apple-pinctrl: missing apple,npins"@,
                PinctrlError::NoPhandle => "apple-pinctrl: no phandle"@,
                PinctrlError::NoParentIrqs =>
                    "apple-pinctrl: no IRQ resources for parent interrupt lines"@,
            }),
    {
        match self {
            PinctrlError::NoMemory => "apple-pinctrl: no memory resource",
            PinctrlError::InvalidMemory => "apple-pinctrl: invalid memory resource",
            PinctrlError::NoPins => "apple-pinctrl: missing apple,npins",
            PinctrlError::NoPhandle => "apple-pinctrl: no phandle",
            PinctrlError::NoParentIrqs =>
                "apple-pinctrl: no IRQ resources for parent interrupt lines",
        }
    }
}

/// Register window of a controller.
pub fn probe_memory(resources: &[Resource]) -> (r: Result<(usize, usize), PinctrlError>)
    ensures
        r == (match first_of(resources@, ResourceKind::Mem, 0) {
            None => Err::<(usize, usize), PinctrlError>(PinctrlError::NoMemory),
            Some(m) => match span(m) {
                None => Err(PinctrlError::InvalidMemory),
                Some(n) => Ok((m.start, n as usize)),
            },
        }),
{
    match crate::platform::first_resource(resources, ResourceKind::Mem) {
        None => Err(PinctrlError::NoMemory),
        Some(resource) => match resource.size() {
            None => Err(PinctrlError::InvalidMemory),
            Some(size) => Ok((resource.start, size)),
        },
    }
}

/// Pin count and phandle of a controller, cut to 32 bits.
pub fn probe_properties(npins: Option<usize>, phandle: Option<usize>) -> (r: Result<
    (u32, u32),
    PinctrlError,
>)
    ensures
        r == (match (npins, phandle) {
            (None, _) => Err::<(u32, u32), PinctrlError>(PinctrlError::NoPins),
            (Some(_), None) => Err(PinctrlError::NoPhandle),
            (Some(n), Some(p)) => Ok((n as u32, p as u32)),
        }),
{
    match npins {
        None => Err(PinctrlError::NoPins),
        Some(n) => match phandle {
            None => Err(PinctrlError::NoPhandle),
            Some(p) => Ok((n as u32, p as u32)),
        },
    }
}

/// The interrupt resources among some.
pub open spec fn irq_starts(resources: Seq<Resource>, n: int) -> Seq<u32>
    decreases n,
{
    if n <= 0 {
        Seq::empty()
    } else if resources[n - 1].kind == ResourceKind::Irq {
        irq_starts(resources, n - 1).push(resources[n - 1].start as u32)
    } else {
        irq_starts(resources, n - 1)
    }
}

/// Interrupt lines to the parent controller, in order. There has to be one.
pub fn parent_irq_lines(resources: &[Resource]) -> (r: Result<Vec<u32>, PinctrlError>)
    ensures
        ({
            let lines = irq_starts(resources@, resources@.len() as int);
            if lines.len() == 0 {
                r is Err && r->Err_0 == PinctrlError::NoParentIrqs
            } else {
                r is Ok && r->Ok_0@ == lines
            }
        }),
{
    let mut lines: Vec<u32> = Vec::new();
    let mut i: usize = 0;
    while i < resources.len()
        invariant
            i <= resources@.len(),
            lines@ == irq_starts(resources@, i as int),
        decreases resources@.len() - i,
    {
        if resources[i].kind == ResourceKind::Irq {
            lines.push(resources[i].start as u32);
        }
        i = i + 1;
    }
    if lines.len() == 0 {
        return Err(PinctrlError::NoParentIrqs);
    }
    Ok(lines)
}

/// A pin that was made an output, or whose value was set, shows that value.
pub proof fn values_show_on_the_pin(register: u32, value: bool)
    ensures
        ({
            let bit: u32 = if value {
                1
            } else {
                0
            };
            &&& (updated(register, 0x6f, (2 + bit) as u32) & 1 != 0) == value
            &&& (updated(register, 1, bit) & 1 != 0) == value
        }),
{
    assert(((register & !0x6fu32) | 3u32) & 1u32 != 0 && ((register & !0x6fu32) | 2u32) & 1u32 == 0
        && ((register & !1u32) | 1u32) & 1u32 != 0 && ((register & !1u32) | 0u32) & 1u32 == 0)
        by (bit_vector);
}

/// A handler is only called for a pin that exists and has one.
pub open spec fn sound_step(step: PinStep, npins: u32, dom: Set<u32>) -> bool {
    step matches PinStep::Handle(pin) ==> pin < npins && dom.contains(pin)
}

/// All of some steps are sound.
pub open spec fn sound_steps(steps: Seq<PinStep>, npins: u32, dom: Set<u32>) -> bool {
    forall|i: int| 0 <= i < steps.len() ==> sound_step(#[trigger] steps[i], npins, dom)
}

proof fn sound_append(a: Seq<PinStep>, b: Seq<PinStep>, npins: u32, dom: Set<u32>)
    requires
        sound_steps(a, npins, dom),
        sound_steps(b, npins, dom),
    ensures
        sound_steps(a + b, npins, dom),
{
    assert forall|i: int| 0 <= i < (a + b).len() implies sound_step(
        #[trigger] (a + b)[i],
        npins,
        dom,
    ) by {
        if i < a.len() {
            assert((a + b)[i] == a[i]);
        } else {
            assert((a + b)[i] == b[i - a.len()]);
        }
    }
}

proof fn bits_are_sound(addr: usize, first: int, value: u32, n: int, npins: u32, dom: Set<u32>)
    requires
        0 <= first,
    ensures
        sound_steps(bit_steps(addr, first, value, n, npins, dom), npins, dom),
    decreases n,
{
    if n > 0 {
        bits_are_sound(addr, first, value, n - 1, npins, dom);
        if bit_set(value, n - 1) {
            sound_append(
                bit_steps(addr, first, value, n - 1, npins, dom),
                pin_steps(addr, first + n - 1, n - 1, npins, dom),
                npins,
                dom,
            );
        } else {
            assert(bit_steps(addr, first, value, n, npins, dom) =~= bit_steps(
                addr,
                first,
                value,
                n - 1,
                npins,
                dom,
            ));
        }
    }
}

proof fn groups_are_sound(base: usize, group: int, values: Seq<u32>, npins: u32, dom: Set<u32>)
    ensures
        sound_steps(group_steps(base, group, values, npins, dom), npins, dom),
    decreases values.len(),
{
    if values.len() > 0 {
        let first = 32 * (values.len() - 1);
        let addr = reg(base, group_offset(group, first));
        let front = group_steps(base, group, values.drop_last(), npins, dom);
        let read = seq![PinStep::Access(Op::Read { addr, value: values.last() })];
        groups_are_sound(base, group, values.drop_last(), npins, dom);
        bits_are_sound(addr, first, values.last(), 32, npins, dom);
        sound_append(front, read, npins, dom);
        sound_append(
            front + read,
            bit_steps(addr, first, values.last(), 32, npins, dom),
            npins,
            dom,
        );
    }
}

/// Whatever the status words say, only pins that exist and have a handler are
/// handled.
pub proof fn only_registered_pins_are_handled(
    base: usize,
    rows: Seq<Seq<u32>>,
    npins: u32,
    dom: Set<u32>,
)
    ensures
        sound_steps(scan_steps(base, rows, npins, dom), npins, dom),
    decreases rows.len(),
{
    if rows.len() > 0 {
        only_registered_pins_are_handled(base, rows.drop_last(), npins, dom);
        groups_are_sound(base, rows.len() - 1, rows.last(), npins, dom);
        sound_append(
            scan_steps(base, rows.drop_last(), npins, dom),
            group_steps(base, rows.len() - 1, rows.last(), npins, dom),
            npins,
            dom,
        );
    }
}

} // verus!
