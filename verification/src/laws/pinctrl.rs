//! Pins: what their registers say once they were set up.

use crate::bus::{reg, registers_after, updated, Op};
use crate::laws::{registers_stepped, stepped};
use crate::pinctrl::{
    ack_ops, function_op, group_of, input_op, masked_op, output_op, pin_op, pull_field, pull_op, status_bit, trigger_mode,
    trigger_op, value_op, GpioIrqTrigger, GpioPull,
};
use vstd::prelude::*;

verus! {

/// Fields of a pin register, as numbers.
proof fn fields_in_numbers(x: u32, f: u32, n: u32)
    by (bit_vector)
    ensures
        (updated(x, 0x6f, 3) % 128 == x / 16 % 2 * 16 + 3) && (updated(x, 0x6f, 3) / 128 == x / 128)
            && (updated(x, 0x6f, 2) % 128 == x / 16 % 2 * 16 + 2) && (updated(x, 0x6f, 2) / 128 == x
            / 128) && (updated(x, 0x26f, 0x20e) % 128 == x / 16 % 2 * 16 + 14) && (updated(
            x,
            0x26f,
            0x20e,
        ) / 128 % 4 == x / 128 % 4) && (updated(x, 0x26f, 0x20e) / 512 == x / 1024 * 2 + 1) && (
        updated(x, 1, 1) == x / 2 * 2 + 1) && (updated(x, 1, 0) == x / 2 * 2) && (updated(x, 0x180, 0)
            % 512 == x % 128) && (updated(x, 0x180, 0) / 512 == x / 512) && (updated(x, 0x180, 0x80)
            % 512 == x % 128 + 128) && (updated(x, 0x180, 0x80) / 512 == x / 512) && (updated(
            x,
            0x180,
            0x180,
        ) % 512 == x % 128 + 3 * 128) && (updated(x, 0x180, 0x180) / 512 == x / 512) && (updated(
            x,
            0x260,
            ((f & 3) << 5) | 0x200,
        ) % 128 == x % 32 + f % 4 * 32) && (updated(x, 0x260, ((f & 3) << 5) | 0x200) / 128 % 4 == x
            / 128 % 4) && (updated(x, 0x260, ((f & 3) << 5) | 0x200) / 512 == x / 1024 * 2 + 1) && (
        updated(x, 0xe, 0xe) % 16 == x % 2 + 14) && (updated(x, 0xe, 0xe) / 16 == x / 16) && (
        updated(x, 0x7_026f, 0x8u32 | 0x200) % 128 == x / 16 % 2 * 16 + 2 * 4) && (updated(
            x,
            0x7_026f,
            0xau32 | 0x200,
        ) % 128 == x / 16 % 2 * 16 + 2 * 5) && (updated(x, 0x7_026f, 0x4u32 | 0x200) % 128 == x / 16 % 2
            * 16 + 2 * 2) && (updated(x, 0x7_026f, 0x6u32 | 0x200) % 128 == x / 16 % 2 * 16 + 2 * 3) && (
        updated(x, 0x7_026f, f & 0xe | 0x200) / 512 % 2 == 1) && (updated(
            x,
            0x7_026f,
            f & 0xe | 0x200,
        ) / 0x1_0000 == x / 0x8_0000 * 8) && (0x8u32 & 0xe == 8 && 0xau32 & 0xe == 0xa && 0x4u32
            & 0xe == 4 && 0x6u32 & 0xe == 6) && ((x & 0x7_0000) >> 16 == x / 0x1_0000 % 8) && (1u32
            << (n & 31) == 1u32 << (n % 32)),
{
}

/// The one register that an access to a pin changes.
proof fn pin_changed(base: usize, pin: u32, clear: u32, set: u32, regs: Map<usize, u32>)
    ensures
        registers_after(
            seq![pin_op(base, pin, clear, set)],
            regs,
        )[reg(base, 4 * (pin as int))] == updated(regs[reg(base, 4 * (pin as int))], clear, set),
{
    reveal_with_fuel(stepped, 2);
    registers_stepped(seq![pin_op(base, pin, clear, set)], 1, regs);
}

/// An output shows its value in bit 0, with mode 1 and function 0; setting a
/// value changes nothing else. An input has mode 7, function 0 and its buffer
/// on. Masking an interrupt changes the mode to 7 and nothing else.
pub proof fn pins_take_their_direction(base: usize, pin: u32, value: bool, regs: Map<usize, u32>)
    requires
        base + 4 * pin <= usize::MAX,
    ensures
        ({
            let at = (base + 4 * pin) as usize;
            let before = regs[at];
            let bit = if value {
                1int
            } else {
                0int
            };
            let output = registers_after(seq![output_op(base, pin, value)], regs)[at];
            let input = registers_after(seq![input_op(base, pin)], regs)[at];
            let set = registers_after(seq![value_op(base, pin, value)], regs)[at];
            let masked = registers_after(seq![masked_op(base, pin)], regs)[at];
            &&& output % 128 == before / 16 % 2 * 16 + 2 * 1 + bit
            &&& output / 128 == before / 128
            &&& input % 128 == before / 16 % 2 * 16 + 2 * 7
            &&& input / 128 % 4 == before / 128 % 4
            &&& input / 512 == before / 1024 * 2 + 1
            &&& set == before / 2 * 2 + bit
            &&& masked % 16 == before % 2 + 2 * 7
            &&& masked / 16 == before / 16
        }),
{
    let x = regs[reg(base, 4 * (pin as int))];
    pin_changed(
        base,
        pin,
        0x6f,
        if value {
            3
        } else {
            2
        },
        regs,
    );
    pin_changed(base, pin, 0x26f, 0x20e, regs);
    pin_changed(
        base,
        pin,
        1,
        if value {
            1
        } else {
            0
        },
        regs,
    );
    pin_changed(base, pin, 0xe, 0xe, regs);
    direction_numbers(x);
}

proof fn direction_numbers(x: u32)
    ensures
        updated(x, 0x6f, 3) % 128 == x / 16 % 2 * 16 + 3,
        updated(x, 0x6f, 3) / 128 == x / 128,
        updated(x, 0x6f, 2) % 128 == x / 16 % 2 * 16 + 2,
        updated(x, 0x6f, 2) / 128 == x / 128,
        updated(x, 0x26f, 0x20e) % 128 == x / 16 % 2 * 16 + 14,
        updated(x, 0x26f, 0x20e) / 128 % 4 == x / 128 % 4,
        updated(x, 0x26f, 0x20e) / 512 == x / 1024 * 2 + 1,
        updated(x, 1, 1) == x / 2 * 2 + 1,
        updated(x, 1, 0) == x / 2 * 2,
        updated(x, 0xe, 0xe) % 16 == x % 2 + 14,
        updated(x, 0xe, 0xe) / 16 == x / 16,
{
    fields_in_numbers(x, 0, 0);
}

/// The resistor of a pin lies in bits 7 and 8: 0 off, 1 down, 3 up. Its function
/// lies in bits 5 and 6, with the input buffer on. No other bit changes.
pub proof fn pins_take_their_function(
    base: usize,
    pin: u32,
    pull: GpioPull,
    func: u8,
    regs: Map<usize, u32>,
)
    requires
        base + 4 * pin <= usize::MAX,
    ensures
        ({
            let at = (base + 4 * pin) as usize;
            let before = regs[at];
            let pulled = registers_after(seq![pull_op(base, pin, pull)], regs)[at];
            let chosen = registers_after(seq![function_op(base, pin, func)], regs)[at];
            &&& pulled % 512 == before % 128 + (match pull {
                GpioPull::Off => 0int,
                GpioPull::Down => 128,
                GpioPull::Up => 384,
            })
            &&& pulled / 512 == before / 512
            &&& chosen % 128 == before % 32 + func % 4 * 32
            &&& chosen / 128 % 4 == before / 128 % 4
            &&& chosen / 512 == before / 1024 * 2 + 1
        }),
{
    let x = regs[reg(base, 4 * (pin as int))];
    pin_changed(base, pin, 0x180, pull_field(pull), regs);
    pin_changed(base, pin, 0x260, (((func as u32) & 3) << 5) | 0x200, regs);
    function_numbers(x, func as u32);
}

proof fn function_numbers(x: u32, f: u32)
    ensures
        updated(x, 0x180, 0) % 512 == x % 128,
        updated(x, 0x180, 0) / 512 == x / 512,
        updated(x, 0x180, 0x80) % 512 == x % 128 + 128,
        updated(x, 0x180, 0x80) / 512 == x / 512,
        updated(x, 0x180, 0x180) % 512 == x % 128 + 3 * 128,
        updated(x, 0x180, 0x180) / 512 == x / 512,
        updated(x, 0x260, ((f & 3) << 5) | 0x200) % 128 == x % 32 + f % 4 * 32,
        updated(x, 0x260, ((f & 3) << 5) | 0x200) / 128 % 4 == x / 128 % 4,
        updated(x, 0x260, ((f & 3) << 5) | 0x200) / 512 == x / 1024 * 2 + 1,
{
    fields_in_numbers(x, f, 0);
}

/// An interrupt pin is an input with its buffer on, function 0 and group 0; the
/// mode tells what triggers it: 2 high, 3 low, 4 rising and 5 falling.
pub proof fn pins_take_their_trigger(
    base: usize,
    pin: u32,
    trigger: GpioIrqTrigger,
    regs: Map<usize, u32>,
)
    requires
        base + 4 * pin <= usize::MAX,
    ensures
        ({
            let at = (base + 4 * pin) as usize;
            let before = regs[at];
            let after = registers_after(seq![trigger_op(base, pin, trigger)], regs)[at];
            &&& after % 128 == before / 16 % 2 * 16 + 2 * (match trigger {
                GpioIrqTrigger::HighLevel => 2int,
                GpioIrqTrigger::LowLevel => 3,
                GpioIrqTrigger::RisingEdge => 4,
                GpioIrqTrigger::FallingEdge => 5,
            })
            &&& after / 512 % 2 == 1
            &&& after / 0x1_0000 == before / 0x8_0000 * 8
        }),
{
    let x = regs[reg(base, 4 * (pin as int))];
    let mode = trigger_mode(trigger);
    pin_changed(base, pin, 0x7_026f, mode | 0x200, regs);
    trigger_numbers(x, mode);
}

proof fn trigger_numbers(x: u32, f: u32)
    requires
        f == 8 || f == 0xa || f == 4 || f == 6,
    ensures
        updated(x, 0x7_026f, 0x8u32 | 0x200) % 128 == x / 16 % 2 * 16 + 2 * 4,
        updated(x, 0x7_026f, 0xau32 | 0x200) % 128 == x / 16 % 2 * 16 + 2 * 5,
        updated(x, 0x7_026f, 0x4u32 | 0x200) % 128 == x / 16 % 2 * 16 + 2 * 2,
        updated(x, 0x7_026f, 0x6u32 | 0x200) % 128 == x / 16 % 2 * 16 + 2 * 3,
        updated(x, 0x7_026f, f | 0x200) / 512 % 2 == 1,
        updated(x, 0x7_026f, f | 0x200) / 0x1_0000 == x / 0x8_0000 * 8,
{
    fields_in_numbers(x, f, 0);
}

/// An interrupt is acknowledged by the bit of its pin in the status word of its
/// pin, in the group that bits 16 to 18 of the pin register name.
pub proof fn interrupts_are_acknowledged(base: usize, pin: u32, value: u32, regs: Map<usize, u32>)
    requires
        base + 4 * pin + 0x1000 <= usize::MAX,
    ensures
        ack_ops(base, pin, value).len() == 2,
        ack_ops(base, pin, value)[0] == (Op::Read { addr: (base + 4 * pin) as usize, value }),
        ack_ops(base, pin, value)[1] == (Op::Write {
            addr: (base + 0x800 + 0x40 * (value as int / 0x1_0000 % 8) + 4 * (pin as int
                / 32)) as usize,
            value: 1u32 << (pin % 32),
        }),
{
    fields_in_numbers(value, 0, pin);
    assert(group_of(value) == value as int / 0x1_0000 % 8);
    assert(status_bit(pin) == 1u32 << (pin % 32));
}

} // verus!
