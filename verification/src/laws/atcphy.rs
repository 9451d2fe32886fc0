//! The Type-C PHY: what its registers hold once it was set up.

use crate::atcphy::{
    check_ops, core_off_ops, core_on_ops, crossbar_ops, domain_down, domain_up, dp_pipe_ops,
    dummy_pipe_ops, dummy_pipe_result, dwc3_assert_ops, lock_ops, override_ops, requested_mode,
    dwc3_deassert_ops, init_ops, lane_override_ops, mode_tunable_ops, phy_release_ops,
    tunable_at, tune_ops, usb2_mode_ops, usb2_off_ops, usb2_on_ops, AppleAtcPhy, AtcPhyMode,
    PhyError, PhyMode, PipeOutcome,
};
use crate::bus::{
    reg, registers_after, registers_append, updated, Op,
};
use crate::laws::{registers_stepped, stepped};
use vstd::prelude::*;

verus! {

/// A register of the core powered on.
spec fn powered_on(x: u32) -> u32 {
    updated(updated(updated(updated(x, 0, 1), 0, 2), 4, 0), 0, 8)
}

/// A register of the core powered off.
spec fn powered_off(x: u32) -> u32 {
    updated(updated(updated(updated(updated(x, 0x10, 0), 0, 4), 8, 0), 2, 0), 1, 0)
}

/// The control register of the transceiver powered on.
spec fn control_on(x: u32) -> u32 {
    updated(updated(updated(updated(x, 8, 0), 1, 0), 2, 0), 0, 4)
}

/// The control register of the transceiver powered off.
spec fn control_off(x: u32) -> u32 {
    updated(updated(updated(updated(x, 0, 8), 0, 2), 0, 1), 4, 0)
}

/// Clocks of the transceiver on.
spec fn gates_open(x: u32) -> u32 {
    updated(updated(x, 0x2000_0000, 0), 0x4000_0000, 0)
}

/// Clocks of the transceiver off.
spec fn gates_shut(x: u32) -> u32 {
    updated(updated(x, 0, 0x2000_0000), 0, 0x4000_0000)
}

/// The bits that the sequences of the PHY set and clear, as numbers.
proof fn bits_in_numbers(x: u32)
    by (bit_vector)
    ensures
        updated(x, 0x3ffff, 0x111) % 32 == 0x11,
        updated(x, 0x3ffff, 0x111) / 32 % 0x2000 == 8,
        updated(x, 0x3ffff, 0x111) / 0x40000 == x / 0x40000,
        updated(x, 0x3ffff, 0x110) % 32 == 0x10,
        updated(x, 0x3ffff, 0x110) / 32 % 0x2000 == 8,
        updated(x, 0x3ffff, 0x110) / 0x40000 == x / 0x40000,
        updated(x, 0, 4) / 4 % 2 == 1,
        updated(x, 0, 4) % 4 == x % 4,
        updated(x, 0, 4) / 8 == x / 8,
        updated(x, 4, 0) / 4 % 2 == 0,
        updated(x, 4, 0) % 4 == x % 4,
        updated(x, 4, 0) / 8 == x / 8,
        powered_on(x) % 4 == 3,
        powered_on(x) / 4 % 2 == 0,
        powered_on(x) / 8 % 2 == 1,
        powered_on(x) / 16 == x / 16,
        powered_off(x) % 4 == 0,
        powered_off(x) / 4 % 2 == 1,
        powered_off(x) / 8 % 2 == 0,
        powered_off(x) / 16 % 2 == 0,
        powered_off(x) / 32 == x / 32,
        updated(x, 0, 1) % 2 == 1,
        updated(x, 5, 0) % 2 == 0,
        updated(x, 5, 0) / 4 % 2 == 0,
        control_on(x) % 16 == 4,
        control_on(x) / 16 == x / 16,
        control_off(x) % 16 == 11,
        control_off(x) / 16 == x / 16,
        updated(x, 0xffff_8fff, 0xf) == x / 0x1000 % 8 * 0x1000 + 15,
        gates_open(x) / 0x2000_0000 % 4 == 0,
        gates_open(x) % 0x2000_0000 == x % 0x2000_0000,
        gates_shut(x) / 0x2000_0000 % 4 == 3,
        gates_shut(x) % 0x2000_0000 == x % 0x2000_0000,
        updated(x, 0, 0x7000) / 0x1000 % 8 == 7,
        updated(x, 0, 0x7000) % 0x1000 == x % 0x1000,
        updated(x, 0, 0x7000) / 0x8000 == x / 0x8000,
        updated(x, 0x7000, 0) / 0x1000 % 8 == 0,
        updated(x, 0x7000, 0) % 0x1000 == x % 0x1000,
        updated(x, 0x7000, 0) / 0x8000 == x / 0x8000,
        updated(updated(x, 1, 0), 0, 0x10) % 2 == 0,
        updated(updated(x, 1, 0), 0, 0x10) / 16 % 2 == 1,
        updated(updated(x, 0x10, 0), 0, 1) % 2 == 1,
        updated(updated(x, 0x10, 0), 0, 1) / 16 % 2 == 0,
        updated(updated(x, 0, 2), 0, 0x20) / 2 % 2 == 1,
        updated(updated(x, 0, 2), 0, 0x20) / 32 % 2 == 1,
        updated(x, 0, 0x10) / 16 % 2 == 1,
        updated(updated(updated(x, 0x38, 0), 7, 2), 0x38, 0x20) % 64 == 0x22,
        updated(updated(updated(x, 0x38, 0), 7, 2), 0x38, 0x20) / 64 == x / 64,
        updated(updated(updated(x, 0x38, 0), 7, 4), 0x38, 0x20) % 64 == 0x24,
        updated(updated(updated(x, 0x38, 0), 7, 4), 0x38, 0x20) / 64 == x / 64,
        updated(updated(x, 0xf, 2), 0, 0x1000) % 16 == 2,
        updated(updated(x, 0xf, 2), 0, 0x1000) / 0x1000 % 2 == 1,
        updated(updated(x, 0xf, 3), 0x1000, 0) % 16 == 3,
        updated(updated(x, 0xf, 3), 0x1000, 0) / 0x1000 % 2 == 0,
{
}

proof fn crossbar_numbers(x: u32)
    ensures
        updated(x, 0x3ffff, 0x111) % 32 == 0x11,
        updated(x, 0x3ffff, 0x111) / 32 % 0x2000 == 8,
        updated(x, 0x3ffff, 0x111) / 0x40000 == x / 0x40000,
        updated(x, 0x3ffff, 0x110) % 32 == 0x10,
        updated(x, 0x3ffff, 0x110) / 32 % 0x2000 == 8,
        updated(x, 0x3ffff, 0x110) / 0x40000 == x / 0x40000,
{
    bits_in_numbers(x);
}

proof fn swap_numbers(x: u32)
    ensures
        updated(x, 0, 4) / 4 % 2 == 1,
        updated(x, 0, 4) % 4 == x % 4,
        updated(x, 0, 4) / 8 == x / 8,
        updated(x, 4, 0) / 4 % 2 == 0,
        updated(x, 4, 0) % 4 == x % 4,
        updated(x, 4, 0) / 8 == x / 8,
{
    bits_in_numbers(x);
}

proof fn release_numbers(x: u32, y: u32)
    ensures
        updated(updated(x, 0, 2), 0, 0x20) / 2 % 2 == 1,
        updated(updated(x, 0, 2), 0, 0x20) / 32 % 2 == 1,
        updated(y, 0, 0x10) / 16 % 2 == 1,
{
    bits_in_numbers(x);
    bits_in_numbers(y);
}

proof fn power_numbers(x: u32, y: u32)
    ensures
        powered_on(x) % 4 == 3,
        powered_on(x) / 4 % 2 == 0,
        powered_on(x) / 8 % 2 == 1,
        powered_on(x) / 16 == x / 16,
        powered_off(x) % 4 == 0,
        powered_off(x) / 4 % 2 == 1,
        powered_off(x) / 8 % 2 == 0,
        powered_off(x) / 16 % 2 == 0,
        powered_off(x) / 32 == x / 32,
        updated(y, 0, 1) % 2 == 1,
        updated(y, 5, 0) % 2 == 0,
        updated(y, 5, 0) / 4 % 2 == 0,
{
    bits_in_numbers(x);
    bits_in_numbers(y);
}

proof fn usb2_numbers(control: u32, signals: u32, tuning: u32)
    ensures
        control_on(control) % 16 == 4,
        control_on(control) / 16 == control / 16,
        control_off(control) % 16 == 11,
        control_off(control) / 16 == control / 16,
        updated(signals, 0xffff_8fff, 0xf) == signals / 0x1000 % 8 * 0x1000 + 15,
        gates_open(tuning) / 0x2000_0000 % 4 == 0,
        gates_open(tuning) % 0x2000_0000 == tuning % 0x2000_0000,
        gates_shut(tuning) / 0x2000_0000 % 4 == 3,
        gates_shut(tuning) % 0x2000_0000 == tuning % 0x2000_0000,
{
    bits_in_numbers(control);
    bits_in_numbers(signals);
    bits_in_numbers(tuning);
}

proof fn reset_numbers(x: u32)
    ensures
        updated(updated(x, 1, 0), 0, 0x10) % 2 == 0,
        updated(updated(x, 1, 0), 0, 0x10) / 16 % 2 == 1,
        updated(updated(x, 0x10, 0), 0, 1) % 2 == 1,
        updated(updated(x, 0x10, 0), 0, 1) / 16 % 2 == 0,
{
    bits_in_numbers(x);
}

/// The crossbar follows the plug. With the lanes swapped the protocol field
/// of the crossbar is 0x11, the swap bit is set and lane 0 carries DisplayPort
/// (2) while lane 1 carries USB 3 (1); otherwise the field is 0x10, the bit is
/// clear and the lanes are the other way round. Bits outside of the fields
/// stay as they were.
pub proof fn crossbar_follows_the_plug(core: usize, swap: bool, regs: Map<usize, u32>)
    requires
        core + 0x20008 <= usize::MAX,
    ensures
        ({
            let after = registers_after(crossbar_ops(core, swap), regs);
            let crossbar = after[(core + 0x4c) as usize];
            let misc = after[(core + 0x20008) as usize];
            let lanes = after[(core + 0x48) as usize];
            let (lane0, lane1) = if swap {
                (2int, 1int)
            } else {
                (1int, 2int)
            };
            &&& crossbar % 32 == (if swap {
                0x11int
            } else {
                0x10int
            })
            &&& crossbar / 32 % 0x2000 == 8
            &&& crossbar / 0x40000 == regs[(core + 0x4c) as usize] / 0x40000
            &&& misc / 4 % 2 == (if swap {
                1int
            } else {
                0int
            })
            &&& misc % 4 == regs[(core + 0x20008) as usize] % 4
            &&& misc / 8 == regs[(core + 0x20008) as usize] / 8
            &&& lanes == lane0 + 8 * lane0 + 64 * lane1 + 512 * lane1
        }),
{
    reveal_with_fuel(stepped, 16);
    registers_stepped(crossbar_ops(core, swap), 3, regs);
    let after = registers_after(crossbar_ops(core, swap), regs);
    let x = regs[reg(core, 0x4c)];
    let y = regs[reg(core, 0x20008)];
    assert(after[reg(core, 0x4c)] == (if swap {
        updated(x, 0x3ffff, 0x111)
    } else {
        updated(x, 0x3ffff, 0x110)
    }));
    assert(after[reg(core, 0x20008)] == (if swap {
        updated(y, 0, 4)
    } else {
        updated(y, 4, 0)
    }));
    crossbar_numbers(x);
    swap_numbers(y);
}

/// After USB 3 start-up the lanes lie as the orientation of the PHY asks.
pub proof fn started_lanes_follow_the_plug(phy: &AppleAtcPhy, regs: Map<usize, u32>)
    requires
        phy.core_base + 0x20008 <= usize::MAX,
    ensures
        ({
            let core = phy.core_base;
            let after = registers_after(init_ops(phy, true, true), regs);
            &&& after[(core + 0x4c) as usize] % 32 == (if phy.swap_lanes {
                0x11int
            } else {
                0x10int
            })
            &&& after[(core + 0x20008) as usize] / 4 % 2 == (if phy.swap_lanes {
                1int
            } else {
                0int
            })
            &&& after[(core + 0x48) as usize] % 8 == (if phy.swap_lanes {
                2int
            } else {
                1int
            })
            &&& after[(core + 0x20000) as usize] / 16 % 2 == 1
            &&& after[(core + 0x2a00) as usize] / 2 % 2 == 1
            &&& after[(core + 0x2a00) as usize] / 32 % 2 == 1
        }),
{
    reveal_with_fuel(stepped, 16);
    let core = phy.core_base;
    let first = usb2_on_ops(phy.usb2phy_base) + core_on_ops(core, true, true) + mode_tunable_ops(
        phy,
        AtcPhyMode::Usb3,
        phy.swap_lanes,
    ) + lane_override_ops(core);
    let turned = crossbar_ops(core, phy.swap_lanes);
    let last = phy_release_ops(core);
    registers_append(first + turned, last, regs);
    registers_append(first, turned, regs);
    let m1 = registers_after(first, regs);
    let m2 = registers_after(turned, m1);
    crossbar_follows_the_plug(core, phy.swap_lanes, m1);
    registers_stepped(last, 3, m2);
    let x = m2[reg(core, 0x2a00)];
    let y = m2[reg(core, 0x20000)];
    let m3 = registers_after(last, m2);
    assert(m3[reg(core, 0x2a00)] == updated(updated(x, 0, 2), 0, 0x20));
    assert(m3[reg(core, 0x20000)] == updated(y, 0, 0x10));
    release_numbers(x, y);
}

/// A core that was powered on has both domains awake, its clamps off and its
/// bus out of reset; one that was powered off has both domains asleep, its
/// clamps on, and its bus and lanes in reset.
pub proof fn power_reaches_the_core(core: usize, regs: Map<usize, u32>)
    requires
        core + 0x20008 <= usize::MAX,
    ensures
        ({
            let on = registers_after(core_on_ops(core, true, true), regs);
            let off = registers_after(core_off_ops(core, true, true), regs);
            let power = (core + 0x20000) as usize;
            let misc = (core + 0x20008) as usize;
            &&& on[power] % 4 == 3
            &&& on[power] / 4 % 2 == 0
            &&& on[power] / 8 % 2 == 1
            &&& on[power] / 16 == regs[power] / 16
            &&& on[misc] % 2 == 1
            &&& off[power] % 4 == 0
            &&& off[power] / 4 % 2 == 1
            &&& off[power] / 8 % 2 == 0
            &&& off[power] / 16 % 2 == 0
            &&& off[power] / 32 == regs[power] / 32
            &&& off[misc] % 2 == 0
            &&& off[misc] / 4 % 2 == 0
        }),
{
    reveal_with_fuel(stepped, 16);
    core_steps(core);
    registers_stepped(core_on_ops(core, true, true), 7, regs);
    registers_stepped(core_off_ops(core, true, true), 8, regs);
    let x = regs[reg(core, 0x20000)];
    let y = regs[reg(core, 0x20008)];
    let on = registers_after(core_on_ops(core, true, true), regs);
    let off = registers_after(core_off_ops(core, true, true), regs);
    assert(on[reg(core, 0x20000)] == powered_on(x));
    assert(off[reg(core, 0x20000)] == powered_off(x));
    assert(on[reg(core, 0x20008)] == updated(y, 0, 1));
    assert(off[reg(core, 0x20008)] == updated(y, 5, 0));
    power_numbers(x, y);
}

/// The power sequences as single runs.
proof fn core_steps(core: usize)
    ensures
        core_on_ops(core, true, true) == seq![
            Op::Update { addr: reg(core, 0x20008), clear: 0, set: 1 },
            Op::Update { addr: reg(core, 0x20000), clear: 0, set: 1 },
            domain_up(core, 1, true),
            Op::Update { addr: reg(core, 0x20000), clear: 0, set: 2 },
            domain_up(core, 2, true),
            Op::Update { addr: reg(core, 0x20000), clear: 4, set: 0 },
            Op::Update { addr: reg(core, 0x20000), clear: 0, set: 8 },
        ],
        core_off_ops(core, true, true) == seq![
            Op::Update { addr: reg(core, 0x20000), clear: 0x10, set: 0 },
            Op::Update { addr: reg(core, 0x20000), clear: 0, set: 4 },
            Op::Update { addr: reg(core, 0x20008), clear: 5, set: 0 },
            Op::Update { addr: reg(core, 0x20000), clear: 8, set: 0 },
            Op::Update { addr: reg(core, 0x20000), clear: 2, set: 0 },
            domain_down(core, 2, true),
            Op::Update { addr: reg(core, 0x20000), clear: 1, set: 0 },
            domain_down(core, 1, true),
        ],
{
}

/// The USB 2 transceiver powered on runs with its resets and power-down off,
/// its clocks on and VBUS forced, and keeps its host field; powered off it is
/// isolated, with all of these the other way round.
pub proof fn usb2_power_reaches_the_transceiver(usb2: usize, regs: Map<usize, u32>)
    requires
        usb2 + 0x1c <= usize::MAX,
    ensures
        ({
            let on = registers_after(usb2_on_ops(usb2), regs);
            let off = registers_after(usb2_off_ops(usb2), regs);
            let control = (usb2 + 4) as usize;
            let signals = (usb2 + 8) as usize;
            let tuning = (usb2 + 0x1c) as usize;
            &&& on[usb2] == 2
            &&& on[control] % 16 == 4
            &&& on[control] / 16 == regs[control] / 16
            &&& on[signals] == regs[signals] / 0x1000 % 8 * 0x1000 + 15
            &&& on[tuning] / 0x2000_0000 % 4 == 0
            &&& on[tuning] % 0x2000_0000 == regs[tuning] % 0x2000_0000
            &&& off[usb2] == 4
            &&& off[control] % 16 == 11
            &&& off[control] / 16 == regs[control] / 16
            &&& off[tuning] / 0x2000_0000 % 4 == 3
            &&& off[tuning] % 0x2000_0000 == regs[tuning] % 0x2000_0000
        }),
{
    reveal_with_fuel(stepped, 16);
    registers_stepped(usb2_on_ops(usb2), 13, regs);
    registers_stepped(usb2_off_ops(usb2), 12, regs);
    let on = registers_after(usb2_on_ops(usb2), regs);
    let off = registers_after(usb2_off_ops(usb2), regs);
    let control = regs[reg(usb2, 4)];
    let signals = regs[reg(usb2, 8)];
    let tuning = regs[reg(usb2, 0x1c)];
    assert(on[reg(usb2, 4)] == control_on(control));
    assert(on[reg(usb2, 8)] == updated(signals, 0xffff_8fff, 0xf));
    assert(on[reg(usb2, 0x1c)] == gates_open(tuning));
    assert(off[reg(usb2, 4)] == control_off(control));
    assert(off[reg(usb2, 0x1c)] == gates_shut(tuning));
    usb2_numbers(control, signals, tuning);
}

/// Host and dual-role modes set the host field of the USB 2 transceiver,
/// device mode clears it, and no other bit changes.
pub proof fn usb2_mode_sets_the_host_field(usb2: usize, mode: PhyMode, regs: Map<usize, u32>)
    requires
        usb2 + 0x1c <= usize::MAX,
        mode is UsbHost || mode is UsbOtg || mode is UsbDevice,
    ensures
        ({
            let after = registers_after(usb2_mode_ops(usb2, mode), regs)[(usb2 + 8) as usize];
            let before = regs[(usb2 + 8) as usize];
            &&& after / 0x1000 % 8 == (if mode is UsbDevice {
                0int
            } else {
                7int
            })
            &&& after % 0x1000 == before % 0x1000
            &&& after / 0x8000 == before / 0x8000
        }),
{
    reveal_with_fuel(stepped, 16);
    bits_in_numbers(regs[reg(usb2, 8)]);
    registers_stepped(usb2_mode_ops(usb2, mode), 1, regs);
}

/// The DWC3 core in reset has its reset line low and its clamps on; out of
/// reset it is the other way round.
pub proof fn dwc3_reset_reaches_the_core(ph: usize, regs: Map<usize, u32>)
    requires
        ph + 0x20 <= usize::MAX,
    ensures
        ({
            let held = registers_after(dwc3_assert_ops(ph), regs)[(ph + 0x1c) as usize];
            let free = registers_after(dwc3_deassert_ops(ph), regs)[(ph + 0x1c) as usize];
            &&& held % 2 == 0
            &&& held / 16 % 2 == 1
            &&& free % 2 == 1
            &&& free / 16 % 2 == 0
        }),
{
    reveal_with_fuel(stepped, 16);
    registers_stepped(dwc3_assert_ops(ph), 2, regs);
    registers_stepped(dwc3_deassert_ops(ph), 2, regs);
    let x = regs[reg(ph, 0x1c)];
    assert(registers_after(dwc3_assert_ops(ph), regs)[reg(ph, 0x1c)] == updated(
        updated(x, 1, 0),
        0,
        0x10,
    ));
    assert(registers_after(dwc3_deassert_ops(ph), regs)[reg(ph, 0x1c)] == updated(
        updated(x, 0x10, 0),
        0,
        1,
    ));
    reset_numbers(x);
}

/// The tables of a swapped plug: the lane that carries USB 3 is tuned for USB,
/// the other one for DisplayPort; in pure DisplayPort mode both are.
pub proof fn lanes_are_tuned_for_their_protocol(phy: &AppleAtcPhy, mode: AtcPhyMode)
    ensures
        ({
            let t = phy.tunables;
            let core = phy.core_base;
            let straight = mode_tunable_ops(phy, mode, false);
            let swapped = mode_tunable_ops(phy, mode, true);
            let n = mode_tunable_ops(phy, mode, false).len() - (if mode is DisplayPort {
                t.lane0_dp@.len()
            } else {
                t.lane0_usb@.len()
            }) - t.lane1_dp@.len();
            &&& straight.skip(n) == (if mode is DisplayPort {
                tune_ops(t.lane0_dp@, core)
            } else {
                tune_ops(t.lane0_usb@, core)
            }) + tune_ops(t.lane1_dp@, core)
            &&& swapped.skip(n) == (if mode is DisplayPort {
                tune_ops(t.lane1_dp@, core)
            } else {
                tune_ops(t.lane1_usb@, core)
            }) + tune_ops(t.lane0_dp@, core)
            &&& straight.take(n) == swapped.take(n)
        }),
{
    let t = phy.tunables;
    let core = phy.core_base;
    let common = tune_ops(t.common_a@, core) + (match phy.axi2af_base {
        Some(base) => tune_ops(t.axi2af@, base),
        None => Seq::empty(),
    }) + tune_ops(t.common_b@, core);
    let straight = mode_tunable_ops(phy, mode, false);
    let swapped = mode_tunable_ops(phy, mode, true);
    let a = if mode is DisplayPort {
        tune_ops(t.lane0_dp@, core)
    } else {
        tune_ops(t.lane0_usb@, core)
    };
    let b = if mode is DisplayPort {
        tune_ops(t.lane1_dp@, core)
    } else {
        tune_ops(t.lane1_usb@, core)
    };
    let n = common.len() as int;
    assert(straight =~= common + a + tune_ops(t.lane1_dp@, core));
    assert(swapped =~= common + b + tune_ops(t.lane0_dp@, core));
    assert(straight.skip(n) =~= a + tune_ops(t.lane1_dp@, core));
    assert(swapped.skip(n) =~= b + tune_ops(t.lane0_dp@, core));
    assert(straight.take(n) =~= common);
    assert(swapped.take(n) =~= common);
}

/// An entry of a tunable table is three big-endian words: where, which bits,
/// and what to put there; applied, it puts the value into those bits and
/// leaves all others.
pub proof fn tunables_put_their_value(
    bytes: Seq<u8>,
    i: int,
    base: usize,
    regs: Map<usize, u32>,
)
    requires
        0 <= i < bytes.len() / 12,
        base + tunable_at(bytes, i).offset <= usize::MAX,
    ensures
        ({
            let t = tunable_at(bytes, i);
            let at = (base + t.offset) as usize;
            let after = registers_after(seq![t.op(base)], regs)[at];
            &&& t.offset == 0x100_0000 * bytes[12 * i] + 0x1_0000 * bytes[12 * i + 1] + 0x100
                * bytes[12 * i + 2] + bytes[12 * i + 3]
            &&& t.mask == 0x100_0000 * bytes[12 * i + 4] + 0x1_0000 * bytes[12 * i + 5] + 0x100
                * bytes[12 * i + 6] + bytes[12 * i + 7]
            &&& t.value == 0x100_0000 * bytes[12 * i + 8] + 0x1_0000 * bytes[12 * i + 9] + 0x100
                * bytes[12 * i + 10] + bytes[12 * i + 11]
            &&& after & !(t.mask | t.value) == regs[at] & !(t.mask | t.value)
            &&& after & t.value == t.value
            &&& after & (t.mask & !t.value) == 0
        }),
{
    reveal_with_fuel(stepped, 16);
    let t = tunable_at(bytes, i);
    let at = reg(base, t.offset as int);
    let x = regs[at];
    let mask = t.mask;
    let value = t.value;
    registers_stepped(seq![t.op(base)], 1, regs);
    assert(((x & !mask) | value) & !(mask | value) == x & !(mask | value) && ((x & !mask) | value)
        & value == value && ((x & !mask) | value) & (mask & !value) == 0) by (bit_vector);
}

proof fn mux_numbers(x: u32, y: u32)
    ensures
        updated(updated(updated(x, 0x38, 0), 7, 2), 0x38, 0x20) % 64 == 0x22,
        updated(updated(updated(x, 0x38, 0), 7, 2), 0x38, 0x20) / 64 == x / 64,
        updated(updated(updated(x, 0x38, 0), 7, 4), 0x38, 0x20) % 64 == 0x24,
        updated(updated(updated(x, 0x38, 0), 7, 4), 0x38, 0x20) / 64 == x / 64,
        updated(updated(y, 0xf, 2), 0, 0x1000) % 16 == 2,
        updated(updated(y, 0xf, 2), 0, 0x1000) / 0x1000 % 2 == 1,
        updated(updated(y, 0xf, 3), 0x1000, 0) % 16 == 3,
        updated(updated(y, 0xf, 3), 0x1000, 0) / 0x1000 % 2 == 0,
{
    bits_in_numbers(x);
    bits_in_numbers(y);
}

/// A parked pipehandler takes data from source 2 and its clock from source 4,
/// and is in reset in power state 2.
pub proof fn parked_pipes_take_the_dummy(ph: usize, o: PipeOutcome, regs: Map<usize, u32>)
    requires
        ph + 0x100 <= usize::MAX,
        dummy_pipe_result(o) is Ok,
    ensures
        ({
            let after = registers_after(dummy_pipe_ops(ph, o), regs);
            &&& after[(ph + 0x0c) as usize] % 8 == 2
            &&& after[(ph + 0x0c) as usize] / 8 % 8 == 4
            &&& after[(ph + 0x20) as usize] % 16 == 2
            &&& after[(ph + 0x20) as usize] / 0x1000 % 2 == 1
        }),
{
    reveal_with_fuel(stepped, 12);
    let ops = dummy_pipe_ops(ph, o);
    let first = check_ops(ph, o.ack, o.released) + override_ops(ph) + lock_ops(ph, o.req, o.locked);
    let n = first.len() as int;
    let last = ops.skip(n);
    assert(ops =~= first + last);
    registers_append(first, last, regs);
    let m = registers_after(first, regs);
    registers_stepped(last, last.len(), m);
    let after = registers_after(last, m);
    let x = m[reg(ph, 0x0c)];
    let y = m[reg(ph, 0x20)];
    assert(last.len() == 10);
    assert(after[reg(ph, 0x0c)] == updated(updated(updated(x, 0x38, 0), 7, 2), 0x38, 0x20));
    assert(after[reg(ph, 0x20)] == updated(updated(y, 0xf, 2), 0, 0x1000));
    mux_numbers(x, y);
    low_six(after[reg(ph, 0x0c)]);
}

proof fn low_six(x: u32)
    ensures
        x % 8 == x % 64 % 8,
        x / 8 % 8 == x % 64 / 8,
{
}

/// A pipehandler on DisplayPort takes data and clock from source 4, whatever the
/// multiplexer showed before, and is out of reset in power state 3.
pub proof fn display_pipes_take_displayport(ph: usize, mux: u32, regs: Map<usize, u32>)
    requires
        ph + 0x100 <= usize::MAX,
    ensures
        ({
            let after = registers_after(dp_pipe_ops(ph, mux), regs);
            &&& after[(ph + 0x0c) as usize] % 8 == 4
            &&& after[(ph + 0x0c) as usize] / 8 % 8 == 4
            &&& after[(ph + 0x0c) as usize] / 64 == mux / 64
            &&& after[(ph + 0x20) as usize] % 16 == 3
            &&& after[(ph + 0x20) as usize] / 0x1000 % 2 == 0
        }),
{
    reveal_with_fuel(stepped, 12);
    let ops = dp_pipe_ops(ph, mux);
    registers_stepped(ops, ops.len(), regs);
    let after = registers_after(ops, regs);
    let y = regs[reg(ph, 0x20)];
    assert(after[reg(ph, 0x0c)] == updated(updated(updated(mux, 0x38, 0), 7, 4), 0x38, 0x20));
    assert(after[reg(ph, 0x20)] == updated(updated(y, 0xf, 3), 0x1000, 0));
    mux_numbers(mux, y);
    low_six(after[reg(ph, 0x0c)]);
}

/// What is asked of a lane decides what the PHY carries: USB unless DisplayPort,
/// alone or beside USB, is asked for.
pub proof fn requests_decide_the_mode(n: u32)
    ensures
        requested_mode(None) == Ok::<AtcPhyMode, PhyError>(AtcPhyMode::Usb3),
        requested_mode(Some(PhyMode::UsbHost)) == Ok::<AtcPhyMode, PhyError>(AtcPhyMode::Usb3),
        requested_mode(Some(PhyMode::UsbDevice)) == Ok::<AtcPhyMode, PhyError>(AtcPhyMode::Usb3),
        requested_mode(Some(PhyMode::UsbOtg)) == Ok::<AtcPhyMode, PhyError>(AtcPhyMode::Usb3),
        requested_mode(Some(PhyMode::DisplayPort)) == Ok::<AtcPhyMode, PhyError>(
            AtcPhyMode::DisplayPort,
        ),
        n == 0 ==> requested_mode(Some(PhyMode::Other(n))) == Ok::<AtcPhyMode, PhyError>(
            AtcPhyMode::Usb3,
        ),
        n == 1 ==> requested_mode(Some(PhyMode::Other(n))) == Ok::<AtcPhyMode, PhyError>(
            AtcPhyMode::Usb3Dp,
        ),
        n > 1 ==> requested_mode(Some(PhyMode::Other(n))) is Err,
{
}

} // verus!
