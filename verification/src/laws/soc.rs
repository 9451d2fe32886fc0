//! The small devices of the chip: watchdog, USB controller, mailboxes and port
//! controllers.

use crate::asc::{fetch_ops, post_ops, AscMessage};
use crate::bus::{reg, registers_after, updated, Op};
use crate::bytes::from_le32;
use crate::cd321x::{register_from, reply_word, snapshot_registers};
use crate::dwc3::{announces_usb3, controller_ops, event_ops, phy_ops};
use crate::i2c::I2cError;
use crate::laws::{registers_stepped, stepped};
use crate::wdt::{start_ops, start_result, AppleWdt};
use vstd::prelude::*;

verus! {

/// Bits that the devices set and show, as numbers.
proof fn bits_in_numbers(x: u32, f: u64)
    by (bit_vector)
    ensures
        (updated(x, 0x6000_3000, 0x1001) % 2 == 1) && (updated(x, 0x6000_3000, 0x1001) / 0x1000 % 4
            == 1) && (updated(x, 0x6000_3000, 0x1001) / 0x2000_0000 % 4 == 0) && (updated(
            x,
            0x6000_3000,
            0x1001,
        ) / 2 % 0x800 == x / 2 % 0x800) && (updated(x, 0, 0xfc) / 4 % 64 == 63) && (updated(x, 0, 0xfc)
            % 4 == x % 4) && (updated(x, 0, 0x16) / 2 % 2 == 1) && (updated(x, 0, 0x16) / 4 % 2 == 1)
            && (updated(x, 0, 0x16) / 16 % 2 == 1) && (updated(x, 0, 2) / 2 % 2 == 1) && (updated(
            x,
            0,
            0xff00,
        ) / 0x100 % 0x100 == 0xff) && (updated(x, 0, 0x40) / 0x40 % 2 == 1) && (updated(
            updated(x, 0, 0),
            0,
            0x2_0000,
        ) / 0x2_0000 % 2 == 1) && (f as u32 == f % 0x1_0000_0000) && ((f >> 32) as u32 == f
            / 0x1_0000_0000) && ((x & 0x7000_0000) >> 28 == x / 0x1000_0000 % 8) && ((x & 0x2_0000
            == 0) == (x / 0x2_0000 % 2 == 0)),
{
}

/// A watchdog that was started with a time bites behind as many ticks of its
/// clock as fit into that time, and counts from zero.
pub proof fn started_watchdogs_bite_in_time(
    wdt: &AppleWdt,
    timeout_ms: u32,
    ctrl: u32,
    regs: Map<usize, u32>,
)
    requires
        wdt.wf(),
        timeout_ms > 0,
        start_result(wdt, timeout_ms, ctrl) is Ok,
    ensures
        ({
            let after = registers_after(start_ops(wdt, timeout_ms, ctrl), regs);
            let bite = after[(wdt.base_addr + 0x14) as usize] as int;
            &&& bite * 1000 <= timeout_ms * wdt.clk_rate_hz < (bite + 1) * 1000
            &&& bite > 0
            &&& after[(wdt.base_addr + 0x10) as usize] == 0
            &&& after[(wdt.base_addr + 0x1c) as usize] == 4
        }),
{
    reveal_with_fuel(stepped, 5);
    let ops = start_ops(wdt, timeout_ms, ctrl);
    assert(ops.len() == 4);
    registers_stepped(ops, 4, regs);
}

proof fn host_numbers(a: u32, b: u32, c: u32, d: u32)
    ensures
        updated(a, 0x6000_3000, 0x1001) % 2 == 1,
        updated(a, 0x6000_3000, 0x1001) / 0x1000 % 4 == 1,
        updated(a, 0x6000_3000, 0x1001) / 0x2000_0000 % 4 == 0,
        updated(a, 0x6000_3000, 0x1001) / 2 % 0x800 == a / 2 % 0x800,
        updated(b, 0, 0xfc) / 4 % 64 == 63,
        updated(b, 0, 0xfc) % 4 == b % 4,
        updated(c, 0, 0x16) / 2 % 2 == 1,
        updated(c, 0, 0x16) / 4 % 2 == 1,
        updated(c, 0, 0x16) / 16 % 2 == 1,
        updated(d, 0, 2) / 2 % 2 == 1,
{
    bits_in_numbers(a, 0);
    bits_in_numbers(b, 0);
    bits_in_numbers(c, 0);
    bits_in_numbers(d, 0);
}

/// The controller comes up as a host: mode 1 in bits 12 and 13 of its control
/// register, clock gating off, all burst sizes on.
pub proof fn controllers_come_up_as_hosts(base: usize, regs: Map<usize, u32>)
    requires
        base + 0x10000 <= usize::MAX,
    ensures
        ({
            let after = registers_after(controller_ops(base), regs);
            let control = after[(base + 0xc110) as usize];
            &&& control % 2 == 1
            &&& control / 0x1000 % 4 == 1
            &&& control / 0x2000_0000 % 4 == 0
            &&& control / 2 % 0x800 == regs[(base + 0xc110) as usize] / 2 % 0x800
            &&& after[(base + 0xc100) as usize] / 4 % 64 == 63
            &&& after[(base + 0xc100) as usize] % 4 == regs[(base + 0xc100) as usize] % 4
            &&& after[(base + 0xc800) as usize] / 2 % 2 == 1
            &&& after[(base + 0xc800) as usize] / 4 % 2 == 1
            &&& after[(base + 0xc800) as usize] / 16 % 2 == 1
            &&& after[(base + 0xc804) as usize] / 2 % 2 == 1
            &&& after[(base + 0xcd38) as usize] == 0x0f80_0f80
            &&& after[(base + 0xcd3c) as usize] == 0x0fc0_0fc0
            &&& after[(base + 0xcd40) as usize] == 0x14_0a10
        }),
{
    reveal_with_fuel(stepped, 8);
    registers_stepped(controller_ops(base), 7, regs);
    let after = registers_after(controller_ops(base), regs);
    let a = regs[reg(base, 0xc110)];
    let b = regs[reg(base, 0xc100)];
    let c = regs[reg(base, 0xc800)];
    let d = regs[reg(base, 0xc804)];
    assert(after[reg(base, 0xc110)] == updated(a, 0x6000_3000, 0x1001));
    assert(after[reg(base, 0xc100)] == updated(b, 0, 0xfc));
    assert(after[reg(base, 0xc800)] == updated(c, 0, 0x16));
    assert(after[reg(base, 0xc804)] == updated(d, 0, 2));
    host_numbers(a, b, c, d);
}

proof fn event_numbers(frame: u64)
    ensures
        frame as u32 == frame % 0x1_0000_0000,
        (frame >> 32) as u32 == frame / 0x1_0000_0000,
{
    bits_in_numbers(0, frame);
}

proof fn phy_numbers(a: u32, b: u32, c: u32)
    ensures
        updated(a, 0, 0xff00) / 0x100 % 0x100 == 0xff,
        updated(b, 0, 0x40) / 0x40 % 2 == 1,
        updated(updated(c, 0, 0), 0, 0x2_0000) / 0x2_0000 % 2 == 1,
{
    bits_in_numbers(a, 0);
    bits_in_numbers(b, 0);
    bits_in_numbers(c, 0);
}

/// The event buffer that the controller is given is the page it got, 4 KiB long
/// and empty; both transceivers may go to sleep.
pub proof fn controllers_know_their_events(base: usize, frame: u64, regs: Map<usize, u32>)
    requires
        base + 0x10000 <= usize::MAX,
    ensures
        ({
            let after = registers_after(event_ops(base, frame), regs);
            let phy = registers_after(phy_ops(base), regs);
            &&& after[(base + 0xc400) as usize] + 0x1_0000_0000 * after[(base + 0xc404) as usize]
                == frame
            &&& after[(base + 0xc408) as usize] == 4096
            &&& after[(base + 0xc40c) as usize] == 0
            &&& phy[(base + 0xc2c0) as usize] / 0x100 % 0x100 == 0xff
            &&& phy[(base + 0xc200) as usize] / 0x40 % 2 == 1
            &&& phy[(base + 0xc2a0) as usize] / 0x2_0000 % 2 == 1
        }),
{
    reveal_with_fuel(stepped, 5);
    registers_stepped(event_ops(base, frame), 4, regs);
    registers_stepped(phy_ops(base), 4, regs);
    let phy = registers_after(phy_ops(base), regs);
    let a = regs[reg(base, 0xc2c0)];
    let b = regs[reg(base, 0xc200)];
    let c = regs[reg(base, 0xc2a0)];
    assert(phy[reg(base, 0xc2c0)] == updated(a, 0, 0xff00));
    assert(phy[reg(base, 0xc200)] == updated(b, 0, 0x40));
    assert(phy[reg(base, 0xc2a0)] == updated(updated(c, 0, 0), 0, 0x2_0000));
    phy_numbers(a, b, c);
    event_numbers(frame);
}

/// The parameters of a controller name its speed in bits 28 to 30: 3 and above
/// is USB 3. A mailbox holds a message where bit 17 of its status is clear; it
/// is then read from 0x830 and 0x838 and sent through 0x800 and 0x808.
pub proof fn words_of_the_hardware(
    params: u32,
    base: usize,
    status: u32,
    msg0: u64,
    msg1: u64,
    msg: AscMessage,
)
    requires
        base + 0x1000 <= usize::MAX,
    ensures
        announces_usb3(params) == (params / 0x1000_0000 % 8 >= 3),
        fetch_ops(base, status, msg0, msg1)[0] == (Op::Read {
            addr: (base + 0x114) as usize,
            value: status,
        }),
        status / 0x2_0000 % 2 == 1 ==> fetch_ops(base, status, msg0, msg1).len() == 1,
        status / 0x2_0000 % 2 == 0 ==> {
            let ops = fetch_ops(base, status, msg0, msg1);
            &&& ops.len() == 4
            &&& ops[1] == (Op::Read64 { addr: (base + 0x830) as usize, wide: msg0 })
            &&& ops[2] == (Op::Read64 { addr: (base + 0x838) as usize, wide: msg1 })
        },
        post_ops(base, msg)[1] == (Op::Write64 { addr: (base + 0x800) as usize, wide: msg.msg0 }),
        post_ops(base, msg)[2] == (Op::Write64 {
            addr: (base + 0x808) as usize,
            wide: msg.msg1 as u64,
        }),
{
    bits_in_numbers(params, 0);
    bits_in_numbers(status, 0);
}

/// A reply of a port controller tells its length first: as many bytes as were
/// asked for have to follow, and they are the register, lowest byte first.
pub proof fn port_replies_follow_their_length(data: Seq<u8>, n: nat)
    ensures
        register_from(Ok(data), n) is Ok <==> data.len() > n && data[0] >= n,
        register_from(Ok(data), n) is Ok ==> {
            let value = register_from(Ok(data), n)->Ok_0;
            value.len() == n && forall|i: int| 0 <= i < n ==> #[trigger] value[i] == data[1 + i]
        },
        data.len() > 4 && data[0] >= 4 ==> reply_word(Ok(data)) == data[1] + 0x100 * data[2]
            + 0x1_0000 * data[3] + 0x100_0000 * data[4],
        snapshot_registers() == seq![0x00u8, 0x03, 0x1a, 0x3f, 0x5f],
{
    let got: Result<Seq<u8>, I2cError> = Ok(data);
    if data.len() > 4 && data[0] >= 4 {
        let value = register_from(got, 4)->Ok_0;
        assert(value[0] == data[1] && value[1] == data[2] && value[2] == data[3] && value[3]
            == data[4]);
        assert(from_le32(value, 0) == reply_word(got));
    }
}

} // verus!
