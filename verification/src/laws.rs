//! What the drivers do, stated in plain numbers: fields of words by division
//! and remainder, registers and memory by what they hold in the end.

use crate::bus::{registers_after, updated, Op};
use vstd::prelude::*;

pub mod atcphy;
pub mod clocks;
pub mod cpu;
pub mod dart;
pub mod dcp;
pub mod devices;
pub mod firmware;
pub mod h264;
pub mod mail;
pub mod pinctrl;
pub mod soc;
pub mod spi_hid;
pub mod video;
pub mod vp9;

verus! {

/// What the first `n` accesses leave in the registers.
pub open spec fn stepped(ops: Seq<Op>, n: nat, regs: Map<usize, u32>) -> Map<usize, u32>
    decreases n,
{
    if n == 0 {
        regs
    } else {
        let before = stepped(ops, (n - 1) as nat, regs);
        match ops[n - 1] {
            Op::Write { addr, value } => before.insert(addr, value),
            Op::Update { addr, clear, set } => before.insert(
                addr,
                updated(before[addr], clear, set),
            ),
            Op::Tune { addr, mask, value } => before.insert(
                addr,
                updated(before[addr], mask, value),
            ),
            _ => before,
        }
    }
}

/// Accesses counted one by one leave what the whole run leaves.
pub proof fn registers_stepped(ops: Seq<Op>, n: nat, regs: Map<usize, u32>)
    requires
        n <= ops.len(),
    ensures
        registers_after(ops.take(n as int), regs) == stepped(ops, n, regs),
        n == ops.len() ==> registers_after(ops, regs) == stepped(ops, n, regs),
    decreases n,
{
    assert(ops.take(ops.len() as int) =~= ops);
    if n > 0 {
        registers_stepped(ops, (n - 1) as nat, regs);
        assert(ops.take(n as int).drop_last() =~= ops.take(n - 1));
    }
}

} // verus!
