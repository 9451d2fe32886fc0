//! Processors: what their registers hold, and what they ask each other for.

use crate::cpu::{drop_ops, initialize_ops, made_by_apple};
use crate::cpufreq::{current_of, target_of, PstateEncoding};
use crate::fiq::{
    answer_ops, core_pmu_active, firing, ipi_pending, ipi_request, silence_ops,
    uncore_pmu_active, FiqState,
};
use crate::sysreg::{SysOp, SysReg};
use vstd::prelude::*;

verus! {

/// What the first `n` accesses leave in the system registers.
pub open spec fn system_after(ops: Seq<SysOp>, n: nat, regs: Map<SysReg, u64>) -> Map<SysReg, u64>
    decreases n,
{
    if n == 0 {
        regs
    } else {
        let before = system_after(ops, (n - 1) as nat, regs);
        match ops[n - 1] {
            SysOp::Write { reg, value } => before.insert(reg, value),
            _ => before,
        }
    }
}

/// Fields of the registers, as numbers.
proof fn fields_in_numbers(x: u64, y: u64, s: u32)
    by (bit_vector)
    ensures
        ((x & 7 == 5) == (x % 2 == 1 && x / 2 % 2 == 0 && x / 4 % 2 == 1)) && ((x & 0xf00 == 0xc00)
            == (x / 256 % 16 == 12)) && ((x & 0x7_0000 == 0x4_0000) == (x / 0x1_0000 % 8 == 4)) && ((x
            & 1 != 0) == (x % 2 == 1)) && ((x | 2) / 2 % 2 == 1) && ((x | 2) % 2 == x % 2) && ((x | 2)
            / 4 == x / 4) && ((x & !0xf00u64) / 256 % 16 == 0) && ((x & !0xf00u64) % 256 == x % 256)
            && ((x & !0xf00u64) / 4096 == x / 4096) && ((x & !0x7_0000u64) / 0x1_0000 % 8 == 0) && ((
        x & !0x7_0000u64) % 0x1_0000 == x % 0x1_0000) && ((x & !0x7_0000u64) / 0x8_0000 == x
            / 0x8_0000) && ((x & !3u64) == x / 4 * 4) && ((x & !1u64) == x / 2 * 2) && (((x & !2u64)
            | 1) == x / 4 * 4 + 1) && ((x | 0x1000) / 0x1000 % 2 == 1) && ((x | 0x1000) % 0x1000 == x
            % 0x1000) && ((x | 0x1000) / 0x2000 == x / 0x2000) && ((x >> 24) & 0xff == x / 0x100_0000
            % 256) && ((x >> 8) & 0xff == x / 256 % 256) && (x & 0xff == x % 256) && ((x & 0xff) | (((y
            >> 8) & 0xff) << 16) == x % 256 + 0x1_0000 * (y / 256 % 256)) && ((s >> 3) & 7 == s / 8
            % 8) && ((s >> 4) & 15 == s / 16 % 16) && ((s >> 5) & 31 == s / 32 % 32) && (s & 7 == s
            % 8) && (s & 15 == s % 16) && (s & 31 == s % 32),
{
}

/// What asks for a fast interrupt: a timer that is enabled, unmasked and due,
/// counters in interrupt mode, or the bit of another processor.
pub proof fn sources_are_fields(s: FiqState, control: u64)
    ensures
        firing(control) == (control % 2 == 1 && control / 2 % 2 == 0 && control / 4 % 2 == 1),
        core_pmu_active(s) == (s.local.pmcr0 / 256 % 16 == 12),
        uncore_pmu_active(s) == (s.local.upmcr0 / 0x1_0000 % 8 == 4 && s.local.upmsr % 2 == 1),
        ipi_pending(s) == (s.local.fast_ipi_status % 2 == 1),
{
    fields_in_numbers(control, 0, 0);
    fields_in_numbers(s.local.pmcr0, 0, 0);
    fields_in_numbers(s.local.upmcr0, 0, 0);
    fields_in_numbers(s.local.upmsr, 0, 0);
    fields_in_numbers(s.local.fast_ipi_status, 0, 0);
}

proof fn mask_numbers(x: u64)
    ensures
        (x | 2) / 2 % 2 == 1,
        (x | 2) % 2 == x % 2,
        (x | 2) / 4 == x / 4,
{
    fields_in_numbers(x, 0, 0);
}

proof fn counter_numbers(x: u64, y: u64)
    ensures
        (x & !0xf00u64) / 256 % 16 == 0,
        (x & !0xf00u64) % 256 == x % 256,
        (x & !0xf00u64) / 4096 == x / 4096,
        (y & !0x7_0000u64) / 0x1_0000 % 8 == 0,
        (y & !0x7_0000u64) % 0x1_0000 == y % 0x1_0000,
        (y & !0x7_0000u64) / 0x8_0000 == y / 0x8_0000,
{
    fields_in_numbers(x, 0, 0);
    fields_in_numbers(y, 0, 0);
}

proof fn gate_numbers(x: u64)
    ensures
        x & !3u64 == x / 4 * 4,
        x & !1u64 == x / 2 * 2,
        (x & !2u64) | 1 == x / 4 * 4 + 1,
{
    fields_in_numbers(x, 0, 0);
}

/// A processor that was silenced has its timers masked, its counters out of
/// interrupt mode and the request of other processors taken back; where it runs
/// guests, their timers are masked and shut off and the virtual interrupt
/// interface is off. Other bits stay as they were.
pub proof fn silenced_processors_are_quiet(s: FiqState, gate: u64, regs: Map<SysReg, u64>)
    ensures
        ({
            let ops = silence_ops(s, gate);
            let after = system_after(ops, ops.len(), regs);
            &&& after[SysReg::FastIpiStatus] == 1
            &&& after[SysReg::Pmcr0] / 256 % 16 == 0
            &&& after[SysReg::Pmcr0] % 256 == s.local.pmcr0 % 256
            &&& after[SysReg::Pmcr0] / 4096 == s.local.pmcr0 / 4096
            &&& after[SysReg::Upmcr0] / 0x1_0000 % 8 == 0
            &&& s.el2 is None ==> after[SysReg::CntvCtl] / 2 % 2 == 1 && after[SysReg::CntvCtl] % 2
                == s.local.cntv_ctl % 2 && after[SysReg::CntvCtl] / 4 == s.local.cntv_ctl / 4
            &&& s.el2 is Some ==> {
                let e = s.el2->0;
                &&& after[SysReg::CntpCtl] / 2 % 2 == 1
                &&& after[SysReg::CntpCtl] % 2 == s.local.cntp_ctl % 2
                &&& after[SysReg::CntpCtl] / 4 == s.local.cntp_ctl / 4
                &&& after[SysReg::GuestCntpCtl] / 2 % 2 == 1
                &&& after[SysReg::GuestCntpCtl] / 4 == e.guest_cntp_ctl / 4
                &&& after[SysReg::GuestCntvCtl] / 2 % 2 == 1
                &&& after[SysReg::GuestCntvCtl] / 4 == e.guest_cntv_ctl / 4
                &&& after[SysReg::TimerGate] == gate / 4 * 4
                &&& after[SysReg::IchHcr] == e.vgic_hcr / 2 * 2
            }
        }),
{
    reveal_with_fuel(system_after, 12);
    let ops = silence_ops(s, gate);
    let after = system_after(ops, ops.len(), regs);
    counter_numbers(s.local.pmcr0, s.local.upmcr0);
    if s.el2 is Some {
        let e = s.el2->0;
        assert(ops.len() == 11);
        assert(ops[0] == (SysOp::Write { reg: SysReg::CntpCtl, value: s.local.cntp_ctl | 2 }));
        mask_numbers(s.local.cntp_ctl);
        mask_numbers(e.guest_cntp_ctl);
        mask_numbers(e.guest_cntv_ctl);
        gate_numbers(gate);
        gate_numbers(e.vgic_hcr);
    } else {
        mask_numbers(s.local.cntv_ctl);
    }
}

/// A claimed interrupt takes its sources back, each where it is pending and
/// only there: the timers of a guest, the request of another processor, the
/// counters of the core and of the cluster. The timer of the kernel is never
/// touched.
pub proof fn answered_sources_are_taken_back(s: FiqState, gate: u64, regs: Map<SysReg, u64>)
    ensures
        ({
            let ops = answer_ops(s, gate);
            let after = system_after(ops, ops.len(), regs);
            let guest = s.el2 is Some && (firing(s.el2->0.guest_cntp_ctl) || firing(
                s.el2->0.guest_cntv_ctl,
            ));
            &&& after[SysReg::CntpCtl] == regs[SysReg::CntpCtl]
            &&& after[SysReg::CntvCtl] == regs[SysReg::CntvCtl]
            &&& guest ==> after[SysReg::GuestCntpCtl] / 2 % 2 == 1 && after[SysReg::GuestCntvCtl] / 2
                % 2 == 1 && after[SysReg::TimerGate] == gate / 4 * 4
            &&& !guest ==> after[SysReg::TimerGate] == regs[SysReg::TimerGate]
            &&& s.local.fast_ipi_status % 2 == 1 ==> after[SysReg::FastIpiStatus] == 1
            &&& s.local.fast_ipi_status % 2 == 0 ==> after[SysReg::FastIpiStatus]
                == regs[SysReg::FastIpiStatus]
            &&& core_pmu_active(s) ==> after[SysReg::Pmcr0] / 256 % 16 == 0
            &&& !core_pmu_active(s) ==> after[SysReg::Pmcr0] == regs[SysReg::Pmcr0]
            &&& uncore_pmu_active(s) ==> after[SysReg::Upmcr0] / 0x1_0000 % 8 == 0
            &&& !uncore_pmu_active(s) ==> after[SysReg::Upmcr0] == regs[SysReg::Upmcr0]
        }),
{
    reveal_with_fuel(system_after, 10);
    sources_are_fields(s, 0);
    counter_numbers(s.local.pmcr0, s.local.upmcr0);
    if s.el2 is Some {
        mask_numbers(s.el2->0.guest_cntp_ctl);
        mask_numbers(s.el2->0.guest_cntv_ctl);
        gate_numbers(gate);
    }
    let ops = answer_ops(s, gate);
    assert(ops.len() <= 8);
}

/// The request for another processor: by the near way exactly within one
/// cluster, with the number in its cluster in the low byte and the cluster in
/// the third one.
pub proof fn requests_name_their_target(current: u64, target: u64)
    ensures
        ipi_request(current, target).0 == (current / 256 % 256 == target / 256 % 256),
        ipi_request(current, target).1 == target % 256 + 0x1_0000 * (target / 256 % 256),
{
    fields_in_numbers(current, 0, 0);
    fields_in_numbers(target, target, 0);
}

/// Processors are told by the maker in their identification. Handing over to a
/// lower level lifts all traps and opens the physical timer to it alone;
/// starting a processor turns bit 12 of its control register on.
pub proof fn processors_are_set_up(midr: u64, before: u64, after: u64, gate: u64)
    ensures
        made_by_apple(midr) == (midr / 0x100_0000 % 256 == 0x61),
        made_by_apple(midr) ==> {
            let ops = drop_ops(midr, before, after, gate);
            &&& ops[2] == (SysOp::Write { reg: SysReg::HacrEl2, value: 0 })
            &&& ops[6] is Write
            &&& ops[6]->Write_reg == SysReg::TimerGate
            &&& ops[6]->Write_value == gate / 4 * 4 + 1
        },
        made_by_apple(midr) ==> {
            let ops = initialize_ops(midr, before, after);
            &&& ops[2] is Write
            &&& ops[2]->Write_reg == SysReg::Actlr
            &&& ops[2]->Write_value / 0x1000 % 2 == 1
            &&& ops[2]->Write_value % 0x1000 == before % 0x1000
            &&& ops[2]->Write_value / 0x2000 == before / 0x2000
        },
{
    fields_in_numbers(midr, 0, 0);
    fields_in_numbers(before, 0, 0);
    gate_numbers(gate);
}

/// The state of a cluster: three, four or five bits for the state it goes to,
/// and as many above them for the one it is in.
pub proof fn states_are_fields(status: u32)
    ensures
        target_of(PstateEncoding::S5l8960x, status) == Some((status % 8) as u32),
        current_of(PstateEncoding::S5l8960x, status) == Some((status / 8 % 8) as u32),
        target_of(PstateEncoding::T8103, status) == Some((status % 16) as u32),
        current_of(PstateEncoding::T8103, status) == Some((status / 16 % 16) as u32),
        target_of(PstateEncoding::T8112, status) == Some((status % 32) as u32),
        current_of(PstateEncoding::T8112, status) == Some((status / 32 % 32) as u32),
{
    fields_in_numbers(0, 0, status);
}

} // verus!
