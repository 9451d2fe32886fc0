//! Processor-local sources of the fast interrupt.

use crate::sysreg::{got, put, Cpu, SysOp, SysReg, SysRegs};
use vstd::prelude::*;

verus! {

pub const TIMER_STATE_MASK: u64 = 7;

pub const TIMER_FIRING: u64 = 5;

pub const TIMER_IMASK: u64 = 2;

/// Interrupt mode and activity of the core's performance counters.
pub const PMCR0_FIQ_FIELDS: u64 = 0xf00;

/// Active, in the mode that raises fast interrupts.
pub const PMCR0_FIQ_ACTIVE: u64 = 0xc00;

pub const UPMCR0_IMODE_FIQ: u64 = 0x4_0000;

pub const UPMCR0_IMODE_MASK: u64 = 0x7_0000;

pub const UPMSR_IACT: u64 = 1;

pub const FAST_IPI_PENDING: u64 = 1;

pub const SOURCE_PHYSICAL_TIMER: u32 = 1;

pub const SOURCE_VIRTUAL_TIMER: u32 = 2;

pub const SOURCE_GUEST_PHYSICAL_TIMER: u32 = 4;

pub const SOURCE_GUEST_VIRTUAL_TIMER: u32 = 8;

pub const SOURCE_FAST_IPI: u32 = 0x10;

pub const SOURCE_CORE_PMU: u32 = 0x20;

pub const SOURCE_UNCORE_PMU: u32 = 0x40;

pub const MAX_FAST_IPI_CPUS: usize = 32;

pub const VM_TIMER_ENABLE_MASK: u64 = 3;

pub const VGIC_ENABLE: u64 = 1;

pub const MPIDR_AFFINITY_MASK: u64 = 0xff;

/// The timer that the kernel itself runs on.
#[derive(Clone, Copy, Debug, PartialEq, Eq, Structural)]
pub enum HostTimerBank {
    Physical,
    Virtual,
}

pub fn host_timer_bank(vhe: bool) -> (r: HostTimerBank)
    ensures
        r == (if vhe {
            HostTimerBank::Physical
        } else {
            HostTimerBank::Virtual
        }),
{
    if vhe {
        HostTimerBank::Physical
    } else {
        HostTimerBank::Virtual
    }
}

/// Whether two processors share a cluster, and the request for the target.
pub open spec fn ipi_request(current_mpidr: u64, target_mpidr: u64) -> (bool, u64) {
    let current_cluster = (current_mpidr >> 8) & 0xff;
    let target_cluster = (target_mpidr >> 8) & 0xff;
    (current_cluster == target_cluster, (target_mpidr & 0xff) | (target_cluster << 16))
}

pub fn fast_ipi_request(current_mpidr: u64, target_mpidr: u64) -> (r: (bool, u64))
    ensures
        r == ipi_request(current_mpidr, target_mpidr),
{
    let current_cluster: u64 = (current_mpidr >> 8) & MPIDR_AFFINITY_MASK;
    let target_cluster: u64 = (target_mpidr >> 8) & MPIDR_AFFINITY_MASK;
    let target_cpu: u64 = target_mpidr & MPIDR_AFFINITY_MASK;
    (current_cluster == target_cluster, target_cpu | (target_cluster << 16))
}

/// A request names the processor in its low byte and the cluster above.
pub proof fn request_names_the_target(current_mpidr: u64, target_mpidr: u64)
    ensures
        ipi_request(current_mpidr, target_mpidr).1 & 0xff == target_mpidr & 0xff,
        (ipi_request(current_mpidr, target_mpidr).1 >> 16) & 0xff == (target_mpidr >> 8) & 0xff,
{
    assert(({
        let t = (target_mpidr >> 8) & 0xff;
        let r = (target_mpidr & 0xff) | (t << 16);
        r & 0xff == target_mpidr & 0xff && (r >> 16) & 0xff == t
    })) by (bit_vector);
}

/// Registers that every processor has.
#[derive(Clone, Copy, Debug, PartialEq, Eq, Structural)]
pub struct LocalState {
    pub cntp_ctl: u64,
    pub cntv_ctl: u64,
    pub fast_ipi_status: u64,
    pub pmcr0: u64,
    pub upmcr0: u64,
    pub upmsr: u64,
    pub isr: u64,
    pub daif: u64,
    pub elr: u64,
    pub spsr: u64,
}

/// Registers of the hypervisor level.
#[derive(Clone, Copy, Debug, PartialEq, Eq, Structural)]
pub struct El2State {
    pub guest_cntp_ctl: u64,
    pub guest_cntv_ctl: u64,
    pub vm_timer_enable: u64,
    pub hcr: u64,
    pub cnthctl: u64,
    pub vgic_hcr: u64,
    pub vgic_misr: u64,
}

/// All registers that matter for fast interrupts.
#[derive(Clone, Copy, Debug, PartialEq, Eq, Structural)]
pub struct FiqState {
    pub local: LocalState,
    pub el2: Option<El2State>,
}

/// The reads of a processor's own registers. Only the timer that the kernel
/// runs on is read; the other one counts as zero.
pub open spec fn local_reads(vhe: bool, l: LocalState) -> Seq<SysOp> {
    seq![
        if vhe {
            got(SysReg::CntpCtl, l.cntp_ctl)
        } else {
            got(SysReg::CntvCtl, l.cntv_ctl)
        },
        got(SysReg::FastIpiStatus, l.fast_ipi_status),
        got(SysReg::Pmcr0, l.pmcr0),
        got(SysReg::Upmcr0, l.upmcr0),
        got(SysReg::Upmsr, l.upmsr),
        got(SysReg::Isr, l.isr),
        got(SysReg::Daif, l.daif),
        got(SysReg::Elr, l.elr),
        got(SysReg::Spsr, l.spsr),
    ]
}

/// The reads of the hypervisor level.
pub open spec fn el2_reads(e: El2State) -> Seq<SysOp> {
    seq![
        got(SysReg::GuestCntpCtl, e.guest_cntp_ctl),
        got(SysReg::GuestCntvCtl, e.guest_cntv_ctl),
        got(SysReg::TimerGate, e.vm_timer_enable),
        got(SysReg::Hcr, e.hcr),
        got(SysReg::Cnthctl, e.cnthctl),
        got(SysReg::IchHcr, e.vgic_hcr),
        got(SysReg::IchMisr, e.vgic_misr),
    ]
}

/// The reads of a capture.
pub open spec fn capture_reads(vhe: bool, s: FiqState) -> Seq<SysOp> {
    local_reads(vhe, s.local) + (match s.el2 {
        Some(e) => el2_reads(e),
        None => Seq::empty(),
    })
}

/// A capture at the given level.
pub open spec fn captured(vhe: bool, s: FiqState) -> bool {
    &&& s.el2 is Some <==> vhe
    &&& vhe ==> s.local.cntv_ctl == 0
    &&& !vhe ==> s.local.cntp_ctl == 0
}

/// A timer that is enabled, not masked and due.
pub open spec fn firing(control: u64) -> bool {
    control & 7 == 5
}

pub fn timer_is_firing(control: u64) -> (r: bool)
    ensures
        r == firing(control),
{
    control & TIMER_STATE_MASK == TIMER_FIRING
}

/// The source of the timer that the kernel runs on.
pub open spec fn host_source(vhe: bool, physical: u64, virt: u64) -> u32 {
    if vhe && firing(physical) {
        1
    } else if !vhe && firing(virt) {
        2
    } else {
        0
    }
}

pub fn host_timer_sources(vhe: bool, physical: u64, virtual_: u64) -> (r: u32)
    ensures
        r == host_source(vhe, physical, virtual_),
{
    if vhe && timer_is_firing(physical) {
        SOURCE_PHYSICAL_TIMER
    } else if !vhe && timer_is_firing(virtual_) {
        SOURCE_VIRTUAL_TIMER
    } else {
        0
    }
}

/// The core's performance counters ask for a fast interrupt.
pub open spec fn core_pmu_active(s: FiqState) -> bool {
    s.local.pmcr0 & 0xf00 == 0xc00
}

/// The cluster's performance counters ask for a fast interrupt.
pub open spec fn uncore_pmu_active(s: FiqState) -> bool {
    s.local.upmcr0 & 0x7_0000 == 0x4_0000 && s.local.upmsr & 1 != 0
}

/// The guest's physical timer is due.
pub open spec fn guest_physical_due(s: FiqState) -> bool {
    s.el2 is Some && firing(s.el2->0.guest_cntp_ctl)
}

/// The guest's virtual timer is due.
pub open spec fn guest_virtual_due(s: FiqState) -> bool {
    s.el2 is Some && firing(s.el2->0.guest_cntv_ctl)
}

/// Another processor asks for attention.
pub open spec fn ipi_pending(s: FiqState) -> bool {
    s.local.fast_ipi_status & 1 != 0
}

/// A bit where a condition holds.
pub open spec fn flag(on: bool, bit: u32) -> u32 {
    if on {
        bit
    } else {
        0
    }
}

/// The pending sources as bits.
pub open spec fn sources_of(s: FiqState) -> u32 {
    host_source(s.el2 is Some, s.local.cntp_ctl, s.local.cntv_ctl) | flag(
        guest_physical_due(s),
        4,
    ) | flag(guest_virtual_due(s), 8) | flag(ipi_pending(s), 0x10) | flag(
        core_pmu_active(s),
        0x20,
    ) | flag(uncore_pmu_active(s), 0x40)
}

/// Every bit stands for exactly its source.
pub proof fn sources_are_told_apart(s: FiqState)
    ensures
        sources_of(s) & SOURCE_PHYSICAL_TIMER != 0 <==> s.el2 is Some && firing(s.local.cntp_ctl),
        sources_of(s) & SOURCE_VIRTUAL_TIMER != 0 <==> s.el2 is None && firing(s.local.cntv_ctl),
        sources_of(s) & (SOURCE_GUEST_PHYSICAL_TIMER | SOURCE_GUEST_VIRTUAL_TIMER) != 0 <==>
            guest_physical_due(s) || guest_virtual_due(s),
        sources_of(s) & SOURCE_FAST_IPI != 0 <==> ipi_pending(s),
        sources_of(s) & SOURCE_CORE_PMU != 0 <==> core_pmu_active(s),
        sources_of(s) & SOURCE_UNCORE_PMU != 0 <==> uncore_pmu_active(s),
        sources_of(s) == 0 <==> !(s.el2 is Some && firing(s.local.cntp_ctl)) && !(s.el2 is None
            && firing(s.local.cntv_ctl)) && !guest_physical_due(s) && !guest_virtual_due(s)
            && !ipi_pending(s) && !core_pmu_active(s) && !uncore_pmu_active(s),
{
    let h = host_source(s.el2 is Some, s.local.cntp_ctl, s.local.cntv_ctl);
    let a = flag(guest_physical_due(s), 4);
    let b = flag(guest_virtual_due(s), 8);
    let c = flag(ipi_pending(s), 0x10);
    let d = flag(core_pmu_active(s), 0x20);
    let e = flag(uncore_pmu_active(s), 0x40);
    let all = h | a | b | c | d | e;
    assert(({
        &&& all & 1 != 0 <==> h == 1
        &&& all & 2 != 0 <==> h == 2
        &&& all & (4u32 | 8u32) != 0 <==> a != 0 || b != 0
        &&& all & 0x10 != 0 <==> c != 0
        &&& all & 0x20 != 0 <==> d != 0
        &&& all & 0x40 != 0 <==> e != 0
        &&& all == 0 <==> h == 0 && a == 0 && b == 0 && c == 0 && d == 0 && e == 0
    })) by (bit_vector)
        requires
            all == h | a | b | c | d | e,
            h == 0 || h == 1 || h == 2,
            a == 0 || a == 4,
            b == 0 || b == 8,
            c == 0 || c == 0x10,
            d == 0 || d == 0x20,
            e == 0 || e == 0x40,
    ;
}

impl FiqState {
    fn read_local<S: SysRegs>(cpu: &mut Cpu<S>, vhe: bool) -> (l: LocalState)
        ensures
            final(cpu).ops() == old(cpu).ops() + local_reads(vhe, l),
            vhe ==> l.cntv_ctl == 0,
            !vhe ==> l.cntp_ctl == 0,
    {
        let ghost start = cpu.ops();
        let (cntp_ctl, cntv_ctl): (u64, u64) = match host_timer_bank(vhe) {
            HostTimerBank::Physical => (cpu.read(SysReg::CntpCtl), 0),
            HostTimerBank::Virtual => (0, cpu.read(SysReg::CntvCtl)),
        };
        let fast_ipi_status: u64 = cpu.read(SysReg::FastIpiStatus);
        let pmcr0: u64 = cpu.read(SysReg::Pmcr0);
        let upmcr0: u64 = cpu.read(SysReg::Upmcr0);
        let upmsr: u64 = cpu.read(SysReg::Upmsr);
        let isr: u64 = cpu.read(SysReg::Isr);
        let daif: u64 = cpu.read(SysReg::Daif);
        let elr: u64 = cpu.read(SysReg::Elr);
        let spsr: u64 = cpu.read(SysReg::Spsr);
        let l = LocalState {
            cntp_ctl,
            cntv_ctl,
            fast_ipi_status,
            pmcr0,
            upmcr0,
            upmsr,
            isr,
            daif,
            elr,
            spsr,
        };
        assert(cpu.ops() =~= start + local_reads(vhe, l));
        l
    }

    fn read_el2<S: SysRegs>(cpu: &mut Cpu<S>) -> (e: El2State)
        ensures
            final(cpu).ops() == old(cpu).ops() + el2_reads(e),
    {
        let ghost start = cpu.ops();
        let guest_cntp_ctl: u64 = cpu.read(SysReg::GuestCntpCtl);
        let guest_cntv_ctl: u64 = cpu.read(SysReg::GuestCntvCtl);
        let vm_timer_enable: u64 = cpu.read(SysReg::TimerGate);
        let hcr: u64 = cpu.read(SysReg::Hcr);
        let cnthctl: u64 = cpu.read(SysReg::Cnthctl);
        let vgic_hcr: u64 = cpu.read(SysReg::IchHcr);
        let vgic_misr: u64 = cpu.read(SysReg::IchMisr);
        let e = El2State {
            guest_cntp_ctl,
            guest_cntv_ctl,
            vm_timer_enable,
            hcr,
            cnthctl,
            vgic_hcr,
            vgic_misr,
        };
        assert(cpu.ops() =~= start + el2_reads(e));
        e
    }

    /// Read all registers that matter.
    pub fn capture<S: SysRegs>(cpu: &mut Cpu<S>, vhe: bool) -> (s: Self)
        ensures
            captured(vhe, s),
            final(cpu).ops() == old(cpu).ops() + capture_reads(vhe, s),
    {
        let ghost start = cpu.ops();
        let local = Self::read_local(cpu, vhe);
        let el2 = if vhe {
            Some(Self::read_el2(cpu))
        } else {
            None
        };
        let s = FiqState { local, el2 };
        assert(cpu.ops() =~= start + capture_reads(vhe, s));
        s
    }

    /// The pending sources as bits.
    pub fn pending_sources(&self) -> (r: u32)
        ensures
            r == sources_of(*self),
    {
        let mut guest_physical: u32 = 0;
        let mut guest_virtual: u32 = 0;
        match self.el2 {
            Some(state) => {
                if timer_is_firing(state.guest_cntp_ctl) {
                    guest_physical = SOURCE_GUEST_PHYSICAL_TIMER;
                }
                if timer_is_firing(state.guest_cntv_ctl) {
                    guest_virtual = SOURCE_GUEST_VIRTUAL_TIMER;
                }
            },
            None => {},
        }
        let ipi: u32 = if self.local.fast_ipi_status & FAST_IPI_PENDING != 0 {
            SOURCE_FAST_IPI
        } else {
            0
        };
        let core: u32 = if self.local.pmcr0 & PMCR0_FIQ_FIELDS == PMCR0_FIQ_ACTIVE {
            SOURCE_CORE_PMU
        } else {
            0
        };
        let uncore: u32 = if self.local.upmcr0 & UPMCR0_IMODE_MASK == UPMCR0_IMODE_FIQ
            && self.local.upmsr & UPMSR_IACT != 0 {
            SOURCE_UNCORE_PMU
        } else {
            0
        };
        host_timer_sources(self.el2.is_some(), self.local.cntp_ctl, self.local.cntv_ctl)
            | guest_physical | guest_virtual | ipi | core | uncore
    }
}

/// Both guest timers are masked and disabled; `gate` is what was enabled before.
pub open spec fn mask_guest_ops(e: El2State, gate: u64) -> Seq<SysOp> {
    seq![
        put(SysReg::GuestCntpCtl, e.guest_cntp_ctl | 2),
        put(SysReg::GuestCntvCtl, e.guest_cntv_ctl | 2),
        got(SysReg::TimerGate, gate),
        put(SysReg::TimerGate, gate & !3),
    ]
}

fn mask_guest_timers<S: SysRegs>(cpu: &mut Cpu<S>, e: &El2State) -> (gate: u64)
    ensures
        final(cpu).ops() == old(cpu).ops() + mask_guest_ops(*e, gate),
{
    let ghost start = cpu.ops();
    cpu.write(SysReg::GuestCntpCtl, e.guest_cntp_ctl | TIMER_IMASK);
    cpu.write(SysReg::GuestCntvCtl, e.guest_cntv_ctl | TIMER_IMASK);
    let gate: u64 = cpu.read(SysReg::TimerGate);
    cpu.write(SysReg::TimerGate, gate & !VM_TIMER_ENABLE_MASK);
    assert(cpu.ops() =~= start + mask_guest_ops(*e, gate));
    gate
}

/// All sources are silenced.
pub open spec fn silence_ops(s: FiqState, gate: u64) -> Seq<SysOp> {
    seq![
        if s.el2 is Some {
            put(SysReg::CntpCtl, s.local.cntp_ctl | 2)
        } else {
            put(SysReg::CntvCtl, s.local.cntv_ctl | 2)
        },
        put(SysReg::FastIpiStatus, 1),
        put(SysReg::Pmcr0, s.local.pmcr0 & !0xf00),
        put(SysReg::Upmcr0, s.local.upmcr0 & !0x7_0000),
    ] + (match s.el2 {
        Some(e) => mask_guest_ops(e, gate) + seq![
            put(SysReg::IchHcr, e.vgic_hcr & !1),
            SysOp::Isb,
        ],
        None => Seq::empty(),
    }) + seq![SysOp::Isb]
}

/// A processor was prepared, with the given values found.
pub open spec fn prepared_with(
    was: Seq<Option<u64>>,
    then: Seq<Option<u64>>,
    before: Seq<SysOp>,
    after: Seq<SysOp>,
    cpu_id: u32,
    vhe: bool,
    mpidr: u64,
    s: FiqState,
    gate: u64,
) -> bool {
    let head = if cpu_id < 32 {
        seq![got(SysReg::Mpidr, mpidr)]
    } else {
        Seq::empty()
    };
    &&& captured(vhe, s)
    &&& after == before + (head + capture_reads(vhe, s) + silence_ops(s, gate))
    &&& then == (if cpu_id < 32 {
        was.update(cpu_id as int, Some(mpidr))
    } else {
        was
    })
}

/// What an interrupt turned out to be.
#[derive(Clone, Copy, Debug, PartialEq, Eq, Structural)]
pub enum InterruptClaim {
    Reschedule,
    Handled,
    NotMine,
}

/// What the pending sources amount to.
pub open spec fn claim_of(s: FiqState) -> InterruptClaim {
    if ipi_pending(s) {
        InterruptClaim::Reschedule
    } else if sources_of(s) != 0 {
        InterruptClaim::Handled
    } else {
        InterruptClaim::NotMine
    }
}

/// The answer to the pending sources. The timer that the kernel runs on is
/// left alone, so that its interrupt comes again.
pub open spec fn answer_ops(s: FiqState, gate: u64) -> Seq<SysOp> {
    (if guest_physical_due(s) || guest_virtual_due(s) {
        mask_guest_ops(s.el2->0, gate)
    } else {
        Seq::empty()
    }) + (if ipi_pending(s) {
        seq![put(SysReg::FastIpiStatus, 1)]
    } else {
        Seq::empty()
    }) + (if core_pmu_active(s) {
        seq![put(SysReg::Pmcr0, s.local.pmcr0 & !0xf00)]
    } else {
        Seq::empty()
    }) + (if uncore_pmu_active(s) {
        seq![put(SysReg::Upmcr0, s.local.upmcr0 & !0x7_0000)]
    } else {
        Seq::empty()
    }) + (if sources_of(s) != 0 {
        seq![SysOp::Isb]
    } else {
        Seq::empty()
    })
}

/// An interrupt was claimed, with the given values found.
pub open spec fn claimed_with(
    before: Seq<SysOp>,
    after: Seq<SysOp>,
    vhe: bool,
    r: InterruptClaim,
    s: FiqState,
    gate: u64,
) -> bool {
    &&& captured(vhe, s)
    &&& r == claim_of(s)
    &&& after == before + (capture_reads(vhe, s) + answer_ops(s, gate))
}

/// A request to another processor.
pub open spec fn send_ops(source: u64, target: u64) -> Seq<SysOp> {
    let (local, request) = ipi_request(source, target);
    seq![
        got(SysReg::Mpidr, source),
        if local {
            put(SysReg::FastIpiLocal, request & 0xff)
        } else {
            put(SysReg::FastIpiGlobal, request)
        },
        SysOp::Isb,
    ]
}

/// The affinities of the processors that were prepared.
pub struct FastIpiTable {
    pub mpidrs: Vec<Option<u64>>,
}

impl FastIpiTable {
    pub open spec fn wf(&self) -> bool {
        self.mpidrs@.len() == 32
    }

    /// No processor was prepared yet.
    pub fn new() -> (r: Self)
        ensures
            r.wf(),
            forall|i: int| 0 <= i < 32 ==> (#[trigger] r.mpidrs@[i]) is None,
    {
        let mut mpidrs: Vec<Option<u64>> = Vec::new();
        while mpidrs.len() < MAX_FAST_IPI_CPUS
            invariant
                mpidrs@.len() <= 32,
                forall|i: int| 0 <= i < mpidrs@.len() ==> (#[trigger] mpidrs@[i]) is None,
            decreases 32 - mpidrs@.len(),
        {
            mpidrs.push(None);
        }
        FastIpiTable { mpidrs }
    }

    /// Silence all sources of the executing processor and remember its
    /// affinity. Returns what was found there.
    pub fn prepare_cpu<S: SysRegs>(&mut self, cpu: &mut Cpu<S>, cpu_id: u32, vhe: bool) -> (r:
        FiqState)
        requires
            old(self).wf(),
        ensures
            final(self).wf(),
            exists|mpidr: u64, gate: u64| #[trigger]
                prepared_with(
                    old(self).mpidrs@,
                    final(self).mpidrs@,
                    old(cpu).ops(),
                    final(cpu).ops(),
                    cpu_id,
                    vhe,
                    mpidr,
                    r,
                    gate,
                ),
    {
        let ghost start = cpu.ops();
        let mut mpidr: u64 = 0;
        if cpu_id < 32 {
            mpidr = cpu.read(SysReg::Mpidr);
            self.mpidrs.set(cpu_id as usize, Some(mpidr));
        }
        let ghost head = if cpu_id < 32 {
            seq![got(SysReg::Mpidr, mpidr)]
        } else {
            Seq::empty()
        };
        assert(cpu.ops() =~= start + head);
        let s = FiqState::capture(cpu, vhe);
        let ghost looked = cpu.ops();
        if s.el2.is_some() {
            cpu.write(SysReg::CntpCtl, s.local.cntp_ctl | TIMER_IMASK);
        } else {
            cpu.write(SysReg::CntvCtl, s.local.cntv_ctl | TIMER_IMASK);
        }
        cpu.write(SysReg::FastIpiStatus, FAST_IPI_PENDING);
        cpu.write(SysReg::Pmcr0, s.local.pmcr0 & !PMCR0_FIQ_FIELDS);
        cpu.write(SysReg::Upmcr0, s.local.upmcr0 & !UPMCR0_IMODE_MASK);
        let mut gate: u64 = 0;
        match &s.el2 {
            Some(el2) => {
                gate = mask_guest_timers(cpu, el2);
                cpu.write(SysReg::IchHcr, el2.vgic_hcr & !VGIC_ENABLE);
                cpu.isb();
            },
            None => {},
        }
        cpu.isb();
        proof {
            assert(cpu.ops() =~= looked + silence_ops(s, gate));
            assert(cpu.ops() =~= start + (head + capture_reads(vhe, s) + silence_ops(s, gate)));
            assert(prepared_with(
                old(self).mpidrs@,
                self.mpidrs@,
                start,
                cpu.ops(),
                cpu_id,
                vhe,
                mpidr,
                s,
                gate,
            ));
        }
        s
    }

    /// Ask another processor for attention; refused for one that was not
    /// prepared.
    pub fn send_fast_ipi<S: SysRegs>(&self, cpu: &mut Cpu<S>, target_cpu: u32) -> (r: bool)
        requires
            self.wf(),
        ensures
            r == (target_cpu < 32 && self.mpidrs@[target_cpu as int] is Some),
            !r ==> final(cpu).ops() == old(cpu).ops(),
            r ==> exists|source: u64|
                final(cpu).ops() == old(cpu).ops() + #[trigger] send_ops(
                    source,
                    self.mpidrs@[target_cpu as int]->0,
                ),
    {
        if target_cpu >= 32 {
            return false;
        }
        let target_mpidr: u64 = match self.mpidrs[target_cpu as usize] {
            Some(mpidr) => mpidr,
            None => {
                return false;
            },
        };
        let ghost start = cpu.ops();
        let source_mpidr: u64 = cpu.read(SysReg::Mpidr);
        let (local, request): (bool, u64) = fast_ipi_request(source_mpidr, target_mpidr);
        if local {
            cpu.write(SysReg::FastIpiLocal, request & MPIDR_AFFINITY_MASK);
        } else {
            cpu.write(SysReg::FastIpiGlobal, request);
        }
        cpu.isb();
        assert(cpu.ops() =~= start + send_ops(source_mpidr, target_mpidr));
        true
    }
}

/// A fast interrupt was claimed with what was found.
pub open spec fn claimed_state(
    before: Seq<SysOp>,
    after: Seq<SysOp>,
    vhe: bool,
    r: InterruptClaim,
    s: FiqState,
) -> bool {
    exists|gate: u64| #[trigger] claimed_with(before, after, vhe, r, s, gate)
}

/// Find out what a fast interrupt is about and answer its sources. Returns
/// the claim and what was found.
pub fn claim_with_state<S: SysRegs>(cpu: &mut Cpu<S>, vhe: bool) -> (r: (InterruptClaim, FiqState))
    ensures
        claimed_state(old(cpu).ops(), final(cpu).ops(), vhe, r.0, r.1),
{
    let ghost start = cpu.ops();
    let s = FiqState::capture(cpu, vhe);
    let ghost looked = cpu.ops();
    let sources: u32 = s.pending_sources();
    proof {
        sources_are_told_apart(s);
    }
    let mut gate: u64 = 0;
    if sources & (SOURCE_GUEST_PHYSICAL_TIMER | SOURCE_GUEST_VIRTUAL_TIMER) != 0 {
        match &s.el2 {
            Some(el2) => {
                gate = mask_guest_timers(cpu, el2);
            },
            None => {},
        }
    }
    if sources & SOURCE_FAST_IPI != 0 {
        cpu.write(SysReg::FastIpiStatus, FAST_IPI_PENDING);
    }
    if sources & SOURCE_CORE_PMU != 0 {
        cpu.write(SysReg::Pmcr0, s.local.pmcr0 & !PMCR0_FIQ_FIELDS);
    }
    if sources & SOURCE_UNCORE_PMU != 0 {
        cpu.write(SysReg::Upmcr0, s.local.upmcr0 & !UPMCR0_IMODE_MASK);
    }
    if sources != 0 {
        cpu.isb();
    }
    let r = if sources & SOURCE_FAST_IPI != 0 {
        InterruptClaim::Reschedule
    } else if sources != 0 {
        InterruptClaim::Handled
    } else {
        InterruptClaim::NotMine
    };
    proof {
        assert(cpu.ops() =~= looked + answer_ops(s, gate));
        assert(cpu.ops() =~= start + (capture_reads(vhe, s) + answer_ops(s, gate)));
        assert(claimed_with(start, cpu.ops(), vhe, r, s, gate));
        assert(claimed_state(start, cpu.ops(), vhe, r, s));
    }
    (r, s)
}

/// Find out what a fast interrupt is about and answer its sources.
pub fn claim_pending<S: SysRegs>(cpu: &mut Cpu<S>, vhe: bool) -> (r: InterruptClaim)
    ensures
        exists|s: FiqState, gate: u64| #[trigger]
            claimed_with(old(cpu).ops(), final(cpu).ops(), vhe, r, s, gate),
{
    let (claim, _) = claim_with_state(cpu, vhe);
    claim
}

/// A processor whose first fast interrupt was reported.
pub open spec fn was_reported(reported: u64, cpu_id: u32) -> bool {
    reported & (1u64 << cpu_id) != 0
}

/// Notes that the first fast interrupt of a processor is reported. Returns
/// whether it was not reported before; processors from 64 on are never
/// reported.
pub fn first_report(reported: &mut u64, cpu_id: u32) -> (r: bool)
    ensures
        r == (cpu_id < 64 && !was_reported(*old(reported), cpu_id)),
        cpu_id >= 64 ==> *final(reported) == *old(reported),
        cpu_id < 64 ==> was_reported(*final(reported), cpu_id),
        forall|other: u32|
            other < 64 && other != cpu_id ==> #[trigger] was_reported(*final(reported), other)
                == was_reported(*old(reported), other),
{
    if cpu_id >= 64 {
        return false;
    }
    let before: u64 = *reported;
    *reported = before | (1u64 << cpu_id);
    assert((before | (1u64 << cpu_id)) & (1u64 << cpu_id) != 0) by (bit_vector)
        requires
            cpu_id < 64,
    ;
    assert forall|other: u32| other < 64 && other != cpu_id implies #[trigger] was_reported(
        before | (1u64 << cpu_id),
        other,
    ) == was_reported(before, other) by {
        assert(((before | (1u64 << cpu_id)) & (1u64 << other) != 0) == (before & (1u64 << other)
            != 0)) by (bit_vector)
            requires
                cpu_id < 64,
                other < 64,
                other != cpu_id,
        ;
    }
    before & (1u64 << cpu_id) == 0
}

} // verus!
