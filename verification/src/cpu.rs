//! Early processor setup, core classes and error status.

use crate::devicetree::{first_value, node_contents, property, NodeView};
use crate::sysreg::{got, put, Cpu, SysOp, SysReg, SysRegs};
use fdt::node::FdtNode;
use vstd::prelude::*;

verus! {

pub const MIDR_IMPLEMENTER_SHIFT: u32 = 24;

pub const APPLE_MIDR_IMPLEMENTER: u64 = 0x61;

pub const ACTLR_EN_MDSB: u64 = 0x1000;

pub const VM_TIMER_FIQ_ENABLE_VIRTUAL: u64 = 1;

pub const VM_TIMER_FIQ_ENABLE_PHYSICAL: u64 = 2;

pub const UNAVAILABLE_EL2_DROP_DIAGNOSTIC: u64 = 0xffff_ffff_ffff_ffff;

pub const MPIDR_PERFORMANCE_CLUSTER_BIT: u64 = 0x1_0000;

pub const L2C_ERR_STS_RECURSIVE_FAULT: u64 = 2;

pub const L2C_ERR_STS_ACCESS_FAULT: u64 = 0x80;

pub const L2C_ERR_ADR_ADDRESS_MASK: u64 = 0x03ff_ffff_ffff;

/// The implementer field names Apple.
pub open spec fn made_by_apple(midr: u64) -> bool {
    (midr >> 24) & 0xff == 0x61
}

pub fn is_apple_cpu(midr: u64) -> (r: bool)
    ensures
        r == made_by_apple(midr),
{
    ((midr >> MIDR_IMPLEMENTER_SHIFT) & 0xff) == APPLE_MIDR_IMPLEMENTER
}

/// What the hand-over between exception levels found and left in the trap
/// register, where it was done.
#[derive(Clone, Copy, Debug, PartialEq, Eq, Structural)]
pub struct El2DropDiagnostic {
    pub before: u64,
    pub after: u64,
}

impl El2DropDiagnostic {
    /// Nothing was recorded yet.
    pub fn new() -> (r: Self)
        ensures
            r.before == u64::MAX,
            r.after == u64::MAX,
    {
        El2DropDiagnostic {
            before: UNAVAILABLE_EL2_DROP_DIAGNOSTIC,
            after: UNAVAILABLE_EL2_DROP_DIAGNOSTIC,
        }
    }

    /// The recorded transition, when available.
    pub fn el2_drop_diagnostic_transition(&self) -> (r: Option<(u64, u64)>)
        ensures
            r == (if self.after != u64::MAX {
                Some((self.before, self.after))
            } else {
                None
            }),
    {
        if self.after != UNAVAILABLE_EL2_DROP_DIAGNOSTIC {
            Some((self.before, self.after))
        } else {
            None
        }
    }
}

/// Traps are cleared and the timer gate normalized: the virtual timer may
/// raise fast interrupts, the physical one may not.
pub open spec fn drop_ops(midr: u64, before: u64, after: u64, gate: u64) -> Seq<SysOp> {
    if made_by_apple(midr) {
        seq![
            got(SysReg::Midr, midr),
            got(SysReg::HacrEl2, before),
            put(SysReg::HacrEl2, 0),
            SysOp::Isb,
            got(SysReg::HacrEl2, after),
            got(SysReg::TimerGate, gate),
            put(SysReg::TimerGate, (gate & !2) | 1),
            SysOp::Dsb,
            SysOp::Isb,
        ]
    } else {
        seq![got(SysReg::Midr, midr)]
    }
}

/// A hand-over with the given values found.
pub open spec fn dropped_with(
    was: El2DropDiagnostic,
    then: El2DropDiagnostic,
    ops_before: Seq<SysOp>,
    ops_after: Seq<SysOp>,
    midr: u64,
    before: u64,
    after: u64,
    gate: u64,
) -> bool {
    &&& ops_after == ops_before + drop_ops(midr, before, after, gate)
    &&& then == (if made_by_apple(midr) {
        El2DropDiagnostic { before, after }
    } else {
        was
    })
}

fn clear_el2_sysreg_traps<S: SysRegs>(cpu: &mut Cpu<S>) -> (r: (u64, u64))
    ensures
        final(cpu).ops() == old(cpu).ops() + seq![
            got(SysReg::HacrEl2, r.0),
            put(SysReg::HacrEl2, 0),
            SysOp::Isb,
            got(SysReg::HacrEl2, r.1),
        ],
{
    let ghost start = cpu.ops();
    let before: u64 = cpu.read(SysReg::HacrEl2);
    cpu.write(SysReg::HacrEl2, 0);
    cpu.isb();
    let after: u64 = cpu.read(SysReg::HacrEl2);
    assert(cpu.ops() =~= start + seq![
        got(SysReg::HacrEl2, before),
        put(SysReg::HacrEl2, 0),
        SysOp::Isb,
        got(SysReg::HacrEl2, after),
    ]);
    (before, after)
}

fn normalize_timer_fiq_gate<S: SysRegs>(cpu: &mut Cpu<S>) -> (gate: u64)
    ensures
        final(cpu).ops() == old(cpu).ops() + seq![
            got(SysReg::TimerGate, gate),
            put(SysReg::TimerGate, (gate & !2) | 1),
            SysOp::Dsb,
            SysOp::Isb,
        ],
{
    let ghost start = cpu.ops();
    let gate: u64 = cpu.read(SysReg::TimerGate);
    cpu.write(
        SysReg::TimerGate,
        (gate & !VM_TIMER_FIQ_ENABLE_PHYSICAL) | VM_TIMER_FIQ_ENABLE_VIRTUAL,
    );
    cpu.dsb();
    cpu.isb();
    assert(cpu.ops() =~= start + seq![
        got(SysReg::TimerGate, gate),
        put(SysReg::TimerGate, (gate & !2) | 1),
        SysOp::Dsb,
        SysOp::Isb,
    ]);
    gate
}

/// Prepare the processor for the transition to the lower exception level.
pub fn prepare_el2_drop<S: SysRegs>(cpu: &mut Cpu<S>, diagnostic: &mut El2DropDiagnostic)
    ensures
        exists|midr: u64, before: u64, after: u64, gate: u64| #[trigger]
            dropped_with(
                *old(diagnostic),
                *final(diagnostic),
                old(cpu).ops(),
                final(cpu).ops(),
                midr,
                before,
                after,
                gate,
            ),
{
    let ghost start = cpu.ops();
    let ghost was = *diagnostic;
    let midr: u64 = cpu.read(SysReg::Midr);
    if !is_apple_cpu(midr) {
        assert(cpu.ops() =~= start + drop_ops(midr, 0, 0, 0));
        assert(dropped_with(was, *diagnostic, start, cpu.ops(), midr, 0, 0, 0));
        return;
    }
    let (before, after): (u64, u64) = clear_el2_sysreg_traps(cpu);
    diagnostic.before = before;
    diagnostic.after = after;
    let gate: u64 = normalize_timer_fiq_gate(cpu);
    assert(cpu.ops() =~= start + drop_ops(midr, before, after, gate));
    assert(dropped_with(was, *diagnostic, start, cpu.ops(), midr, before, after, gate));
}

/// The virtual timer is left enabled, and the physical one is not.
pub proof fn gate_is_normalized(gate: u64)
    ensures
        ((gate & !2) | 1) & VM_TIMER_FIQ_ENABLE_VIRTUAL == VM_TIMER_FIQ_ENABLE_VIRTUAL,
        ((gate & !2) | 1) & VM_TIMER_FIQ_ENABLE_PHYSICAL == 0,
{
    assert(((gate & !2) | 1) & 1 == 1 && ((gate & !2) | 1) & 2 == 0) by (bit_vector);
}

/// The accesses of a processor's own setup.
pub open spec fn initialize_ops(midr: u64, before: u64, after: u64) -> Seq<SysOp> {
    if made_by_apple(midr) {
        seq![
            got(SysReg::Midr, midr),
            got(SysReg::Actlr, before),
            put(SysReg::Actlr, before | 0x1000),
            SysOp::Isb,
            got(SysReg::Actlr, after),
        ]
    } else {
        seq![got(SysReg::Midr, midr)]
    }
}

/// A setup with the given values found.
pub open spec fn initialized_with(
    before: Seq<SysOp>,
    after: Seq<SysOp>,
    r: Option<(u64, u64)>,
    midr: u64,
    old_actlr: u64,
    new_actlr: u64,
) -> bool {
    &&& after == before + initialize_ops(midr, old_actlr, new_actlr)
    &&& r == (if made_by_apple(midr) {
        Some((old_actlr, new_actlr))
    } else {
        None
    })
}

/// Set up the executing processor; returns the control register before and
/// after.
pub fn initialize_current_cpu<S: SysRegs>(cpu: &mut Cpu<S>) -> (r: Option<(u64, u64)>)
    ensures
        exists|midr: u64, old_actlr: u64, new_actlr: u64| #[trigger]
            initialized_with(old(cpu).ops(), final(cpu).ops(), r, midr, old_actlr, new_actlr),
{
    let ghost start = cpu.ops();
    let midr: u64 = cpu.read(SysReg::Midr);
    if !is_apple_cpu(midr) {
        assert(cpu.ops() =~= start + initialize_ops(midr, 0, 0));
        assert(initialized_with(start, cpu.ops(), None, midr, 0, 0));
        return None;
    }
    let old_actlr: u64 = cpu.read(SysReg::Actlr);
    cpu.write(SysReg::Actlr, old_actlr | ACTLR_EN_MDSB);
    cpu.isb();
    let new_actlr: u64 = cpu.read(SysReg::Actlr);
    let r = Some((old_actlr, new_actlr));
    assert(cpu.ops() =~= start + initialize_ops(midr, old_actlr, new_actlr));
    assert(initialized_with(start, cpu.ops(), r, midr, old_actlr, new_actlr));
    r
}

/// Class of a processor core.
#[derive(Clone, Copy, Debug, PartialEq, Eq, Structural)]
pub enum CpuCoreClass {
    Efficiency,
    Performance,
}

/// A letter in lower case.
pub open spec fn lower(b: u8) -> u8 {
    if 65 <= b && b <= 90 {
        (b + 32) as u8
    } else {
        b
    }
}

/// `needle` stands at `at`, whatever the case of the letters.
pub open spec fn stands_at(haystack: Seq<u8>, needle: Seq<u8>, at: int) -> bool {
    at + needle.len() <= haystack.len() && forall|k: int|
        0 <= k < needle.len() ==> lower(haystack[at + k]) == lower(#[trigger] needle[k])
}

/// A text that is not empty stands somewhere in a run of bytes.
pub open spec fn contains_folded(haystack: Seq<u8>, needle: Seq<u8>) -> bool {
    needle.len() > 0 && exists|at: int| 0 <= at && #[trigger] stands_at(haystack, needle, at)
}

fn lowered(b: u8) -> (r: u8)
    ensures
        r == lower(b),
{
    if b >= 65 && b <= 90 {
        b + 32
    } else {
        b
    }
}

/// Whether a text stands somewhere in a run of bytes, whatever its case.
pub fn bytes_contains_ascii_case_insensitive(haystack: &[u8], needle: &[u8]) -> (r: bool)
    ensures
        r == contains_folded(haystack@, needle@),
{
    if needle.len() == 0 || needle.len() > haystack.len() {
        return false;
    }
    let total: usize = haystack.len();
    let last: usize = total - needle.len();
    let mut at: usize = 0;
    let mut more = true;
    while more
        invariant
            needle@.len() > 0,
            total == haystack@.len(),
            last == total - needle@.len(),
            at <= last,
            more ==> forall|k: int| 0 <= k < at ==> !stands_at(haystack@, needle@, k),
            !more ==> forall|k: int| 0 <= k <= last ==> !stands_at(haystack@, needle@, k),
        decreases
                last - at,
                if more {
                    1int
                } else {
                    0int
                },
    {
        let mut k: usize = 0;
        while k < needle.len() && lowered(haystack[at + k]) == lowered(needle[k])
            invariant
                total == haystack@.len(),
                last == total - needle@.len(),
                at <= last,
                k <= needle@.len(),
                forall|j: int|
                    0 <= j < k ==> lower(haystack@[at + j]) == lower(#[trigger] needle@[j]),
            decreases needle@.len() - k,
        {
            k = k + 1;
        }
        if k == needle.len() {
            assert(stands_at(haystack@, needle@, at as int));
            return true;
        }
        assert(lower(haystack@[at + k]) != lower(needle@[k as int]));
        assert(!stands_at(haystack@, needle@, at as int));
        if at == last {
            more = false;
        } else {
            at = at + 1;
        }
    }
    false
}

/// The `compatible` property of a node holds the given text somewhere.
pub open spec fn mentions(node: NodeView, text: Seq<char>) -> bool {
    match first_value(node.properties, "compatible"@, 0) {
        Some(value) => contains_folded(value, vstd::utf8::encode_utf8(text)),
        None => false,
    }
}

fn compatible_mentions(node: &FdtNode<'_, '_>, text: &str) -> (r: bool)
    requires
        node_contents(*node) is Some,
    ensures
        r == mentions(node_contents(*node)->0, text@),
{
    match property(node, "compatible") {
        Some(value) => bytes_contains_ascii_case_insensitive(value, text.as_bytes()),
        None => false,
    }
}

/// The class of a core by the names in its `compatible` property.
pub open spec fn core_class(node: NodeView) -> Option<CpuCoreClass> {
    if mentions(node, "icestorm"@) || mentions(node, "blizzard"@) || mentions(node, "efficiency"@)
        || mentions(node, "e-core"@) {
        Some(CpuCoreClass::Efficiency)
    } else if mentions(node, "firestorm"@) || mentions(node, "avalanche"@) || mentions(
        node,
        "everest"@,
    ) || mentions(node, "performance"@) || mentions(node, "p-core"@) {
        Some(CpuCoreClass::Performance)
    } else {
        None
    }
}

/// Classify a processor by its device tree node.
pub fn classify_cpu_node(cpu: &FdtNode<'_, '_>) -> (r: Option<CpuCoreClass>)
    requires
        node_contents(*cpu) is Some,
    ensures
        r == core_class(node_contents(*cpu)->0),
{
    if compatible_mentions(cpu, "icestorm") || compatible_mentions(cpu, "blizzard")
        || compatible_mentions(cpu, "efficiency") || compatible_mentions(cpu, "e-core") {
        return Some(CpuCoreClass::Efficiency);
    }
    if compatible_mentions(cpu, "firestorm") || compatible_mentions(cpu, "avalanche")
        || compatible_mentions(cpu, "everest") || compatible_mentions(cpu, "performance")
        || compatible_mentions(cpu, "p-core") {
        return Some(CpuCoreClass::Performance);
    }
    None
}

/// Whether an affinity belongs to a cluster of efficiency cores.
pub fn is_efficiency_core(mpidr: u64) -> (r: bool)
    ensures
        r == (mpidr & 0x1_0000 == 0),
{
    mpidr & MPIDR_PERFORMANCE_CLUSTER_BIT == 0
}

proof fn error_fields(raw: u64)
    by (bit_vector)
    ensures
        raw & 0x03ff_ffff_ffff == raw % 0x0400_0000_0000,
        (raw >> 53) & 0x7f == raw / 0x0020_0000_0000_0000 % 0x80,
{
}

/// The address field of the cache error address register.
pub fn l2c_error_address(raw: u64) -> (r: u64)
    ensures
        r == raw % 0x0400_0000_0000,
{
    proof {
        error_fields(raw);
    }
    raw & L2C_ERR_ADR_ADDRESS_MASK
}

/// The command field of the cache error address register.
pub fn l2c_error_command(raw: u64) -> (r: u64)
    ensures
        r == raw / 0x0020_0000_0000_0000 % 0x80,
{
    proof {
        error_fields(raw);
    }
    (raw >> 53) & 0x7f
}

/// What the error registers say.
#[derive(Clone, Copy, Debug, PartialEq, Eq, Structural)]
pub struct ErrorStatus {
    pub midr: u64,
    pub mpidr: u64,
    pub efficiency_core: bool,
    pub l2c_status: u64,
    pub l2c_address: u64,
    pub l2c_info: u64,
    pub lsu_status: u64,
    pub fed_status: u64,
    pub access_fault: bool,
    pub recursive: bool,
    pub command: u64,
    pub paddr: u64,
}

/// The reads of the error registers; those of the load/store and the front
/// end unit depend on the kind of core.
pub open spec fn error_reads(s: ErrorStatus) -> Seq<SysOp> {
    seq![
        got(SysReg::Midr, s.midr),
        got(SysReg::Mpidr, s.mpidr),
        got(SysReg::L2cErrSts, s.l2c_status),
        got(SysReg::L2cErrAdr, s.l2c_address),
        got(SysReg::L2cErrInf, s.l2c_info),
        got(
            if s.efficiency_core {
                SysReg::ELsuErrSts
            } else {
                SysReg::PLsuErrSts
            },
            s.lsu_status,
        ),
        got(
            if s.efficiency_core {
                SysReg::EFedErrSts
            } else {
                SysReg::PFedErrSts
            },
            s.fed_status,
        ),
    ]
}

/// The decoded fields fit the registers.
pub open spec fn status_decoded(s: ErrorStatus) -> bool {
    &&& s.efficiency_core == (s.mpidr & 0x1_0000 == 0)
    &&& s.access_fault == (s.l2c_status & 0x80 != 0)
    &&& s.recursive == (s.l2c_status & 2 != 0)
    &&& s.command == s.l2c_address / 0x0020_0000_0000_0000 % 0x80
    &&& s.paddr == s.l2c_address % 0x0400_0000_0000
}

/// Read the error registers; there is nothing to read on other processors.
pub fn read_error_status<S: SysRegs>(cpu: &mut Cpu<S>) -> (r: Result<ErrorStatus, u64>)
    ensures
        match r {
            Ok(s) => made_by_apple(s.midr) && status_decoded(s) && final(cpu).ops() == old(
                cpu,
            ).ops() + error_reads(s),
            Err(midr) => !made_by_apple(midr) && final(cpu).ops() == old(cpu).ops().push(
                got(SysReg::Midr, midr),
            ),
        },
{
    let ghost start = cpu.ops();
    let midr: u64 = cpu.read(SysReg::Midr);
    if !is_apple_cpu(midr) {
        return Err(midr);
    }
    let mpidr: u64 = cpu.read(SysReg::Mpidr);
    let l2c_status: u64 = cpu.read(SysReg::L2cErrSts);
    let l2c_address: u64 = cpu.read(SysReg::L2cErrAdr);
    let l2c_info: u64 = cpu.read(SysReg::L2cErrInf);
    let efficiency_core = is_efficiency_core(mpidr);
    let (lsu, fed) = if efficiency_core {
        (SysReg::ELsuErrSts, SysReg::EFedErrSts)
    } else {
        (SysReg::PLsuErrSts, SysReg::PFedErrSts)
    };
    let lsu_status: u64 = cpu.read(lsu);
    let fed_status: u64 = cpu.read(fed);
    let s = ErrorStatus {
        midr,
        mpidr,
        efficiency_core,
        l2c_status,
        l2c_address,
        l2c_info,
        lsu_status,
        fed_status,
        access_fault: l2c_status & L2C_ERR_STS_ACCESS_FAULT != 0,
        recursive: l2c_status & L2C_ERR_STS_RECURSIVE_FAULT != 0,
        command: l2c_error_command(l2c_address),
        paddr: l2c_error_address(l2c_address),
    };
    assert(cpu.ops() =~= start + error_reads(s));
    Ok(s)
}

/// Clear the cache error that was reported.
pub fn acknowledge_error<S: SysRegs>(cpu: &mut Cpu<S>, status: &ErrorStatus)
    ensures
        final(cpu).ops() == old(cpu).ops() + seq![
            put(SysReg::L2cErrSts, status.l2c_status),
            SysOp::Dsb,
            SysOp::Isb,
        ],
{
    let ghost start = cpu.ops();
    cpu.write(SysReg::L2cErrSts, status.l2c_status);
    cpu.dsb();
    cpu.isb();
    assert(cpu.ops() =~= start + seq![
        put(SysReg::L2cErrSts, status.l2c_status),
        SysOp::Dsb,
        SysOp::Isb,
    ]);
}

} // verus!
