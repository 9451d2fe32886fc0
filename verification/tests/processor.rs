//! Processors: fast interrupts, errors, clusters and the device tree.

use std::cell::RefCell;
use std::rc::Rc;

use apple_silicon::bus::{Bus, Mmio};
use apple_silicon::cpu::{
    acknowledge_error, bytes_contains_ascii_case_insensitive, classify_cpu_node,
    initialize_current_cpu, is_apple_cpu, is_efficiency_core, l2c_error_address,
    l2c_error_command, prepare_el2_drop, read_error_status, CpuCoreClass, El2DropDiagnostic,
    APPLE_MIDR_IMPLEMENTER, MIDR_IMPLEMENTER_SHIFT, MPIDR_PERFORMANCE_CLUSTER_BIT,
};
use apple_silicon::cpufreq::{
    compatible_contains, find_domain, find_node_by_phandle, first_reg_region, list_contains,
    load_domain_opps, opp_table_phandle_for_domain, read_u64_prop, scan_blob, MapAction,
    OppEntry, PstateEncoding,
};
use apple_silicon::dcp::{find_display_iommu, handoff_regions, DcpError, HandoffRegion};
use apple_silicon::devicetree::{check_tree, open_sound_tree};
use apple_silicon::fiq::{
    claim_pending, fast_ipi_request, first_report, host_timer_bank, host_timer_sources,
    timer_is_firing, FastIpiTable, FiqState, HostTimerBank, InterruptClaim, SOURCE_CORE_PMU,
    SOURCE_FAST_IPI, SOURCE_GUEST_VIRTUAL_TIMER, SOURCE_PHYSICAL_TIMER, SOURCE_UNCORE_PMU,
    SOURCE_VIRTUAL_TIMER, TIMER_FIRING,
};
use apple_silicon::sysreg::{Cpu, SysReg, SysRegs};

const APPLE: u64 = 0x61 << 24;

#[derive(Default)]
struct Words {
    values: Vec<(SysReg, u64)>,
    writes: Vec<(SysReg, u64)>,
}

#[derive(Clone, Default)]
struct Core(Rc<RefCell<Words>>);

impl Core {
    fn with(values: &[(SysReg, u64)]) -> Core {
        let core = Core::default();
        core.0.borrow_mut().values = values.to_vec();
        core
    }

    fn cpu(&self) -> Cpu<Core> {
        Cpu::new(self.clone())
    }

    fn writes(&self) -> Vec<(SysReg, u64)> {
        self.0.borrow().writes.clone()
    }
}

impl SysRegs for Core {
    fn read(&mut self, reg: SysReg) -> u64 {
        let words = self.0.borrow();
        words.values.iter().rev().find(|v| v.0 == reg).map(|v| v.1).unwrap_or(0)
    }
    fn write(&mut self, reg: SysReg, value: u64) {
        let mut words = self.0.borrow_mut();
        words.values.push((reg, value));
        words.writes.push((reg, value));
    }
    fn isb(&mut self) {}
    fn dsb(&mut self) {}
}

#[test]
fn timer_is_firing_requires_enabled_unmasked_status() {
    assert!(timer_is_firing(TIMER_FIRING));
    assert!(!timer_is_firing(0b100));
    assert!(!timer_is_firing(0b111));
    assert!(!timer_is_firing(0b001));
}

#[test]
fn host_sources_select_the_timer_used_by_the_kernel() {
    assert_eq!(host_timer_sources(true, TIMER_FIRING, TIMER_FIRING), SOURCE_PHYSICAL_TIMER);
    assert_eq!(host_timer_sources(false, TIMER_FIRING, TIMER_FIRING), SOURCE_VIRTUAL_TIMER);
    assert_eq!(host_timer_sources(true, 0, TIMER_FIRING), 0);
    assert_eq!(host_timer_sources(false, TIMER_FIRING, 0), 0);
}

#[test]
fn host_timer_bank_matches_kernel_execution_level() {
    assert_eq!(host_timer_bank(true), HostTimerBank::Physical);
    assert_eq!(host_timer_bank(false), HostTimerBank::Virtual);
}

#[test]
fn fast_ipi_request_uses_local_register_within_cluster() {
    let (local, request) = fast_ipi_request(0x8000_0100, 0x8000_0103);
    assert!(local);
    assert_eq!(request & 0xff, 3);
}

#[test]
fn fast_ipi_request_encodes_remote_cluster() {
    let (local, request) = fast_ipi_request(0x8000_0002, 0x8000_0101);
    assert!(!local);
    assert_eq!(request, 0x0001_0001);
}

#[test]
fn fast_interrupts_are_told_apart_and_cleared() {
    let core = Core::with(&[
        (SysReg::CntpCtl, 5),
        (SysReg::FastIpiStatus, 1),
        (SysReg::Pmcr0, 0xc01),
        (SysReg::Upmcr0, 0x4_0000),
        (SysReg::Upmsr, 1),
        (SysReg::GuestCntvCtl, 5),
        (SysReg::TimerGate, 3),
    ]);
    let state = FiqState::capture(&mut core.cpu(), true);
    assert_eq!(
        state.pending_sources(),
        SOURCE_PHYSICAL_TIMER
            | SOURCE_GUEST_VIRTUAL_TIMER
            | SOURCE_FAST_IPI
            | SOURCE_CORE_PMU
            | SOURCE_UNCORE_PMU
    );
    assert_eq!(claim_pending(&mut core.cpu(), true), InterruptClaim::Reschedule);
    let writes = core.writes();
    assert!(writes.contains(&(SysReg::FastIpiStatus, 1)));
    assert!(writes.contains(&(SysReg::Pmcr0, 1)));
    assert!(writes.contains(&(SysReg::Upmcr0, 0)));
    assert!(writes.contains(&(SysReg::GuestCntvCtl, 7)));
    assert!(writes.contains(&(SysReg::TimerGate, 0)));
}

#[test]
fn quiet_processor_claims_nothing() {
    let core = Core::default();
    assert_eq!(claim_pending(&mut core.cpu(), false), InterruptClaim::NotMine);
    assert!(core.writes().is_empty());
    let core = Core::with(&[(SysReg::CntvCtl, 5)]);
    assert_eq!(claim_pending(&mut core.cpu(), false), InterruptClaim::Handled);
}

#[test]
fn prepared_processor_receives_fast_interrupts() {
    let core = Core::with(&[(SysReg::Mpidr, 0x8000_0102), (SysReg::CntvCtl, 1)]);
    let mut table = FastIpiTable::new();
    assert!(!table.send_fast_ipi(&mut core.cpu(), 4));
    table.prepare_cpu(&mut core.cpu(), 4, false);
    assert_eq!(core.writes()[0], (SysReg::CntvCtl, 3));
    assert!(table.send_fast_ipi(&mut core.cpu(), 4));
    assert_eq!(core.writes().last(), Some(&(SysReg::FastIpiLocal, 2)));
    let other = Core::with(&[(SysReg::Mpidr, 0x8000_0002)]);
    assert!(table.send_fast_ipi(&mut other.cpu(), 4));
    assert_eq!(other.writes(), vec![(SysReg::FastIpiGlobal, 0x1_0002)]);
    assert!(!table.send_fast_ipi(&mut other.cpu(), 40));
}

#[test]
fn detects_apple_midr_implementer() {
    assert!(is_apple_cpu(APPLE_MIDR_IMPLEMENTER << MIDR_IMPLEMENTER_SHIFT));
    assert!(!is_apple_cpu(0x41 << MIDR_IMPLEMENTER_SHIFT));
}

#[test]
fn el2_drop_normalizes_the_private_timer_gate() {
    let core = Core::with(&[(SysReg::Midr, APPLE), (SysReg::HacrEl2, 9), (SysReg::TimerGate, 6)]);
    let mut diagnostic = El2DropDiagnostic::new();
    assert_eq!(diagnostic.el2_drop_diagnostic_transition(), None);
    prepare_el2_drop(&mut core.cpu(), &mut diagnostic);
    assert_eq!(core.writes(), vec![(SysReg::HacrEl2, 0), (SysReg::TimerGate, 5)]);
    assert_eq!(diagnostic.el2_drop_diagnostic_transition(), Some((9, 0)));
}

#[test]
fn el2_drop_leaves_other_processors_alone() {
    let core = Core::with(&[(SysReg::Midr, 0x41 << 24)]);
    let mut diagnostic = El2DropDiagnostic::new();
    prepare_el2_drop(&mut core.cpu(), &mut diagnostic);
    assert!(core.writes().is_empty());
    assert_eq!(diagnostic.el2_drop_diagnostic_transition(), None);
    assert_eq!(initialize_current_cpu(&mut core.cpu()), None);
}

#[test]
fn processor_orders_device_accesses() {
    let core = Core::with(&[(SysReg::Midr, APPLE), (SysReg::Actlr, 1)]);
    assert_eq!(initialize_current_cpu(&mut core.cpu()), Some((1, 0x1001)));
    assert_eq!(core.writes(), vec![(SysReg::Actlr, 0x1001)]);
}

#[test]
fn classifies_apple_cluster_from_mpidr() {
    assert!(is_efficiency_core(0));
    assert!(!is_efficiency_core(MPIDR_PERFORMANCE_CLUSTER_BIT));
}

#[test]
fn decodes_l2c_error_command_and_address() {
    let raw = 0x0280_040e_0010_2240;
    assert_eq!(l2c_error_command(raw), 0x14);
    assert_eq!(l2c_error_address(raw), 0x0e_0010_2240);
}

#[test]
fn error_registers_depend_on_the_kind_of_core() {
    let core = Core::with(&[
        (SysReg::Midr, APPLE),
        (SysReg::Mpidr, 0x1_0000),
        (SysReg::L2cErrSts, 0x82),
        (SysReg::L2cErrAdr, 0x0280_040e_0010_2240),
        (SysReg::PLsuErrSts, 7),
        (SysReg::PFedErrSts, 8),
        (SysReg::ELsuErrSts, 9),
    ]);
    let status = read_error_status(&mut core.cpu()).unwrap();
    assert!(!status.efficiency_core && status.access_fault && status.recursive);
    assert_eq!((status.lsu_status, status.fed_status), (7, 8));
    assert_eq!((status.command, status.paddr), (0x14, 0x0e_0010_2240));
    acknowledge_error(&mut core.cpu(), &status);
    assert_eq!(core.writes(), vec![(SysReg::L2cErrSts, 0x82)]);
    let core = Core::with(&[(SysReg::Midr, 5)]);
    assert_eq!(read_error_status(&mut core.cpu()), Err(5));
}

#[test]
fn text_is_found_in_any_case() {
    assert!(bytes_contains_ascii_case_insensitive(b"apple,IceStorm\0", b"icestorm"));
    assert!(!bytes_contains_ascii_case_insensitive(b"apple", b"icestorm"));
    assert!(list_contains(b"a\0bc\0", "bc"));
    assert!(!list_contains(b"a\0bc\0", "b"));
    assert!(list_contains(b"a\0bc", "bc"));
}

struct Tree {
    structs: Vec<u8>,
    strings: Vec<u8>,
}

impl Tree {
    fn new() -> Tree {
        Tree { structs: Vec::new(), strings: Vec::new() }
    }

    fn word(&mut self, value: u32) {
        self.structs.extend_from_slice(&value.to_be_bytes());
    }

    fn pad(&mut self) {
        while self.structs.len() % 4 != 0 {
            self.structs.push(0);
        }
    }

    fn open(&mut self, name: &str) {
        self.word(1);
        self.structs.extend_from_slice(name.as_bytes());
        self.structs.push(0);
        self.pad();
    }

    fn close(&mut self) {
        self.word(2);
    }

    fn filler(&mut self, words: usize) {
        for _ in 0..words {
            self.word(4);
        }
    }

    fn prop(&mut self, name: &str, value: &[u8]) {
        let at = self.strings.len() as u32;
        self.strings.extend_from_slice(name.as_bytes());
        self.strings.push(0);
        self.word(3);
        self.word(value.len() as u32);
        self.word(at);
        self.structs.extend_from_slice(value);
        self.pad();
    }

    fn cells(&mut self, name: &str, cells: &[u32]) {
        let bytes: Vec<u8> = cells.iter().flat_map(|c| c.to_be_bytes()).collect();
        self.prop(name, &bytes);
    }

    fn blob(mut self) -> Vec<u8> {
        self.word(9);
        let structs_at = 40 + 16;
        let strings_at = structs_at + self.structs.len();
        let total = strings_at + self.strings.len();
        let header = [
            0xd00d_feedu32,
            total as u32,
            structs_at as u32,
            strings_at as u32,
            40,
            17,
            16,
            0,
            self.strings.len() as u32,
            self.structs.len() as u32,
        ];
        let mut blob: Vec<u8> = header.iter().flat_map(|w| w.to_be_bytes()).collect();
        blob.extend_from_slice(&[0; 16]);
        blob.extend_from_slice(&self.structs);
        blob.extend_from_slice(&self.strings);
        blob
    }
}

fn sample() -> Vec<u8> {
    sample_with(0, 0)
}

/// A tree with filler in front of the children of the root and between them.
fn sample_with(front: usize, between: usize) -> Vec<u8> {
    let mut t = Tree::new();
    t.open("");
    t.cells("#address-cells", &[2]);
    t.cells("#size-cells", &[2]);
    t.filler(front);
    t.open("cpus");
    t.cells("#address-cells", &[1]);
    t.cells("#size-cells", &[0]);
    t.open("cpu@0");
    t.prop("compatible", b"apple,icestorm\0arm,v8\0");
    t.cells("performance-domains", &[0x10]);
    t.cells("operating-points-v2", &[0x20]);
    t.close();
    t.open("cpu@1");
    t.prop("compatible", b"apple,firestorm\0");
    t.close();
    t.close();
    t.filler(between);
    t.open("opp-table-0");
    t.cells("phandle", &[0x20]);
    t.open("opp01");
    t.cells("opp-level", &[1]);
    t.cells("opp-hz", &[0, 600_000_001]);
    t.close();
    t.open("opp02");
    t.cells("opp-hz", &[0, 1]);
    t.close();
    t.open("opp03");
    t.cells("opp-level", &[3]);
    t.cells("opp-hz", &[972_000_000]);
    t.close();
    t.close();
    t.filler(between);
    t.open("cpufreq@210e20000");
    t.prop("compatible", b"apple,t8103-cluster-cpufreq\0apple,cluster-cpufreq\0");
    t.cells("reg", &[2, 0x10e2_0000, 0, 0x1000]);
    t.cells("phandle", &[0x10]);
    t.close();
    t.filler(between);
    t.open("display-subsystem");
    t.prop("compatible", b"apple,t8103-display\0apple,display-subsystem\0");
    t.cells("iommus", &[0x41, 4]);
    t.cells("phandle", &[0x42]);
    t.close();
    t.filler(between);
    t.open("reserved-memory");
    t.open("asc-firmware@9d0000000");
    t.cells("reg", &[9, 0xd000_0000, 0, 0x8000]);
    t.cells("iommu-addresses", &[0x42, 0, 0xa000, 0, 0x4000, 0x43, 0, 0xb000, 0, 0x8000]);
    t.close();
    t.close();
    t.close();
    t.blob()
}

#[test]
fn clusters_are_found_in_a_tree() {
    let blob = sample();
    assert!(check_tree(&blob));
    let domains = scan_blob(&blob).unwrap();
    assert_eq!(domains.len(), 1);
    let domain = &domains[0];
    assert_eq!((domain.phandle, domain.paddr, domain.size), (0x10, 0x2_10e2_0000, 0x1000));
    assert_eq!(domain.encoding, PstateEncoding::T8103);
    assert_eq!(
        domain.opps,
        vec![
            OppEntry { pstate: 1, freq_khz: 600_001 },
            OppEntry { pstate: 3, freq_khz: 972_000 },
        ]
    );
    assert_eq!(domain.freq_for_pstate(Some(3)), Some(972_000));
    assert_eq!(domain.freq_for_pstate(Some(2)), None);
    assert_eq!(domain.max_freq_khz(), Some(972_000));
    assert_eq!(find_domain(&domains, 0x10), Some(0));
    assert_eq!(find_domain(&domains, 0x11), None);
}

#[test]
fn trees_that_cannot_be_read_are_refused() {
    let blob = sample();
    assert!(scan_blob(&blob[..blob.len() - 1]).is_none());
    assert!(scan_blob(&[]).is_none());
    let mut broken = blob.clone();
    broken[0] = 0;
    assert!(!check_tree(&broken));
    assert!(open_sound_tree(&broken).is_none());
    let mut token = blob.clone();
    token[40 + 16 + 3] = 8;
    assert!(!check_tree(&token));
}

#[test]
fn filler_and_foreign_names_are_read() {
    let mut t = Tree::new();
    t.word(4);
    t.open("");
    t.word(4);
    t.cells("#address-cells", &[2]);
    t.cells("/path", &[1]);
    t.open("caf\u{e9}");
    t.word(4);
    t.close();
    for _ in 0..61 {
        t.open("x");
    }
    t.cells("phandle", &[7]);
    t.word(4);
    for _ in 0..61 {
        t.close();
    }
    t.word(4);
    t.close();
    t.word(4);
    let blob = t.blob();
    assert!(check_tree(&blob));
    assert_eq!(scan_blob(&blob).map(|d| d.len()), Some(0));
    let tree = open_sound_tree(&blob).unwrap();
    assert_eq!(tree.all_nodes().count(), 63);
    assert!(find_node_by_phandle(&tree, 7).is_some());
}

#[test]
fn filler_between_the_children_of_the_root_is_passed_over() {
    let plain = scan_blob(&sample()).unwrap();
    let blob = sample_with(0, 2);
    let spaced = scan_blob(&blob).unwrap();
    assert_eq!(spaced.len(), 1);
    assert_eq!((spaced[0].phandle, spaced[0].paddr), (plain[0].phandle, plain[0].paddr));
    assert_eq!(spaced[0].opps, plain[0].opps);
    let tree = open_sound_tree(&blob).unwrap();
    assert_eq!(find_display_iommu(&tree), Some((0x41, 4, 0x42)));
    assert!(matches!(handoff_regions(&tree, 0x42), Err(DcpError::NoReservedMemory)));
    let hidden = scan_blob(&sample_with(1, 0)).unwrap();
    assert_eq!(hidden.len(), 1);
    assert!(hidden[0].opps.is_empty());
}

#[test]
fn properties_behind_filler_belong_to_the_root() {
    let mut t = Tree::new();
    t.open("");
    t.cells("a", &[1]);
    t.filler(1);
    t.cells("phandle", &[9]);
    t.open("x");
    t.close();
    let blob = t.blob();
    assert!(check_tree(&blob));
    let tree = open_sound_tree(&blob).unwrap();
    assert!(find_node_by_phandle(&tree, 9).is_some());
    assert_eq!(tree.all_nodes().count(), 1);
}

#[test]
fn trees_that_would_be_misread_are_refused() {
    let mut deep = Tree::new();
    deep.open("");
    for _ in 0..63 {
        deep.open("x");
    }
    for _ in 0..64 {
        deep.close();
    }
    assert!(!check_tree(&deep.blob()));
    let mut between = Tree::new();
    between.open("");
    between.open("cpus");
    between.open("cpu@0");
    between.close();
    between.filler(1);
    between.open("cpu@1");
    between.close();
    between.close();
    between.close();
    assert!(!check_tree(&between.blob()));
    let mut alias = Tree::new();
    alias.open("");
    alias.open("aliases");
    alias.prop("/cpus", b"/cpus\0");
    alias.close();
    alias.close();
    assert!(!check_tree(&alias.blob()));
    let mut second = Tree::new();
    second.open("");
    second.close();
    second.open("");
    second.close();
    assert!(!check_tree(&second.blob()));
}

#[test]
fn fast_interrupts_are_reported_once() {
    let mut reported = 0;
    assert!(first_report(&mut reported, 3));
    assert!(!first_report(&mut reported, 3));
    assert!(first_report(&mut reported, 63));
    assert!(!first_report(&mut reported, 64));
    assert_eq!(reported, (1 << 63) | 8);
}

#[test]
fn nodes_are_found_and_read() {
    let blob = sample();
    let tree = open_sound_tree(&blob).unwrap();
    assert_eq!(opp_table_phandle_for_domain(&tree, 0x10), Some(0x20));
    assert_eq!(opp_table_phandle_for_domain(&tree, 0x11), None);
    assert_eq!(load_domain_opps(&tree, 0x11).len(), 0);
    let cluster = find_node_by_phandle(&tree, 0x10).unwrap();
    assert_eq!(first_reg_region(&cluster), Some((0x2_10e2_0000, 0x1000)));
    assert!(compatible_contains(&cluster, "apple,cluster-cpufreq"));
    assert_eq!(PstateEncoding::from_node(&cluster), PstateEncoding::T8103);
    assert_eq!(read_u64_prop(&cluster, "phandle"), Some(0x10));
    assert_eq!(read_u64_prop(&cluster, "absent"), None);
    assert!(find_node_by_phandle(&tree, 0x99).is_none());
    assert_eq!(find_display_iommu(&tree), Some((0x41, 4, 0x42)));
}

#[test]
fn cores_are_classified_by_their_nodes() {
    let blob = sample();
    let tree = open_sound_tree(&blob).unwrap();
    let classes: Vec<Option<CpuCoreClass>> =
        tree.all_nodes().map(|node| classify_cpu_node(&node)).collect();
    assert!(classes.contains(&Some(CpuCoreClass::Efficiency)));
    assert!(classes.contains(&Some(CpuCoreClass::Performance)));
    assert!(classes.contains(&None));
}

#[test]
fn ranges_left_by_firmware_are_found() {
    let blob = sample();
    let tree = open_sound_tree(&blob).unwrap();
    assert_eq!(
        handoff_regions(&tree, 0x42).ok().unwrap(),
        vec![HandoffRegion { iova: 0xa000, paddr: 0x9_d000_0000, size: 0x4000 }]
    );
    assert!(handoff_regions(&tree, 0x44).ok().unwrap().is_empty());
    let mut t = Tree::new();
    t.open("");
    t.close();
    let blob = t.blob();
    let tree = open_sound_tree(&blob).unwrap();
    assert!(matches!(handoff_regions(&tree, 0x42), Err(DcpError::NoReservedMemory)));
    assert_eq!(find_display_iommu(&tree), None);
}

struct Status(u32);

impl Mmio for Status {
    fn read8(&mut self, _addr: usize) -> u8 {
        0
    }
    fn write8(&mut self, _addr: usize, _value: u8) {}
    fn read32(&mut self, addr: usize) -> u32 {
        assert_eq!(addr, 0x9050);
        self.0
    }
    fn write32(&mut self, _addr: usize, _value: u32) {}
    fn read64(&mut self, _addr: usize) -> u64 {
        0
    }
    fn write64(&mut self, _addr: usize, _value: u64) {}
    fn udelay(&mut self, _us: u64) {}
    fn current_time(&mut self) -> u64 {
        0
    }
    fn barrier(&mut self) {}
    fn clean_cache(&mut self, _addr: usize, _len: usize) {}
    fn invalidate_cache(&mut self, _addr: usize, _len: usize) {}
    fn clean_invalidate_cache(&mut self, _addr: usize, _len: usize) {}
}

#[test]
fn cluster_reports_its_frequencies() {
    let mut domains = scan_blob(&sample()).unwrap();
    let domain = &mut domains[0];
    assert_eq!(
        domain.map_action(),
        MapAction::Remap { paddr: 0x2_10e2_0000, size: 0x1000 }
    );
    assert_eq!(domain.record_mapping(None), None);
    assert_eq!(domain.map_action(), MapAction::Unavailable);
    assert_eq!(domain.record_mapping(Some(0x9000)), Some(0x9000));
    assert_eq!(domain.map_action(), MapAction::Mapped(0x9000));
    let info = domain.frequency_info(&mut Bus::new(Status(0x31)), 0x9000);
    assert_eq!((info.current_pstate, info.target_pstate), (Some(3), Some(1)));
    assert_eq!(info.current_freq_khz, Some(972_000));
    assert_eq!(info.target_freq_khz, Some(600_001));
    assert_eq!(info.max_freq_khz, Some(972_000));
}

#[test]
fn performance_states_sit_in_their_fields() {
    assert_eq!(PstateEncoding::S5l8960x.current_pstate(0o52), Some(5));
    assert_eq!(PstateEncoding::S5l8960x.target_pstate(0o52), Some(2));
    assert_eq!(PstateEncoding::T8112.current_pstate(0x3ff), Some(0x1f));
    assert_eq!(PstateEncoding::T8112.target_pstate(0x3e1), Some(1));
    assert_eq!(PstateEncoding::Unknown.current_pstate(1), None);
    assert_eq!(PstateEncoding::Unknown.target_pstate(1), None);
}
