//! Devices behind registers and page tables.

use std::cell::RefCell;
use std::collections::{HashMap, VecDeque};
use std::rc::Rc;

use apple_silicon::admac::{AdmacProbeError, AppleAdmac, DmaError};
use apple_silicon::asc::{get_apple_asc, AppleAsc, AscError, AscMessage};
use apple_silicon::bus::{Bus, Mmio, Until};
use apple_silicon::dart::{
    dart_pte_flags, get_dart, get_dart_by_phandle, register_dart, DartAnyDomain, DartError,
    DartInstance, DartPageTable, DartParams, IommuDomainType, IommuError, IommuMapFlags,
    IommuStreamId, DART_PTE_NO_READ, DART_PTE_NO_WRITE, DART_PTE_SP_DIS, DART_PTE_VALID,
};
use apple_silicon::dwc3::{
    bus_clock_decision, first_missing_phy, AppleDwc3, ClockDecision, Dwc3Core, Dwc3Error,
};
use apple_silicon::efuse::{get_apple_efuse, AppleEfuse, EfuseCell};
use apple_silicon::nco::{
    clock_count, resolve_parent_clock, AppleNcoClock, AppleNcoProvider, ClkError, NcoProbeError,
};
use apple_silicon::platform::{
    first_cell, first_irq, first_mem_resource, first_resource, iommu_spec, node_phandle,
    nth_resource, register_region, FrameSource, RegionError, Resource, ResourceKind,
};
use apple_silicon::ports::clocks::{NamedClockPort, NamedClocks};
use apple_silicon::registry::Registry;
use apple_silicon::wdt::{clock_rate, resolve_watchdog_clk, AppleWdt, WatchdogError};

#[derive(Default)]
struct State {
    bytes: HashMap<usize, u8>,
    script: HashMap<usize, VecDeque<u32>>,
    writes: Vec<(usize, u64)>,
    now: u64,
    delays: u64,
}

#[derive(Clone, Default)]
struct Machine(Rc<RefCell<State>>);

impl Machine {
    fn bus(&self) -> Bus<Machine> {
        Bus::new(self.clone())
    }

    fn script(&self, addr: usize, values: &[u32]) {
        self.0.borrow_mut().script.insert(addr, values.iter().copied().collect());
    }

    fn poke(&self, addr: usize, value: u64, size: usize) {
        for i in 0..size {
            self.0.borrow_mut().bytes.insert(addr + i, (value >> (8 * i)) as u8);
        }
    }

    fn peek(&self, addr: usize, size: usize) -> u64 {
        let state = self.0.borrow();
        (0..size).map(|i| (*state.bytes.get(&(addr + i)).unwrap_or(&0) as u64) << (8 * i)).sum()
    }

    fn writes(&self) -> Vec<(usize, u64)> {
        self.0.borrow().writes.clone()
    }
}

impl Mmio for Machine {
    fn read8(&mut self, addr: usize) -> u8 {
        self.peek(addr, 1) as u8
    }
    fn write8(&mut self, addr: usize, value: u8) {
        self.poke(addr, value as u64, 1);
    }
    fn read32(&mut self, addr: usize) -> u32 {
        let scripted = self.0.borrow_mut().script.get_mut(&addr).and_then(|s| s.pop_front());
        scripted.unwrap_or_else(|| self.peek(addr, 4) as u32)
    }
    fn write32(&mut self, addr: usize, value: u32) {
        self.0.borrow_mut().writes.push((addr, value as u64));
        self.poke(addr, value as u64, 4);
    }
    fn read64(&mut self, addr: usize) -> u64 {
        self.peek(addr, 8)
    }
    fn write64(&mut self, addr: usize, value: u64) {
        self.0.borrow_mut().writes.push((addr, value));
        self.poke(addr, value, 8);
    }
    fn udelay(&mut self, us: u64) {
        let mut state = self.0.borrow_mut();
        state.delays += us;
        state.now += us;
    }
    fn current_time(&mut self) -> u64 {
        let mut state = self.0.borrow_mut();
        state.now += 1;
        state.now
    }
    fn barrier(&mut self) {}
    fn clean_cache(&mut self, _addr: usize, _len: usize) {}
    fn invalidate_cache(&mut self, _addr: usize, _len: usize) {}
    fn clean_invalidate_cache(&mut self, _addr: usize, _len: usize) {}
}

struct Frames {
    next: u64,
    left: usize,
}

impl FrameSource for Frames {
    fn alloc_frame(&mut self) -> Option<u64> {
        if self.left == 0 {
            return None;
        }
        self.left -= 1;
        let frame = self.next;
        self.next += 0x4000;
        Some(frame)
    }
    fn phys_to_virt(&mut self, paddr: u64) -> usize {
        paddr as usize + 0x10_0000_0000
    }
}

fn frames(left: usize) -> Frames {
    Frames { next: 0x8000_0000, left }
}

fn dart(supports_bypass: bool, page_shift: u32) -> DartInstance {
    DartInstance {
        base_addr: 0x1000,
        params: DartParams { page_shift, supports_bypass, num_streams: 256 },
    }
}

fn stream(id: u32) -> IommuStreamId {
    IommuStreamId { id, substream_id: None }
}

#[test]
fn test_stream_ids_from_fdt_single_cell() {
    let dart = dart(false, 14);
    assert_eq!(
        dart.stream_ids_from_fdt(&[0x17]).unwrap(),
        vec![IommuStreamId { id: 0x17, substream_id: None }]
    );
}

#[test]
fn test_stream_ids_from_fdt_multi_cell_uses_first() {
    let dart = dart(false, 14);
    assert_eq!(dart.stream_ids_from_fdt(&[0x22, 0x33]).unwrap()[0].id, 0x22);
}

#[test]
fn stream_specifier_without_cells_is_refused() {
    assert_eq!(dart(false, 14).stream_ids_from_fdt(&[]), Err(IommuError::InvalidSpec));
}

#[test]
fn test_dart_pte_flags_encode_permissions() {
    let flags = IommuMapFlags { read: true, write: true, coherent: true };
    assert_eq!(dart_pte_flags(flags), DART_PTE_VALID | DART_PTE_SP_DIS);
    assert_eq!(
        dart_pte_flags(IommuMapFlags { read: true, write: false, coherent: false }),
        DART_PTE_VALID | DART_PTE_SP_DIS | DART_PTE_NO_WRITE
    );
    assert_eq!(
        dart_pte_flags(IommuMapFlags { read: false, write: true, coherent: false }),
        DART_PTE_VALID | DART_PTE_SP_DIS | DART_PTE_NO_READ
    );
}

#[test]
fn dart_parameters_come_from_the_hardware() {
    let machine = Machine::default();
    machine.poke(0x1000, 0x0e40_0000, 4);
    machine.poke(0x1004, 1, 4);
    let dart = DartInstance::new(&mut machine.bus(), 0x1000);
    assert_eq!(dart.params, DartParams { page_shift: 14, supports_bypass: true, num_streams: 16 });
    assert_eq!(dart.page_shift(), 14);
    assert!(dart.page_size_exceeds_cpu_page_size());
    machine.poke(0x1000, 0x0c90_0000, 4);
    let dart = DartInstance::new(&mut machine.bus(), 0x1000);
    assert_eq!(dart.params.num_streams, 16);
    assert!(!dart.page_size_exceeds_cpu_page_size());
}

#[test]
fn dart_reset_disables_and_enables_every_stream() {
    let machine = Machine::default();
    let mut unit = dart(false, 14);
    unit.params.num_streams = 2;
    unit.reset(&mut machine.bus());
    assert_eq!(
        machine.writes(),
        vec![
            (0x1100, 0),
            (0x1104, 0),
            (0x10fc, 0),
            (0x10fc, 1),
            (0x1020, 0),
            (0x1040, 0xffff_ffff),
        ]
    );
}

#[test]
fn dart_streams_are_checked_and_attached() {
    let machine = Machine::default();
    let mut bus = machine.bus();
    let unit = dart(false, 14);
    assert_eq!(
        unit.validate_stream(IommuStreamId { id: 1, substream_id: Some(2) }),
        Err(IommuError::NotSupported)
    );
    assert_eq!(unit.validate_stream(stream(256)), Err(IommuError::AttachFailed));
    assert_eq!(unit.validate_stream(stream(255)), Ok(255));
    let mut frames = frames(8);
    let mut domain = match unit.alloc_domain(&mut bus, &mut frames, IommuDomainType::Translated) {
        Ok(DartAnyDomain::Translated(domain)) => domain,
        _ => panic!("a page table was expected"),
    };
    assert_eq!(domain.attach_stream(&mut bus, stream(3)), Ok(()));
    assert_eq!(machine.peek(0x120c, 4), 0x8008_0000);
    assert_eq!(machine.peek(0x110c, 4), 0x82);
    assert_eq!(domain.attached, vec![3]);
    assert_eq!(domain.detach_stream(&mut bus, stream(3)), Ok(()));
    assert_eq!(machine.peek(0x110c, 4), 0);
    assert!(domain.attached.is_empty());
}

#[test]
fn dart_root_table_is_read_back() {
    let machine = Machine::default();
    let mut bus = machine.bus();
    let unit = dart(false, 14);
    unit.enable_translation(&mut bus, 3, 0x8000_0000, 3);
    assert_eq!(unit.ttbr_paddr(&mut bus, 3), Some(0x8000_0000));
    assert_eq!(unit.ttbr_paddr(&mut bus, 4), None);
}

#[test]
fn dart_bypass_domain_leaves_addresses_alone() {
    let machine = Machine::default();
    let mut bus = machine.bus();
    let mut frames = frames(1);
    let unit = dart(true, 14);
    let mut domain = match unit.alloc_domain(&mut bus, &mut frames, IommuDomainType::Identity) {
        Ok(DartAnyDomain::Bypass(domain)) => domain,
        _ => panic!("no page table was expected"),
    };
    assert_eq!(domain.attach_stream(&mut bus, stream(1)), Ok(()));
    assert_eq!(machine.peek(0x1104, 4), 0x1100);
    assert_eq!(domain.iova_to_phys(0x1234), Some(0x1234));
    assert_eq!(domain.detach_stream(&mut bus, stream(1)), Ok(()));
}

#[test]
fn dart_domain_needs_a_frame() {
    let machine = Machine::default();
    let unit = dart(false, 12);
    let r = unit.alloc_domain(&mut machine.bus(), &mut frames(0), IommuDomainType::Translated);
    assert!(matches!(r, Err(IommuError::DomainAllocationFailed)));
    let r = DartPageTable::new(&mut machine.bus(), &mut frames(0));
    assert!(matches!(r, Err(DartError::NoRootFrame)));
    assert_eq!(DartError::TableOutOfReach.message(), "dart: page table out of reach");
}

#[test]
fn dart_page_walk_finds_what_was_mapped() {
    let machine = Machine::default();
    let mut bus = machine.bus();
    let mut frames = frames(4);
    let mut table = DartPageTable::new(&mut bus, &mut frames).ok().unwrap();
    assert_eq!(table.root_paddr(), 0x8000_0000);
    let iova: u64 = (5 << 32) | (6 << 23) | (7 << 14);
    assert_eq!(table.map_page(&mut bus, &mut frames, iova, 0x9_1234_4000, 3), Ok(()));
    let virt = |pte: u64| (pte & 0xf_ffff_c000) as usize + 0x10_0000_0000;
    let first = machine.peek(table.root_vaddr + 8 * 5, 8);
    assert_eq!(first & 1, 1);
    let second = machine.peek(virt(first) + 8 * 6, 8);
    assert_eq!(second & 1, 1);
    let leaf = machine.peek(virt(second) + 8 * 7, 8);
    assert_eq!(leaf, 0x000f_ff09_1234_4003);
    assert_eq!(table.map_page(&mut bus, &mut frames, iova + 0x4000, 0x4000, 3), Ok(()));
    assert_eq!(machine.peek(virt(second) + 8 * 7, 8), leaf);
    table.unmap_page(&mut bus, &mut frames, iova);
    assert_eq!(machine.peek(virt(second) + 8 * 7, 8), 0);
    assert_eq!(machine.peek(virt(second) + 8 * 8, 8), 0x000f_ff00_0000_4003);
}

#[test]
fn dart_ranges_stop_at_the_first_missing_table() {
    let machine = Machine::default();
    let mut bus = machine.bus();
    let mut frames = frames(3);
    let mut table = DartPageTable::new(&mut bus, &mut frames).ok().unwrap();
    assert_eq!(table.map_contiguous(&mut bus, &mut frames, 0, 0x4000, 0x8001, 1), Ok(()));
    let r = table.map_contiguous(&mut bus, &mut frames, 1 << 32, 0x4000, 0x4000, 1);
    assert_eq!(r, Err(DartError::NoTableFrame));
}

#[test]
fn dart_domain_maps_and_flushes() {
    let machine = Machine::default();
    let mut bus = machine.bus();
    let mut frames = frames(3);
    let mut domain =
        match dart(false, 12).alloc_domain(&mut bus, &mut frames, IommuDomainType::Translated) {
            Ok(DartAnyDomain::Translated(domain)) => domain,
            _ => panic!("a page table was expected"),
        };
    let flags = IommuMapFlags { read: true, write: false, coherent: false };
    assert_eq!(domain.map(&mut bus, &mut frames, 0x4000, 0x8000, 0x4000, flags), Ok(()));
    assert_eq!(machine.writes().last(), Some(&(0x1020, 0)));
    assert_eq!(domain.iova_to_phys(0x4000), None);
    assert_eq!(domain.unmap(&mut bus, &mut frames, 0x4000, 0x4000), Ok(()));
    let far = domain.map(&mut bus, &mut frames, 1 << 40, 0x8000, 0x4000, flags);
    assert_eq!(far, Err(IommuError::MapFailed));
}

#[test]
fn darts_are_found_by_number_and_phandle() {
    let mut registry: Registry<DartInstance> = Registry::new();
    assert_eq!(register_dart(&mut registry, dart(false, 14), 0x40), 0);
    assert_eq!(register_dart(&mut registry, dart(true, 12), 0x41), 1);
    assert_eq!(register_dart(&mut registry, dart(true, 13), 0x40), 2);
    assert_eq!(get_dart(&registry, 1), Some(&dart(true, 12)));
    assert_eq!(get_dart(&registry, 3), None);
    assert_eq!(get_dart_by_phandle(&registry, 0x40), Some(&dart(false, 14)));
    assert_eq!(get_dart_by_phandle(&registry, 0x42), None);
}

#[test]
fn watchdog_counts_the_ticks_of_its_clock() {
    let machine = Machine::default();
    let mut bus = machine.bus();
    let mut wdt = AppleWdt::new(0x2000, clock_rate(None));
    assert_eq!(wdt.name(), "apple-wdt");
    assert_eq!(wdt.get_timeout(), None);
    assert_eq!(wdt.start(&mut bus, 1000), Ok(()));
    assert_eq!(machine.writes(), vec![(0x2014, 24_000_000), (0x2010, 0), (0x201c, 4)]);
    assert_eq!(wdt.get_timeout(), Some(1000));
    assert!(wdt.is_running(&mut bus));
    assert_eq!(wdt.start(&mut bus, 1000), Err(WatchdogError::AlreadyRunning));
    wdt.ping(&mut bus);
    assert_eq!(wdt.stop(&mut bus), Ok(()));
    assert!(!wdt.is_running(&mut bus));
}

#[test]
fn watchdog_takes_the_usual_timeout_and_refuses_long_ones() {
    let machine = Machine::default();
    let mut bus = machine.bus();
    let mut wdt = AppleWdt::new(0x2000, 24_000_000);
    assert_eq!(wdt.start(&mut bus, 0), Ok(()));
    assert_eq!(machine.peek(0x2014, 4), 720_000_000);
    assert_eq!(wdt.max_timeout(), 178_956);
    assert_eq!(wdt.set_timeout(&mut bus, 178_957), Err(WatchdogError::InvalidTimeout));
    assert_eq!(wdt.set_timeout(&mut bus, 0), Err(WatchdogError::InvalidTimeout));
    let mut odd = AppleWdt::new(0x2000, 32_768);
    assert_eq!(odd.set_timeout(&mut bus, 1), Ok(0));
    assert_eq!(clock_rate(Some(0)), 24_000_000);
    assert_eq!(clock_rate(Some(7)), 7);
}

struct Clocks {
    known: Vec<&'static str>,
    asked: Rc<RefCell<Vec<String>>>,
    works: bool,
}

impl NamedClocks<String> for Clocks {
    fn resolve(&mut self, name: &str) -> Option<String> {
        self.asked.borrow_mut().push(String::from(name));
        self.known.iter().find(|k| **k == name).map(|k| String::from(*k))
    }
    fn enable(&mut self, _clock: &String) -> bool {
        self.works
    }
}

#[test]
fn watchdog_clock_is_the_first_that_is_known() {
    let asked = Rc::new(RefCell::new(Vec::new()));
    let clocks = Clocks { known: vec!["bus", "ref"], asked: asked.clone(), works: true };
    assert_eq!(resolve_watchdog_clk(&mut NamedClockPort::new(clocks)), Some(String::from("ref")));
    assert_eq!(*asked.borrow(), vec!["wdt", "ref"]);
    let clocks = Clocks { known: vec!["ref", "bus"], asked: asked.clone(), works: false };
    assert_eq!(resolve_watchdog_clk(&mut NamedClockPort::new(clocks)), None);
    let clocks = Clocks { known: vec![], asked: asked.clone(), works: true };
    asked.borrow_mut().clear();
    assert_eq!(resolve_watchdog_clk(&mut NamedClockPort::new(clocks)), None);
    assert_eq!(*asked.borrow(), vec!["wdt", "ref", "bus"]);
}

#[test]
fn efuse_cells_are_read_from_their_word() {
    let machine = Machine::default();
    machine.poke(0x3010, 0x0000_01a0, 4);
    let efuse = AppleEfuse::new(0x3000);
    let cell =
        EfuseCell { name: String::from("trim"), offset: 0x10, bit_offset: 4, bit_count: 5 };
    assert_eq!(efuse.read32(&mut machine.bus(), 0x10), 0x1a0);
    assert_eq!(efuse.read_cell(&mut machine.bus(), &cell), 0x1a);
    let mut registry: Registry<AppleEfuse> = Registry::new();
    registry.register(efuse, 0);
    assert_eq!(get_apple_efuse(&registry, 0).unwrap().base, 0x3000);
    assert!(get_apple_efuse(&registry, 1).is_none());
}

#[test]
fn dwc3_core_tells_its_revision() {
    let machine = Machine::default();
    let core = Dwc3Core::new(0x4000);
    machine.poke(0x4000 + 0xc120, 0x5533_290a, 4);
    assert_eq!(core.read_revision(&mut machine.bus()), (2, 0));
    machine.poke(0x4000 + 0xc440, 0x3000_0000, 4);
    assert!(core.is_usb3(&mut machine.bus()));
    machine.poke(0x4000 + 0xc440, 0x2fff_ffff, 4);
    assert!(!core.is_usb3(&mut machine.bus()));
}

#[test]
fn dwc3_comes_up_as_host() {
    let machine = Machine::default();
    let mut dwc3 = AppleDwc3::new(0x4000, "host");
    assert!(dwc3.is_host());
    assert!(AppleDwc3::new(0x4000, "otg").is_host());
    assert!(!AppleDwc3::new(0x4000, "peripheral").is_host());
    assert_eq!(dwc3.init(&mut machine.bus(), &mut frames(1)), Ok(()));
    assert_eq!(machine.peek(0x4000 + 0xc110, 4) & 0x3000, 0x1000);
    assert_eq!(machine.peek(0x4000 + 0xc400, 4), 0x8000_0000);
    let none = AppleDwc3::new(0x4000, "host").init(&mut machine.bus(), &mut frames(0));
    assert_eq!(none, Err(Dwc3Error::NoEventBuffer));
}

#[test]
fn dwc3_clock_failures_are_told_apart() {
    assert_eq!(bus_clock_decision(true, "anything"), ClockDecision::Defer);
    assert_eq!(bus_clock_decision(false, "clk: provider not found"), ClockDecision::Defer);
    assert_eq!(bus_clock_decision(false, "clk: clocks missing"), ClockDecision::Continue);
    assert_eq!(bus_clock_decision(false, "clk: clock-names missing"), ClockDecision::Continue);
    assert_eq!(bus_clock_decision(false, "clk: clock name not found"), ClockDecision::Continue);
    assert_eq!(bus_clock_decision(false, "clk: broken"), ClockDecision::Fail);
}

#[test]
fn dwc3_waits_for_its_phys() {
    let mut registry = Registry::new();
    let phys = [0, 0, 0, 7, 0, 0, 0, 3, 0, 0, 0, 8, 0, 0, 0, 4, 9];
    assert_eq!(first_missing_phy(&registry, &phys), Some(7));
    let phy = apple_silicon::atcphy::AppleAtcPhy::new(0, None, None, 0, 0);
    apple_silicon::atcphy::register_atcphy(&mut registry, phy, 7);
    assert_eq!(first_missing_phy(&registry, &phys), Some(8));
    let phy = apple_silicon::atcphy::AppleAtcPhy::new(0, None, None, 0, 0);
    apple_silicon::atcphy::register_atcphy(&mut registry, phy, 8);
    assert_eq!(first_missing_phy(&registry, &phys), None);
}

#[test]
fn polls_wait_between_looks() {
    let machine = Machine::default();
    machine.script(0x100, &[0, 0, 4]);
    assert!(machine.bus().poll32(0x100, 4, Until::AnySet, 3, 10));
    assert_eq!(machine.0.borrow().delays, 20);
    machine.script(0x100, &[0, 0, 4]);
    assert!(machine.bus().poll32(0x100, 4, Until::AnySet, 3, 0));
    assert_eq!(machine.0.borrow().delays, 20);
    assert!(!machine.bus().poll32(0x100, 4, Until::AnySet, 2, 5));
    assert_eq!(machine.0.borrow().delays, 30);
}

#[test]
fn bytes_are_written_and_read_back() {
    let machine = Machine::default();
    machine.bus().write_bytes(0x200, &[1, 2, 3]);
    assert_eq!(machine.bus().read_bytes(0x200, 4), vec![1, 2, 3, 0]);
    machine.bus().zero_bytes(0x201, 1);
    assert_eq!(machine.bus().read_bytes(0x200, 3), vec![1, 0, 3]);
}

#[test]
fn mailbox_sends_and_receives() {
    let machine = Machine::default();
    let mut bus = machine.bus();
    let mut asc = AppleAsc::new(0x5000);
    asc.cpu_start(&mut bus);
    assert_eq!(machine.peek(0x5044, 4), 0x10);
    let msg = AscMessage { msg0: 0x1122_3344_5566_7788, msg1: 0x20 };
    assert_eq!(asc.send(&mut bus, &msg), Ok(()));
    assert_eq!(machine.peek(0x5800, 8), 0x1122_3344_5566_7788);
    assert_eq!(machine.peek(0x5808, 8), 0x20);
    machine.poke(0x5114, 0x2_0000, 4);
    let mut got = AscMessage { msg0: 0, msg1: 0 };
    assert!(!asc.can_recv(&mut bus));
    assert_eq!(asc.recv(&mut bus, &mut got), Err(AscError::NoMessage));
    assert_eq!(asc.recv_timeout(&mut bus, &mut got, 10), Err(AscError::RecvTimeout));
    machine.poke(0x5114, 0, 4);
    machine.poke(0x5830, 0xaabb, 8);
    machine.poke(0x5838, 0x21, 8);
    assert_eq!(asc.recv(&mut bus, &mut got), Ok(()));
    assert_eq!(got, AscMessage { msg0: 0xaabb, msg1: 0x21 });
    assert_eq!(asc.recv_timeout(&mut bus, &mut got, 10), Ok(()));
    asc.cpu_stop(&mut bus);
    assert_eq!(machine.peek(0x5044, 4), 0);
}

#[test]
fn mailbox_gives_up_on_a_full_queue() {
    let machine = Machine::default();
    machine.poke(0x5110, 0x1_0000, 4);
    let mut asc = AppleAsc::new(0x5000);
    let r = asc.send(&mut machine.bus(), &AscMessage { msg0: 1, msg1: 2 });
    assert_eq!(r, Err(AscError::SendTimeout));
    assert!(machine.writes().is_empty());
    let mut registry: Registry<AppleAsc> = Registry::new();
    registry.register(asc, 0);
    assert!(get_apple_asc(&registry, 0).is_some());
    assert!(get_apple_asc(&registry, 1).is_none());
}

fn resource(kind: ResourceKind, start: usize, end: usize) -> Resource {
    Resource { kind, start, end }
}

#[test]
fn resources_are_found_by_kind() {
    let list = [
        resource(ResourceKind::Irq, 33, 33),
        resource(ResourceKind::Mem, 0x1000, 0x1fff),
        resource(ResourceKind::Other, 1, 2),
        resource(ResourceKind::Mem, 0x3000, 0x2fff),
    ];
    assert_eq!(first_resource(&list, ResourceKind::Mem), Some(list[1]));
    assert_eq!(nth_resource(&list, ResourceKind::Mem, 1), Some(list[3]));
    assert_eq!(nth_resource(&list, ResourceKind::Mem, 2), None);
    assert_eq!(first_mem_resource(&list), Some((0x1000, 0x1000)));
    assert_eq!(first_irq(&list), Some(33));
    assert_eq!(first_irq(&list[1..]), None);
    assert_eq!(register_region(&list), Ok((0x1000, 0x1000)));
    assert_eq!(register_region(&list[2..]), Err(RegionError::Invalid));
    assert_eq!(register_region(&list[..1]), Err(RegionError::Missing));
    assert_eq!(resource(ResourceKind::Mem, 0, usize::MAX).size(), None);
}

#[test]
fn properties_hold_cells() {
    let bytes = [0u8, 0, 0, 0x40, 0, 0, 0, 3];
    assert_eq!(first_cell(Some(&bytes)), Some(0x40));
    assert_eq!(first_cell(Some(&bytes[..3])), None);
    assert_eq!(iommu_spec(Some(&bytes)), Some((0x40, 3)));
    assert_eq!(iommu_spec(Some(&bytes[..7])), None);
    assert_eq!(node_phandle(None, Some(&bytes)), Some(0x40));
    assert_eq!(node_phandle(None, None), None);
}

#[test]
fn registry_keeps_its_entries() {
    let mut registry: Registry<u8> = Registry::new();
    assert_eq!(registry.register(10, 5), 0);
    assert_eq!(registry.register(11, 5), 1);
    assert_eq!(registry.get(0), Some(&10));
    assert_eq!(registry.get_by_phandle(5), Some(&10));
    assert_eq!(registry.index_of(5), Some(0));
    assert_eq!(registry.index_of(6), None);
}

#[test]
fn dma_channels_are_exclusive() {
    let mut admac = AppleAdmac::new(0x6000, 0x100, 2);
    assert_eq!(admac.dma_cells(), 1);
    assert!(matches!(admac.request_channel::<u8>(&[]), Err(DmaError::InvalidSpec)));
    assert!(matches!(admac.request_channel::<u8>(&[0, 1]), Err(DmaError::InvalidSpec)));
    assert!(matches!(admac.request_channel::<u8>(&[2]), Err(DmaError::ChannelNotFound)));
    let mut channel = admac.request_channel::<u8>(&[1]).ok().unwrap();
    assert!(matches!(admac.request_channel::<u8>(&[1]), Err(DmaError::ChannelBusy)));
    assert!(matches!(channel.start(), Err(DmaError::NotPrepared)));
    assert_eq!(
        channel.prepare_cyclic(9, Err(DmaError::InvalidConfig)),
        Err(DmaError::InvalidConfig)
    );
    assert_eq!(channel.prepare_cyclic(9, Ok(())), Ok(()));
    assert!(matches!(channel.start(), Err(DmaError::Unsupported)));
    assert!(!channel.is_running());
    admac.release_channel(channel);
    assert!(admac.request_channel::<u8>(&[1]).is_ok());
}

#[test]
fn dma_controller_properties_are_checked() {
    assert_eq!(apple_silicon::admac::probe_properties(None, Some(1), Some(1)), Err(AdmacProbeError::MissingPhandle));
    assert_eq!(apple_silicon::admac::probe_properties(Some(3), None, Some(1)), Err(AdmacProbeError::MissingChannels));
    assert_eq!(
        apple_silicon::admac::probe_properties(Some(3), Some(0), Some(1)),
        Err(AdmacProbeError::InvalidChannels)
    );
    assert_eq!(
        apple_silicon::admac::probe_properties(Some(3), Some(4), Some(2)),
        Err(AdmacProbeError::UnsupportedCells)
    );
    assert_eq!(apple_silicon::admac::probe_properties(Some(3), Some(4), Some(1)), Ok((3, 4)));
}

#[test]
fn audio_clocks_are_looked_up() {
    assert_eq!(clock_count(&["apple,t8103-nco"]), 6);
    assert_eq!(clock_count(&["apple,t6000-nco"]), 4);
    let provider: AppleNcoProvider<u8> = AppleNcoProvider::new(0x7000, 0x100, 2, Some(3));
    assert_eq!(provider.clock_cells(), 1);
    assert!(matches!(provider.get_clk(&[]), Err(ClkError::InvalidSpecifier)));
    assert!(matches!(provider.get_clk(&[2]), Err(ClkError::ClockNotFound)));
    assert_eq!(provider.get_clk(&[1]).ok().unwrap().index, 1);
    let clock = AppleNcoClock::new(0, Some(3u8));
    clock.disable();
    assert_eq!(clock.recalc_rate(900), 900);
    assert!(clock.is_enabled());
    assert!(matches!(clock.round_rate(48_000), Ok(48_000)));
    assert!(matches!(clock.set_rate(), Err(ClkError::Unsupported)));
    assert_eq!(clock.parent(), Some(3));
}

#[test]
fn reference_clock_of_the_audio_clocks() {
    assert_eq!(resolve_parent_clock(false, false, false), Ok(false));
    assert_eq!(resolve_parent_clock(true, false, false), Err(NcoProbeError::ResolveReference));
    assert_eq!(resolve_parent_clock(true, true, false), Err(NcoProbeError::EnableReference));
    assert_eq!(resolve_parent_clock(true, true, true), Ok(true));
    assert_eq!(apple_silicon::nco::probe_properties(None, Some(1)), Err(NcoProbeError::MissingPhandle));
    assert_eq!(apple_silicon::nco::probe_properties(Some(1), Some(2)), Err(NcoProbeError::UnsupportedCells));
    assert_eq!(apple_silicon::nco::probe_properties(Some(1), Some(1)), Ok(1));
}
