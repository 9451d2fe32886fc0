//! Pins, PHYs, audio and input devices.

use std::cell::RefCell;
use std::collections::{HashMap, VecDeque};
use std::rc::Rc;

use apple_silicon::atcphy::{
    get_atcphy, get_atcphy_by_phandle, register_atcphy, register_blocks, AppleAtcPhy,
    AppleAtcPhyLane, AppleAtcPhyProvider, AtcPhyError, AtcPhyMode, HardwareTunable, PhyError,
    PhyMode, PhyOrientation,
};
use apple_silicon::bus::{Bus, Mmio};
use apple_silicon::cd321x::{self, printable_ascii, AppleCd321x, Cd321xError};
use apple_silicon::i2c::{resolve_i2c_bus, BusLookupError, I2cBus, I2cError, I2cPort};
use apple_silicon::mca::{
    cluster_count, memory_window, resolve_clocks, resolve_dmas, AppleMca, McaError,
};
use apple_silicon::pinctrl::{
    parent_irq_lines, probe_memory, probe_properties, ApplePinctrl, GpioIrqTrigger, GpioPull,
    PinctrlError,
};
use apple_silicon::platform::{Resource, ResourceKind};
use apple_silicon::ports::clocks::{ClockPort, ClockSource, DmaPort, DmaSource};
use apple_silicon::ports::hid::{HidBus, HidHost, HidHostPort, HidPort, SpiError};
use apple_silicon::ports::irq::{IrqSink, SinkPort};
use apple_silicon::registry::Registry;
use apple_silicon::spi_hid::{
    accept_packet, build_packet, crc16_ccitt, gpio_specifier, hid_place, hid_usage_to_key,
    probe_devices, AppleSpiHidTransport, HidDescription, HidError, HidPlace, HidProbeError,
    InputEvent, KEY_A, KEY_B, KEY_LEFTSHIFT, STATUS_OK,
};
use apple_silicon::tas5770l::{self, read_sound_dai_cells, Tas5770l, Tas5770lError};

#[derive(Clone, Default)]
struct Regs(Rc<RefCell<HashMap<usize, u32>>>);

impl Regs {
    fn bus(&self) -> Bus<Regs> {
        Bus::new(self.clone())
    }
    fn get(&self, addr: usize) -> u32 {
        *self.0.borrow().get(&addr).unwrap_or(&0)
    }
    fn set(&self, addr: usize, value: u32) {
        self.0.borrow_mut().insert(addr, value);
    }
}

impl Mmio for Regs {
    fn read8(&mut self, _addr: usize) -> u8 {
        0
    }
    fn write8(&mut self, _addr: usize, _value: u8) {}
    fn read32(&mut self, addr: usize) -> u32 {
        self.get(addr)
    }
    fn write32(&mut self, addr: usize, value: u32) {
        self.set(addr, value);
    }
    fn read64(&mut self, _addr: usize) -> u64 {
        0
    }
    fn write64(&mut self, _addr: usize, _value: u64) {}
    fn udelay(&mut self, _us: u64) {}
    fn current_time(&mut self) -> u64 {
        0
    }
    fn barrier(&mut self) {}
    fn clean_cache(&mut self, _addr: usize, _len: usize) {}
    fn invalidate_cache(&mut self, _addr: usize, _len: usize) {}
    fn clean_invalidate_cache(&mut self, _addr: usize, _len: usize) {}
}

#[test]
fn pins_show_what_they_are_given() {
    let regs = Regs::default();
    let mut bus = regs.bus();
    let pins: ApplePinctrl<u8> = ApplePinctrl::new(0x1000, 40);
    pins.set_direction_output(&mut bus, 3, true);
    assert_eq!(regs.get(0x100c), 3);
    assert!(pins.get_value(&mut bus, 3));
    pins.set_value(&mut bus, 3, false);
    assert!(!pins.get_value(&mut bus, 3));
    pins.set_direction_input(&mut bus, 3);
    assert_eq!(regs.get(0x100c), 0x20e);
    pins.set_pull(&mut bus, 3, GpioPull::Up);
    assert_eq!(regs.get(0x100c) & 0x180, 0x180);
    pins.set_pull(&mut bus, 3, GpioPull::Off);
    assert_eq!(regs.get(0x100c) & 0x180, 0);
    pins.set_function(&mut bus, 3, 2);
    assert_eq!(regs.get(0x100c) & 0x260, 0x240);
    pins.set_direction_output(&mut bus, 40, true);
    assert_eq!(regs.get(0x1000 + 160), 0);
    assert!(!pins.get_value(&mut bus, 40));
}

struct Sink(Rc<RefCell<Vec<u8>>>);

impl IrqSink<u8> for Sink {
    fn handle(&mut self, handler: &u8) {
        self.0.borrow_mut().push(*handler);
    }
}

#[test]
fn only_registered_pins_are_called() {
    let regs = Regs::default();
    let mut bus = regs.bus();
    let mut pins: ApplePinctrl<u8> = ApplePinctrl::new(0x1000, 34);
    assert!(pins.request_irq(&mut bus, 33, GpioIrqTrigger::FallingEdge, 77));
    assert_eq!(regs.get(0x1000 + 132) & 0xe, 0xa);
    assert!(!pins.request_irq(&mut bus, 34, GpioIrqTrigger::FallingEdge, 78));
    let group = (regs.get(0x1000 + 132) >> 16) as usize & 7;
    regs.set(0x1800 + 0x40 * group + 4, 0b111);
    let called = Rc::new(RefCell::new(Vec::new()));
    let mut sink = SinkPort::new(Sink(called.clone()));
    pins.handle_interrupt(&mut bus, &mut sink);
    assert_eq!(*called.borrow(), vec![77]);
    pins.free_irq(&mut bus, 33);
    pins.handle_interrupt(&mut bus, &mut sink);
    assert_eq!(*called.borrow(), vec![77]);
    assert_eq!(pins.interrupt_id(), None);
    pins.add_parent_irq(190);
    assert_eq!(pins.interrupt_id(), Some(190));
}

#[test]
fn pin_controllers_are_checked() {
    let mem = Resource { kind: ResourceKind::Mem, start: 0x1000, end: 0x1fff };
    let bad = Resource { kind: ResourceKind::Mem, start: 0x1000, end: 0xfff };
    let irq = Resource { kind: ResourceKind::Irq, start: 190, end: 190 };
    assert_eq!(probe_memory(&[irq]), Err(PinctrlError::NoMemory));
    assert_eq!(probe_memory(&[bad]), Err(PinctrlError::InvalidMemory));
    assert_eq!(probe_memory(&[irq, mem]), Ok((0x1000, 0x1000)));
    assert_eq!(probe_properties(None, Some(1)), Err(PinctrlError::NoPins));
    assert_eq!(probe_properties(Some(4), None), Err(PinctrlError::NoPhandle));
    assert_eq!(probe_properties(Some(4), Some(1)), Ok((4, 1)));
    assert_eq!(parent_irq_lines(&[mem]), Err(PinctrlError::NoParentIrqs));
    assert_eq!(parent_irq_lines(&[irq, mem, irq]), Ok(vec![190, 190]));
}

fn phy() -> AppleAtcPhy {
    AppleAtcPhy::new(0x10_0000, None, None, 0x20_0000, 0x30_0000)
}

#[test]
fn tunables_are_parsed_and_applied() {
    let bytes = [0u8, 0, 0, 8, 0, 0, 0, 0xf0, 0, 0, 0, 0x50, 1];
    let list = HardwareTunable::parse_from_property(&bytes);
    assert_eq!(list, vec![HardwareTunable { offset: 8, mask: 0xf0, value: 0x50 }]);
    let regs = Regs::default();
    regs.set(0x10_0008, 0xff);
    list[0].apply(&mut regs.bus(), 0x10_0000);
    assert_eq!(regs.get(0x10_0008), 0x5f);
}

#[test]
fn reset_line_of_the_core_has_no_cells() {
    let regs = Regs::default();
    let mut phy = phy();
    assert_eq!(
        phy.assert_reset(&mut regs.bus(), &[0]),
        Err(AtcPhyError::InvalidResetSpecifier)
    );
    assert_eq!(
        phy.deassert_reset(&mut regs.bus(), &[0]),
        Err(AtcPhyError::InvalidResetSpecifier)
    );
    assert_eq!(phy.deassert_reset(&mut regs.bus(), &[]), Ok(()));
    let released = regs.get(0x30_001c);
    assert_ne!(released, 0);
    assert_eq!(phy.assert_reset(&mut regs.bus(), &[]), Ok(()));
    assert_ne!(regs.get(0x30_001c), released);
}

#[test]
fn pipehandler_takes_usb3() {
    for host in [false, true] {
        let regs = Regs::default();
        let mut phy = phy();
        regs.set(0x30_0010, 1);
        regs.set(0x30_000c, 0xabcd_ef65);
        regs.set(0x30_0000, 0xff);
        assert_eq!(phy.configure_pipehandler_usb3(&mut regs.bus(), host), Ok(()));
        assert!(phy.pipehandler_up);
        assert_eq!(regs.get(0x30_000c), (0xabcd_ef65 & !0x3f) | 8);
        assert_eq!(regs.get(0x30_0000), 0xfa);
        regs.set(0x30_000c, 0x77);
        assert_eq!(phy.configure_pipehandler_usb3(&mut regs.bus(), host), Ok(()));
        assert_eq!(regs.get(0x30_000c), 0x77);
    }
    let regs = Regs::default();
    let mut phy = phy();
    assert_eq!(
        phy.configure_pipehandler_usb3(&mut regs.bus(), true),
        Err(AtcPhyError::LockNotAcknowledged)
    );
    assert!(!phy.pipehandler_up);
}

#[test]
fn registered_phys_can_be_changed() {
    let mut registry = Registry::new();
    let id = register_atcphy(&mut registry, phy(), 9);
    registry.get_mut(id).unwrap().swap_lanes = true;
    assert!(get_atcphy_by_phandle(&registry, 9).unwrap().swap_lanes);
    assert!(registry.get_mut(id + 1).is_none());
}

#[test]
fn replies_of_registers_are_read() {
    assert_eq!(cd321x::register_of(&[2, 7, 8, 9], 2), Ok(vec![7, 8]));
    assert_eq!(cd321x::register_of(&[1, 7, 8], 2), Err(I2cError::BusError));
    assert_eq!(cd321x::register_of(&[2, 7], 2), Err(I2cError::BusError));
    assert_eq!(cd321x::register_of(&[], 0), Err(I2cError::BusError));
    assert_eq!(cd321x::register_of(&[255], usize::MAX), Err(I2cError::BusError));
    assert_eq!(tas5770l::register_of(&[5, 6]), Ok(5));
    assert_eq!(tas5770l::register_of(&[]), Err(I2cError::BusError));
}

#[test]
fn packets_are_checked() {
    let packet = build_packet(0x20, 1, 0, 3, 2, &[5, 6]);
    assert_eq!(accept_packet(&packet), Ok((vec![5, 6], true)));
    assert_eq!(accept_packet(&build_packet(0x20, 1, 0, 0, 0, &[])), Ok((vec![], false)));
    assert_eq!(accept_packet(&packet[..255]), Err(SpiError::BusError));
}

#[test]
fn power_domains_that_stay_asleep_are_reported() {
    let regs = Regs::default();
    assert_eq!(phy().core_power_on(&mut regs.bus()), Err(AtcPhyError::CorePowerTimeout));
    assert_eq!(
        phy().init_dp(&mut regs.bus(), AtcPhyMode::DisplayPort),
        Err(AtcPhyError::DisplayRegionsMissing)
    );
}

#[test]
fn lanes_are_found_and_know_their_mode() {
    let provider = AppleAtcPhyProvider::new();
    assert_eq!(provider.phy_cells(), 1);
    assert!(matches!(provider.get_phy(&[]), Err(PhyError::NotFound)));
    assert!(matches!(provider.get_phy(&[9]), Err(PhyError::NotFound)));
    let regs = Regs::default();
    let mut lane = AppleAtcPhyLane::new(3);
    let mut phy = phy();
    assert_eq!(lane.name(), "apple-atcphy-usb2");
    assert_eq!(lane.atc_mode(), Ok(AtcPhyMode::Usb3));
    assert_eq!(lane.set_mode(&mut phy, &mut regs.bus(), PhyMode::UsbHost), Ok(()));
    assert_eq!(lane.get_mode(), Some(PhyMode::UsbHost));
    lane.set_orientation(&mut phy, &mut regs.bus(), PhyOrientation::Reverse);
    assert_eq!(lane.get_orientation(), Some(PhyOrientation::Reverse));
    assert!(!phy.swap_lanes);
    let mut lane = AppleAtcPhyLane::new(4);
    assert_eq!(lane.name(), "apple-atcphy-usb3");
    lane.set_orientation(&mut phy, &mut regs.bus(), PhyOrientation::Reverse);
    assert!(phy.swap_lanes);
    lane.set_orientation(&mut phy, &mut regs.bus(), PhyOrientation::Normal);
    assert!(!phy.swap_lanes);
}

#[test]
fn lanes_are_powered_off() {
    let regs = Regs::default();
    let mut phy = phy();
    let lane = AppleAtcPhyLane::new(3);
    assert_eq!(lane.power_off(&mut phy, &mut regs.bus()), Ok(()));
    assert_eq!(regs.get(0x20_0000), 4);
    assert_eq!(regs.get(0x20_0004), 0xb);
    phy.pipehandler_up = true;
    let lane = AppleAtcPhyLane::new(4);
    assert_eq!(lane.power_off(&mut phy, &mut regs.bus()), Ok(()));
    assert!(!phy.pipehandler_up);
}

#[test]
fn phys_are_registered() {
    let mut registry = Registry::new();
    assert_eq!(register_atcphy(&mut registry, phy(), 5), 0);
    assert!(get_atcphy(&registry, 0).is_some());
    assert!(get_atcphy(&registry, 1).is_none());
    assert!(get_atcphy_by_phandle(&registry, 5).is_some());
    assert!(get_atcphy_by_phandle(&registry, 6).is_none());
}

#[test]
fn phy_needs_five_register_blocks() {
    let mut list: Vec<Resource> = (0..4)
        .map(|i| Resource { kind: ResourceKind::Mem, start: 0x1000 * i, end: 0x1000 * i + 0xf })
        .collect();
    assert_eq!(register_blocks(&list), Err(AtcPhyError::TooFewRegions));
    list.push(Resource { kind: ResourceKind::Irq, start: 1, end: 1 });
    list.push(Resource { kind: ResourceKind::Mem, start: 0x9000, end: 0x9fff });
    let blocks = register_blocks(&list).unwrap();
    assert_eq!(blocks[1], (0x1000, 0x10));
    assert_eq!(blocks[4], (0x9000, 0x1000));
}

struct Wire {
    registers: HashMap<u8, Vec<u8>>,
    written: Rc<RefCell<Vec<(u8, Vec<u8>)>>>,
}

impl I2cBus for Wire {
    fn write(&mut self, address: u8, data: &[u8]) -> Result<(), I2cError> {
        self.written.borrow_mut().push((address, data.to_vec()));
        Ok(())
    }
    fn write_read(&mut self, _address: u8, data: &[u8], len: usize) -> Result<Vec<u8>, I2cError> {
        match self.registers.get(&data[0]) {
            Some(bytes) => {
                let mut bytes = bytes.clone();
                bytes.resize(len, 0);
                Ok(bytes)
            }
            None => Err(I2cError::NoDevice),
        }
    }
    fn udelay(&mut self, _us: u64) {}
}

fn wire(entries: &[(u8, &[u8])]) -> Wire {
    Wire {
        registers: entries.iter().map(|(r, b)| (*r, b.to_vec())).collect(),
        written: Rc::new(RefCell::new(Vec::new())),
    }
}

#[test]
fn port_controller_is_read() {
    let bus = wire(&[
        (0x00, &[4, 0x51, 0x04, 0, 0]),
        (0x03, b"\x04APP "),
        (0x1a, &[8, 1, 2, 3, 4]),
        (0x3f, &[4, 5, 0, 0, 0]),
        (0x5f, &[4, 6, 0, 0, 0]),
    ]);
    let snapshot = AppleCd321x::new(0x38, 7).snapshot(&mut I2cPort::new(bus)).unwrap();
    assert_eq!(snapshot.vendor_id, 0x451);
    assert_eq!(&snapshot.mode, b"APP ");
    assert_eq!(snapshot.status, 0x0403_0201);
    assert_eq!((snapshot.power_status, snapshot.data_status), (5, 6));
    let short = wire(&[(0x00, &[3, 1, 2, 3])]);
    assert!(AppleCd321x::new(0x38, 7).snapshot(&mut I2cPort::new(short)).is_err());
    assert_eq!(printable_ascii(b'A'), 'A');
    assert_eq!(printable_ascii(7), '.');
}

#[test]
fn i2c_addresses_have_seven_bits() {
    assert_eq!(apple_silicon::cd321x::read_i2c_address(Some(0x38)), Ok(0x38));
    assert_eq!(
        apple_silicon::cd321x::read_i2c_address(Some(0x80)),
        Err(Cd321xError::UnsupportedAddress)
    );
    assert_eq!(
        apple_silicon::tas5770l::read_i2c_address(None),
        Err(Tas5770lError::MissingAddress)
    );
    assert_eq!(read_sound_dai_cells(Some(0)), Ok(0));
    assert_eq!(read_sound_dai_cells(Some(1)), Err(Tas5770lError::UnsupportedCells));
    assert_eq!(resolve_i2c_bus::<u8>(None, Some(1)), Err(BusLookupError::MissingParent));
    assert_eq!(resolve_i2c_bus::<u8>(Some(3), None), Err(BusLookupError::NotReady));
    assert_eq!(resolve_i2c_bus(Some(3), Some(1u8)), Ok((3, 1)));
}

#[test]
fn amplifier_registers_are_reached() {
    let bus = wire(&[(0x05, &[0x42])]);
    let written = bus.written.clone();
    let mut port = I2cPort::new(bus);
    let codec = Tas5770l::new(0x31, 9, false);
    assert_eq!(codec.write_register(&mut port, 5, 0x42), Ok(()));
    assert_eq!(*written.borrow(), vec![(0x31, vec![5, 0x42])]);
    assert_eq!(codec.read_register(&mut port, 5), Ok(0x42));
    assert_eq!(codec.read_register(&mut port, 6), Err(I2cError::NoDevice));
}

struct Clusters {
    fail_enable: usize,
    log: Rc<RefCell<Vec<String>>>,
}

impl ClockSource<usize> for Clusters {
    fn resolve(&mut self, index: usize) -> Result<usize, &'static str> {
        if index > 5 {
            return Err("no such clock");
        }
        Ok(index)
    }
    fn enable(&mut self, clock: &usize) -> bool {
        self.log.borrow_mut().push(format!("+{}", clock));
        *clock != self.fail_enable
    }
    fn disable(&mut self, clock: &usize) {
        self.log.borrow_mut().push(format!("-{}", clock));
    }
}

impl DmaSource<u32> for Clusters {
    fn resolve(&mut self, name: &str) -> Result<u32, &'static str> {
        if name == "gone" {
            Err("no channel")
        } else {
            Ok(name.len() as u32)
        }
    }
}

#[test]
fn audio_clusters_switch_their_clocks() {
    assert_eq!(cluster_count(&["apple,t6000-mca"]), 4);
    assert_eq!(cluster_count(&["apple,t8103-mca"]), 6);
    let log = Rc::new(RefCell::new(Vec::new()));
    let source = Clusters { fail_enable: 9, log: log.clone() };
    assert_eq!(resolve_clocks(&mut ClockPort::new(source), 2).unwrap(), vec![0, 1]);
    let source = Clusters { fail_enable: 1, log: log.clone() };
    log.borrow_mut().clear();
    let r = resolve_clocks(&mut ClockPort::new(source), 2);
    assert!(matches!(r, Err(McaError::EnableClock)));
    assert_eq!(*log.borrow(), vec!["+0", "+1", "-0"]);
    let source = Clusters { fail_enable: 9, log };
    let r = resolve_clocks(&mut ClockPort::new(source), 7);
    assert_eq!(r.err().unwrap().message(), "no such clock");
}

#[test]
fn audio_channels_are_found_by_name() {
    let source = || Clusters { fail_enable: 9, log: Rc::new(RefCell::new(Vec::new())) };
    let r = resolve_dmas(&mut DmaPort::new(source()), None);
    assert!(matches!(r, Err(McaError::MissingDmaNames)));
    let r = resolve_dmas(&mut DmaPort::new(source()), Some(None));
    assert!(matches!(r, Err(McaError::MalformedDmaNames)));
    let names = vec![String::from("tx0a"), String::from("rx0")];
    let dmas = resolve_dmas(&mut DmaPort::new(source()), Some(Some(&names))).unwrap();
    assert_eq!(dmas, vec![(String::from("tx0a"), 4), (String::from("rx0"), 3)]);
    let names = vec![String::from("tx0a"), String::from("gone")];
    let r = resolve_dmas(&mut DmaPort::new(source()), Some(Some(&names)));
    assert!(matches!(r, Err(McaError::Lookup("no channel"))));
    let mca: AppleMca<u8, u32> = AppleMca::new(1, 2, 3, 4, vec![], dmas);
    assert_eq!((mca.base, mca.size, mca.switch_base, mca.switch_size), (1, 2, 3, 4));
    let mem = Resource { kind: ResourceKind::Mem, start: 0x1000, end: 0x1fff };
    assert_eq!(memory_window(&[mem], 0).unwrap(), (0x1000, 0x1000));
    assert!(matches!(memory_window(&[mem], 1), Err(McaError::MissingMemory)));
}

#[derive(Default)]
struct SpiState {
    reads: VecDeque<Vec<u8>>,
    writes: Vec<Vec<u8>>,
    pins: Vec<(u32, bool)>,
}

#[derive(Clone, Default)]
struct Spi(Rc<RefCell<SpiState>>);

impl HidBus for Spi {
    fn write(&mut self, _cs: u8, data: &[u8]) -> Result<(), SpiError> {
        self.0.borrow_mut().writes.push(data.to_vec());
        Ok(())
    }
    fn read(&mut self, _cs: u8, _len: usize) -> Result<Vec<u8>, SpiError> {
        self.0.borrow_mut().reads.pop_front().ok_or(SpiError::Timeout)
    }
    fn udelay(&mut self, _us: u64) {}
    fn set_direction_output(&mut self, pin: u32, value: bool) {
        self.0.borrow_mut().pins.push((pin, value));
    }
    fn set_value(&mut self, pin: u32, value: bool) {
        self.0.borrow_mut().pins.push((pin, value));
    }
    fn set_direction_input(&mut self, pin: u32) {
        self.0.borrow_mut().pins.push((pin, false));
    }
}

#[test]
fn packets_carry_a_checksum() {
    assert_eq!(crc16_ccitt(b""), 0xffff);
    assert_eq!(crc16_ccitt(b"123456789"), 0x29b1);
    let packet = build_packet(0x40, 1, 2, 3, 4, &[9, 8, 7, 6]);
    assert_eq!(packet.len(), 256);
    assert_eq!(&packet[..12], &[0x40, 1, 2, 0, 3, 0, 4, 0, 9, 8, 7, 6]);
    let crc = crc16_ccitt(&packet[..254]);
    assert_eq!(packet[254..], crc.to_le_bytes());
}

#[test]
fn messages_travel_in_packets() {
    let spi = Spi::default();
    let mut port = HidPort::new(spi.clone());
    let hid = AppleSpiHidTransport::new(0, 1, None, None);
    let data: Vec<u8> = (0..500).map(|i| i as u8).collect();
    assert_eq!(hid.send_message(&mut port, 1, &data), Ok(()));
    let packets = spi.0.borrow().writes.clone();
    assert_eq!(packets.len(), 3);
    assert_eq!(packets[2][6], (500 - 2 * 246) as u8);
    spi.0.borrow_mut().reads = packets.into_iter().collect();
    assert_eq!(hid.recv_message(&mut port), Ok(data));
    assert_eq!(hid.recv_message(&mut port), Err(SpiError::Timeout));
    let mut broken = build_packet(0x20, 1, 0, 0, 1, &[5]);
    broken[9] ^= 1;
    spi.0.borrow_mut().reads.push_back(broken);
    assert_eq!(hid.recv_message(&mut port), Err(SpiError::BusError));
    spi.0.borrow_mut().reads.push_back(build_packet(0x20, 1, 0, 0, 247, &[]));
    assert_eq!(hid.recv_message(&mut port), Err(SpiError::InvalidArg));
}

#[test]
fn reports_become_events() {
    let mut keyboard = AppleSpiHidTransport::new(0, 1, None, None);
    let events = keyboard.handle_input_report(&[0x02, 0, 0x04, 0, 0, 0, 0, 0]);
    assert_eq!(
        events,
        vec![
            InputEvent::Key { code: KEY_LEFTSHIFT, pressed: true },
            InputEvent::Key { code: KEY_A, pressed: true },
            InputEvent::Sync,
        ]
    );
    let events = keyboard.handle_input_report(&[0, 0, 0x05, 0, 0, 0, 0, 0]);
    assert_eq!(events.len(), 4);
    assert!(events.contains(&InputEvent::Key { code: KEY_LEFTSHIFT, pressed: false }));
    assert!(events.contains(&InputEvent::Key { code: KEY_A, pressed: false }));
    assert!(events.contains(&InputEvent::Key { code: KEY_B, pressed: true }));
    assert!(keyboard.handle_input_report(&[0; 7]).is_empty());
    let mut trackpad = AppleSpiHidTransport::new(0, 2, None, None);
    assert_eq!(
        trackpad.handle_input_report(&[1, 0xff, 2]),
        vec![
            InputEvent::Button { right: false, pressed: true },
            InputEvent::Motion { vertical: false, delta: -1 },
            InputEvent::Motion { vertical: true, delta: 2 },
            InputEvent::Sync,
        ]
    );
    assert_eq!(hid_usage_to_key(0x04), Some(KEY_A));
    assert_eq!(hid_usage_to_key(0xff), None);
}

#[test]
fn interrupts_read_one_report() {
    let spi = Spi::default();
    spi.0.borrow_mut().reads.push_back(build_packet(0x20, 2, 0, 0, 3, &[0, 1, 0]));
    let mut port = HidPort::new(spi);
    let mut trackpad = AppleSpiHidTransport::new(0, 2, None, None);
    assert_eq!(
        trackpad.handle_interrupt(&mut port),
        Ok(vec![InputEvent::Motion { vertical: false, delta: 1 }, InputEvent::Sync])
    );
    assert_eq!(trackpad.handle_interrupt(&mut port), Err(SpiError::Timeout));
}

struct Host {
    bus: bool,
    speed: bool,
    gpios: Vec<u32>,
    irqs: usize,
}

impl HidHost for Host {
    fn has_bus(&mut self, _phandle: u32) -> bool {
        self.bus
    }
    fn set_bus_speed(&mut self, _phandle: u32, _hz: u32) -> bool {
        self.speed
    }
    fn has_gpio(&mut self, phandle: u32) -> bool {
        self.gpios.contains(&phandle)
    }
    fn request_irq(&mut self, _phandle: u32, _pin: u32, _trackpad: bool) -> bool {
        if self.irqs == 0 {
            return false;
        }
        self.irqs -= 1;
        true
    }
}

fn description() -> HidDescription {
    HidDescription {
        place: HidPlace { cs: 0, max_freq: 8_000_000, bus_phandle: 3 },
        spien: Some((4, 195)),
        irq: Some((5, 13)),
    }
}

fn answers(status: u32) -> Spi {
    let spi = Spi::default();
    let words = status.to_le_bytes();
    for _ in 0..4 {
        spi.0.borrow_mut().reads.push_back(build_packet(0x20, 0, 0, 0, 4, &words));
    }
    spi
}

#[test]
fn input_devices_are_probed() {
    let spi = answers(STATUS_OK);
    let host = Host { bus: true, speed: true, gpios: vec![4, 5], irqs: 2 };
    let r = probe_devices(
        &mut HidHostPort::new(host),
        &mut HidPort::new(spi.clone()),
        &description(),
    );
    let (keyboard, trackpad) = r.ok().unwrap();
    assert_eq!((keyboard.device_id, trackpad.device_id), (1, 2));
    assert_eq!(keyboard.irq_pin, Some(13));
    assert_eq!(spi.0.borrow().pins[0], (195, true));
    let spi = answers(STATUS_OK + 1);
    let host = Host { bus: true, speed: true, gpios: vec![4, 5], irqs: 2 };
    let r = probe_devices(&mut HidHostPort::new(host), &mut HidPort::new(spi), &description());
    assert_eq!(r.err(), Some(HidProbeError::Transport(HidError::NotReady)));
    let spi = answers(STATUS_OK);
    let host = Host { bus: true, speed: true, gpios: vec![4, 5], irqs: 1 };
    let r = probe_devices(&mut HidHostPort::new(host), &mut HidPort::new(spi), &description());
    assert_eq!(r.err(), Some(HidProbeError::Deferred));
}

#[test]
fn input_devices_wait_for_what_they_need() {
    let probe = |host: Host| {
        let spi = Spi::default();
        let r = probe_devices(
            &mut HidHostPort::new(host),
            &mut HidPort::new(spi),
            &description(),
        );
        r.err().unwrap()
    };
    let host = |bus, speed, gpios: &[u32]| Host { bus, speed, gpios: gpios.to_vec(), irqs: 0 };
    assert_eq!(probe(host(false, true, &[4, 5])), HidProbeError::Deferred);
    assert_eq!(probe(host(true, false, &[4, 5])), HidProbeError::BusSpeed);
    assert_eq!(probe(host(true, true, &[5])), HidProbeError::Deferred);
    assert_eq!(probe(host(true, true, &[4])), HidProbeError::Deferred);
    let e = probe(host(true, true, &[4, 5]));
    assert_eq!(e, HidProbeError::Transport(HidError::BootResponse));
    assert_eq!(e.message(), "apple-spi-hid: boot response read failed");
}

#[test]
fn input_device_properties_are_read() {
    assert_eq!(hid_place(None, None, Some(3)), Err(HidProbeError::MissingChipSelect));
    assert_eq!(hid_place(Some(0), None, None), Err(HidProbeError::NoParent));
    assert_eq!(
        hid_place(Some(0), None, Some(3)),
        Ok(HidPlace { cs: 0, max_freq: 8_000_000, bus_phandle: 3 })
    );
    let bytes = [0u8, 0, 0, 4, 0, 0, 0, 195, 0, 0, 0, 0];
    assert_eq!(gpio_specifier(Some(&bytes), 12), Some((4, 195)));
    assert_eq!(gpio_specifier(Some(&bytes[..8]), 12), None);
    assert_eq!(gpio_specifier(None, 8), None);
}
