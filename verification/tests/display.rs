//! The display coprocessor and the internal panel.

use std::cell::RefCell;
use std::collections::HashMap;
use std::rc::Rc;

use apple_silicon::bus::{Bus, Mmio};
use apple_silicon::dart::{DartInstance, DartPageTable, DartParams};
use apple_silicon::dcp::{
    choose_color, choose_timing, firmware_is_v13, frame_delay_us, framebuffer_config,
    make_layer, plan_scanout, read_colors, read_status, read_timings, reply_payload,
    DcpColorMode, DcpDmaMapper, DcpError, DcpIboot, DcpTimingMode, DisplayRegion,
    FramebufferConfig, HandoffRegion, PixelFormat,
};
use apple_silicon::dcp_probe::{
    dcp_darts, dcp_places, left_tables, light_up, mailbox_phandle, service_channel, take_over,
    DcpPlaces, DcpProbeError, Translation,
};
use apple_silicon::platform::FrameSource;
use apple_silicon::ports::display::{BufferPort, BufferSource, IbootTransport};
use apple_silicon::registry::Registry;

/// Stands for a barrier in a list of events.
const BARRIER: u32 = 1000;

/// Stands for a pause in a list of events.
const PAUSE: u32 = 1001;

/// Memory, with a list of barriers and pauses.
#[derive(Clone, Default)]
struct Ram(Rc<RefCell<HashMap<usize, u8>>>, Rc<RefCell<Vec<u32>>>);

impl Ram {
    fn bus(&self) -> Bus<Ram> {
        Bus::new(self.clone())
    }
    fn poke(&self, addr: usize, value: u64, size: usize) {
        for i in 0..size {
            self.0.borrow_mut().insert(addr + i, (value >> (8 * i)) as u8);
        }
    }
    fn peek(&self, addr: usize, size: usize) -> u64 {
        let bytes = self.0.borrow();
        (0..size).map(|i| (*bytes.get(&(addr + i)).unwrap_or(&0) as u64) << (8 * i)).sum()
    }
}

impl Mmio for Ram {
    fn read8(&mut self, addr: usize) -> u8 {
        self.peek(addr, 1) as u8
    }
    fn write8(&mut self, addr: usize, value: u8) {
        self.poke(addr, value as u64, 1);
    }
    fn read32(&mut self, addr: usize) -> u32 {
        self.peek(addr, 4) as u32
    }
    fn write32(&mut self, addr: usize, value: u32) {
        self.poke(addr, value as u64, 4);
    }
    fn read64(&mut self, addr: usize) -> u64 {
        self.peek(addr, 8)
    }
    fn write64(&mut self, addr: usize, value: u64) {
        self.poke(addr, value, 8);
    }
    fn udelay(&mut self, _us: u64) {
        self.1.borrow_mut().push(PAUSE);
    }
    fn current_time(&mut self) -> u64 {
        0
    }
    fn barrier(&mut self) {
        self.1.borrow_mut().push(BARRIER);
    }
    fn clean_cache(&mut self, _addr: usize, _len: usize) {}
    fn invalidate_cache(&mut self, _addr: usize, _len: usize) {}
    fn clean_invalidate_cache(&mut self, _addr: usize, _len: usize) {}
}

struct Frames(u64, usize);

impl FrameSource for Frames {
    fn alloc_frame(&mut self) -> Option<u64> {
        if self.1 == 0 {
            return None;
        }
        self.1 -= 1;
        self.0 += 0x4000;
        Some(self.0)
    }
    fn phys_to_virt(&mut self, paddr: u64) -> usize {
        paddr as usize
    }
}

fn timing(valid: u32, width: u32, height: u32, fps: u32) -> DcpTimingMode {
    DcpTimingMode { valid, width, height, fps, pad: 0 }
}

fn color(valid: u32, colorimetry: u32, eotf: u32, bpp: u32) -> DcpColorMode {
    DcpColorMode { valid, colorimetry, eotf, encoding: 1, bpp, pad: 0 }
}

#[derive(Clone)]
struct Panel {
    connected: bool,
    timings: Vec<DcpTimingMode>,
    colors: Vec<DcpColorMode>,
    asked: Rc<RefCell<Vec<u32>>>,
    fail: Option<u32>,
    short: bool,
}

impl Panel {
    fn new() -> Panel {
        Panel {
            connected: true,
            timings: vec![timing(1, 64, 32, 0x3c_0000)],
            colors: vec![color(1, 1, 1, 30)],
            asked: Rc::new(RefCell::new(Vec::new())),
            fail: None,
            short: false,
        }
    }
}

impl IbootTransport for Panel {
    fn call_raw_by_channel(
        &mut self,
        channel: u32,
        subtype: u16,
        command: &[u8],
    ) -> Result<Vec<u8>, &'static str> {
        assert_eq!((channel, subtype), (9, 0xc0));
        let word = |at: usize| u32::from_le_bytes(command[at..at + 4].try_into().unwrap());
        assert_eq!(word(4) as usize, command.len());
        let operation = word(0);
        self.asked.borrow_mut().push(operation);
        if self.fail == Some(operation) {
            return Err("apple-epic: command returned non-zero retcode");
        }
        if self.short {
            return Ok(vec![0; 4]);
        }
        let mut data: Vec<u8> = Vec::new();
        match operation {
            3 => {
                data.extend_from_slice(&[self.connected as u8, 0, 0, 0]);
                data.extend_from_slice(&(self.timings.len() as u32).to_le_bytes());
                data.extend_from_slice(&(self.colors.len() as u32).to_le_bytes());
            }
            4 => {
                data.extend_from_slice(&(self.timings.len() as u32).to_le_bytes());
                for m in &self.timings {
                    for w in [m.valid, m.width, m.height, m.fps, 0, 0] {
                        data.extend_from_slice(&w.to_le_bytes());
                    }
                }
            }
            5 => {
                data.extend_from_slice(&(self.colors.len() as u32).to_le_bytes());
                for m in &self.colors {
                    for w in [m.valid, m.colorimetry, m.eotf, m.encoding, m.bpp, m.pad] {
                        data.extend_from_slice(&w.to_le_bytes());
                    }
                }
            }
            15 => data.extend_from_slice(&[1; 8]),
            _ => {}
        }
        let mut reply = vec![0u8; 4];
        reply.extend_from_slice(&(8 + data.len() as u32).to_le_bytes());
        reply.extend_from_slice(&data);
        Ok(reply)
    }
}

fn iboot(panel: Panel) -> DcpIboot<Panel> {
    DcpIboot::new(panel, 9, true)
}

#[test]
fn modes_survive_the_wire() {
    let bus = Ram::default().bus();
    let mut service = iboot(Panel::new());
    assert_eq!(service.timing_modes(&bus).ok().unwrap(), vec![timing(1, 64, 32, 0x3c_0000)]);
    assert_eq!(service.color_modes(&bus).ok().unwrap(), vec![color(1, 1, 1, 30)]);
    let status = service.display_status(&bus).ok().unwrap();
    assert!(status.connected);
    assert_eq!((status.timing_count, status.color_count), (1, 1));
}

#[test]
fn short_replies_are_refused_where_data_is_due() {
    let mut panel = Panel::new();
    panel.short = true;
    let bus = Ram::default().bus();
    let mut service = iboot(panel.clone());
    assert!(matches!(service.display_status(&bus), Err(DcpError::ShortReply)));
    assert!(service.set_power(&bus, true).is_ok());
    panel.short = false;
    panel.fail = Some(2);
    let e = iboot(panel).set_power(&bus, true).err().unwrap();
    assert!(matches!(e, DcpError::Transport("apple-epic: command returned non-zero retcode")));
    assert_eq!(e.message(), "apple-epic: command returned non-zero retcode");
}

#[test]
fn replies_are_taken_apart() {
    let reply = [1, 0, 0, 0, 11, 0, 0, 0, 7, 8, 9, 10];
    assert_eq!(reply_payload(2, &reply).ok(), Some(vec![7, 8, 9]));
    assert_eq!(reply_payload(2, &reply[..7]).ok(), Some(vec![]));
    assert!(matches!(reply_payload(3, &reply[..7]), Err(DcpError::ShortReply)));
    assert!(matches!(reply_payload(3, &[0; 8]), Err(DcpError::BadReplyLength)));
    let status = read_status(&[1, 0, 0, 0, 2, 0, 0, 0, 3, 0, 0, 0]).ok().unwrap();
    assert_eq!((status.connected, status.timing_count, status.color_count), (true, 2, 3));
    assert!(matches!(read_status(&[0; 11]), Err(DcpError::ShortStatus)));
    assert!(matches!(read_timings(&[0; 3]), Err(DcpError::MissingTimingCount)));
    assert!(matches!(read_colors(&[0; 3]), Err(DcpError::MissingColorCount)));
}

#[test]
fn best_modes_are_chosen() {
    let slow = timing(1, 100, 100, 0x3c_0000);
    let fast = timing(1, 200, 200, 0x78_0000);
    let dead = timing(0, 300, 300, 0x3c_0000);
    assert_eq!(choose_timing(&[dead, fast, slow]), Some(slow));
    assert_eq!(choose_timing(&[dead]), None);
    assert_eq!(choose_timing(&[timing(1, 0, 5, 1)]), None);
    assert_eq!(choose_color(&[color(0, 1, 1, 30)]), None);
    assert!(choose_color(&[color(1, 1, 1, 30), color(0, 1, 1, 24)]).is_some());
}

#[test]
fn surfaces_follow_the_timing() {
    let config = framebuffer_config(&timing(1, 64, 32, 0));
    assert_eq!((config.stride, config.format), (256, PixelFormat::BGRA8888));
    assert_eq!(framebuffer_config(&timing(1, u32::MAX, 1, 0)).stride, u32::MAX);
    assert_eq!(frame_delay_us(&timing(1, 64, 32, 0)), 17_667);
    assert_eq!(frame_delay_us(&timing(1, 64, 32, 0x3c_0000)), 17_667);
    assert_eq!(frame_delay_us(&timing(1, 64, 32, 0x78_0000)), 9_334);
    let layer = make_layer(&config, 0x4000_0000);
    assert_eq!((layer.addr, layer.width, layer.height), (0x4000_0000, 64, 32));
    assert!(layer.encode().len() > 16);
}

#[test]
fn scanout_buffers_are_planned_in_whole_pages() {
    let plan = plan_scanout(8192, 0x4000).ok().unwrap();
    assert_eq!(plan.allocation_size, 25 * 0x4000);
    assert_eq!((plan.render_pages, plan.scanout_pages), (2, 100));
    assert_eq!(plan.first_dva, 0x4000_0000);
    assert_eq!(plan.second_dva, 0x4000_0000 + 25 * 0x4000);
    assert!(matches!(plan_scanout(u64::MAX, 0x4000), Err(DcpError::ScanoutOverflow)));
}

#[test]
fn firmware_versions_are_compared() {
    assert!(firmware_is_v13(None));
    assert!(firmware_is_v13(Some(b"13.5")));
    assert!(!firmware_is_v13(Some(b"12.3")));
    assert!(firmware_is_v13(Some(b"x.1")));
}

fn unit(base_addr: usize) -> DartInstance {
    DartInstance {
        base_addr,
        params: DartParams { page_shift: 14, supports_bypass: false, num_streams: 16 },
    }
}

fn translation(ram: &Ram, base: usize, root: u64) -> Translation {
    let mut frames = Frames(root - 0x4000, 1);
    let table = DartPageTable::new(&mut ram.bus(), &mut frames).ok().unwrap();
    Translation { dart: unit(base), stream: 4, table, levels: 3 }
}

#[test]
fn dynamic_memory_is_mapped_behind_one_another() {
    let ram = Ram::default();
    let mut frames = Frames(0x8000_0000, 8);
    let table = DartPageTable::new(&mut ram.bus(), &mut frames).ok().unwrap();
    let mut mapper = DcpDmaMapper::new(table, unit(0x1000), 2, 3, 0x4000);
    assert_eq!(mapper.alignment(), 0x4000);
    let first = mapper.map(&mut ram.bus(), &mut frames, 0x1_0000, 0x4001);
    assert_eq!(first, Ok(0x3000_0000));
    let second = mapper.map(&mut ram.bus(), &mut frames, 0x2_0000, 0x4000);
    assert_eq!(second, Ok(0x3000_8000));
    mapper.unmap(&mut ram.bus(), &mut frames, 0x3000_0000, 0x4001);
}

#[test]
fn places_are_described_completely() {
    let r = dcp_places(None, Some((1, 2)), Some((3, 4, 5)));
    assert!(matches!(r, Err(DcpProbeError::MissingPhandle)));
    let r = dcp_places(Some(9), None, Some((3, 4, 5)));
    assert!(matches!(r, Err(DcpProbeError::MissingIommu)));
    let r = dcp_places(Some(9), Some((1, 2)), None);
    assert!(matches!(r, Err(DcpProbeError::MissingDisplayIommu)));
    let places = dcp_places(Some(9), Some((1, 2)), Some((3, 4, 5))).ok().unwrap();
    assert_eq!(
        places,
        DcpPlaces {
            dcp_phandle: 9,
            dcp_dart: 1,
            dcp_stream: 2,
            display_phandle: 5,
            display_dart: 3,
            display_stream: 4,
        }
    );
    let mut darts = Registry::new();
    let e = dcp_darts(&darts, &places).err().unwrap();
    assert!(matches!(e, DcpProbeError::DcpDartNotReady) && e.is_deferred());
    darts.register(unit(0x1000), 1);
    let e = dcp_darts(&darts, &places).err().unwrap();
    assert!(matches!(e, DcpProbeError::DisplayDartNotReady) && e.is_deferred());
    darts.register(unit(0x2000), 3);
    assert_eq!(dcp_darts(&darts, &places).ok().unwrap(), (unit(0x1000), unit(0x2000)));
}

#[test]
fn tables_mailbox_and_service_are_found() {
    assert!(matches!(left_tables(None, Some(1)), Err(DcpProbeError::NoDcpTable)));
    assert!(matches!(left_tables(Some(1), None), Err(DcpProbeError::NoDisplayTable)));
    assert_eq!(left_tables(Some(1), Some(2)).ok(), Some((1, 2)));
    let cell = [0u8, 0, 0, 7];
    assert_eq!(mailbox_phandle(None, Some(&cell)).ok(), Some(7));
    assert_eq!(mailbox_phandle(Some(&cell), None).ok(), Some(7));
    let e = mailbox_phandle(None, None).err().unwrap();
    assert_eq!(e.message(), "apple-dcp: missing ASC mailbox");
    assert_eq!(service_channel(Some(1), Some(2)).ok(), Some(1));
    assert_eq!(service_channel(None, Some(2)).ok(), Some(2));
    assert!(matches!(service_channel(None, None), Err(DcpProbeError::NoService)));
}

#[test]
fn page_tables_are_taken_over() {
    let ram = Ram::default();
    let mut frames = Frames(0x9000_0000, 8);
    let mut dcp = translation(&ram, 0x1000, 0x8000_0000);
    let mut display = translation(&ram, 0x2000, 0x8100_0000);
    let region = HandoffRegion { iova: 0x4000, paddr: 0x8000, size: 0x4000 };
    let r = take_over(
        &mut ram.bus(),
        &mut frames,
        &mut dcp,
        &mut display,
        &vec![],
        &vec![region],
    );
    assert!(matches!(r, Err(DcpError::NoHandoff)));
    assert_eq!(ram.peek(0x1210, 4), 0);
    let r = take_over(
        &mut ram.bus(),
        &mut frames,
        &mut dcp,
        &mut display,
        &vec![region],
        &vec![],
    );
    assert_eq!(r.ok(), Some((1, 0)));
    assert_eq!(ram.peek(0x1210, 4), 0x8008_0000);
    assert_eq!(ram.peek(0x2110, 4), 0x82);
}

struct Buffers(usize, usize);

impl BufferSource for Buffers {
    fn contiguous(&mut self, pages: u64, align: u64) -> Option<(usize, u64)> {
        if self.1 == 0 {
            return None;
        }
        self.1 -= 1;
        let at = (self.0 + align as usize - 1) / align as usize * align as usize;
        self.0 = at + pages as usize * 4096;
        Some((at, at as u64))
    }
}

#[test]
fn panel_lights_up_and_presents() {
    let ram = Ram::default();
    let mut frames = Frames(0x9000_0000, 16);
    let mut dcp = translation(&ram, 0x1000, 0x8000_0000);
    let mut display = translation(&ram, 0x2000, 0x8100_0000);
    let panel = Panel::new();
    let asked = panel.asked.clone();
    let mut service = iboot(panel);
    let mut graphics = light_up(
        &mut ram.bus(),
        &mut frames,
        &mut BufferPort::new(Buffers(0x4000_0000, 3)),
        &mut service,
        &mut dcp,
        &mut display,
        0x4000,
    )
    .ok()
    .unwrap();
    assert_eq!(*asked.borrow(), vec![2, 3, 4, 5, 6, 1]);
    assert_eq!(graphics.config.width, 64);
    assert_eq!(graphics.scanout1.dva, 0x4000_0000 + 25 * 0x4000);
    assert_eq!(graphics.scanout_buffer_count(), 2);
    let (config, _) = graphics.get_scanout_buffer_info(0).ok().unwrap();
    assert_eq!(config, graphics.config);
    assert!(matches!(graphics.get_scanout_buffer_info(2), Err(DcpError::BadScanoutIndex)));

    ram.poke(graphics.render_virt + 256 + 8, 0x1234_5678, 4);
    let region = DisplayRegion { x: 2, y: 1, width: 100, height: 100 };
    assert_eq!(
        graphics.clipped_region(&region),
        DisplayRegion { x: 2, y: 1, width: 62, height: 31 }
    );
    let config = graphics.config;
    let paddr = graphics.render_paddr;
    let r = graphics.present_framebuffer_region(
        &mut ram.bus(),
        &mut service,
        &config,
        paddr,
        &region,
    );
    assert!(r.is_ok());
    assert_eq!(ram.peek(graphics.scanout0.virt + 256 + 8, 4), 0x1234_5678);
    assert_eq!(ram.peek(graphics.scanout1.virt + 256 + 8, 4), 0x1234_5678);
    assert!(graphics.second_in_front);
    let other = FramebufferConfig { width: 1, ..config };
    let r = graphics.present_framebuffer_region(
        &mut ram.bus(),
        &mut service,
        &other,
        paddr,
        &region,
    );
    assert!(matches!(r, Err(DcpError::SurfaceMismatch)));
    let r = graphics.present_scanout_buffer(&mut ram.bus(), &mut service, 1);
    assert!(matches!(r, Err(DcpError::AlreadyFront)));
    assert!(graphics.present_scanout_buffer(&mut ram.bus(), &mut service, 0).is_ok());
    assert!(!graphics.second_in_front);
}

#[test]
fn calls_and_accesses_keep_their_order() {
    let ram = Ram::default();
    let mut frames = Frames(0x9000_0000, 16);
    let mut dcp = translation(&ram, 0x1000, 0x8000_0000);
    let mut display = translation(&ram, 0x2000, 0x8100_0000);
    let mut panel = Panel::new();
    panel.asked = ram.1.clone();
    let mut service = iboot(panel);
    let mut graphics = light_up(
        &mut ram.bus(),
        &mut frames,
        &mut BufferPort::new(Buffers(0x4000_0000, 3)),
        &mut service,
        &mut dcp,
        &mut display,
        0x4000,
    )
    .ok()
    .unwrap();
    assert_eq!(ram.1.borrow()[ram.1.borrow().len() - 2..], [BARRIER, 1]);
    ram.1.borrow_mut().clear();
    let config = graphics.config;
    let paddr = graphics.render_paddr;
    let region = DisplayRegion { x: 0, y: 0, width: 1, height: 1 };
    let r = graphics.present_framebuffer_region(
        &mut ram.bus(),
        &mut service,
        &config,
        paddr,
        &region,
    );
    assert!(r.is_ok());
    assert_eq!(*ram.1.borrow(), vec![BARRIER, 15, 16, 18, PAUSE]);
    ram.1.borrow_mut().clear();
    assert!(graphics.present_scanout_buffer(&mut ram.bus(), &mut service, 0).is_ok());
    assert_eq!(*ram.1.borrow(), vec![BARRIER, 15, 16, 18]);
}

fn lit(panel: Panel, buffers: usize, frames: usize) -> DcpProbeError {
    let ram = Ram::default();
    let mut dcp = translation(&ram, 0x1000, 0x8000_0000);
    let mut display = translation(&ram, 0x2000, 0x8100_0000);
    light_up(
        &mut ram.bus(),
        &mut Frames(0x9000_0000, frames),
        &mut BufferPort::new(Buffers(0x4000_0000, buffers)),
        &mut iboot(panel),
        &mut dcp,
        &mut display,
        0x4000,
    )
    .err()
    .unwrap()
}

#[test]
fn panels_that_stay_dark_are_explained() {
    let mut away = Panel::new();
    away.connected = false;
    assert_eq!(
        lit(away, 3, 16).message(),
        "apple-dcp: internal panel is not connected"
    );
    let mut blank = Panel::new();
    blank.timings = vec![timing(0, 1, 1, 1)];
    assert_eq!(lit(blank, 3, 16).message(), "apple-dcp: no usable timing mode");
    let mut grey = Panel::new();
    grey.colors = vec![color(0, 1, 1, 30)];
    assert_eq!(lit(grey, 3, 16).message(), "apple-dcp: no usable color mode");
    assert!(matches!(lit(Panel::new(), 0, 16), DcpProbeError::RenderAllocation));
    assert!(matches!(lit(Panel::new(), 1, 16), DcpProbeError::FirstScanoutAllocation));
    assert!(matches!(lit(Panel::new(), 2, 16), DcpProbeError::SecondScanoutAllocation));
    assert!(matches!(
        lit(Panel::new(), 3, 0),
        DcpProbeError::Display(DcpError::Table(_))
    ));
}
