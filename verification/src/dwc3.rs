//! USB controller.

use crate::atcphy::{get_atcphy_by_phandle, AppleAtcPhy};
use crate::bus::{append_assoc, rd, replace_bits, set_bits, wr, Bus, Mmio, Op};
use crate::bytes::{from_be32, read_be_u32};
use crate::platform::FrameSource;
use crate::registry::{first_with_phandle, Registry};
use crate::text::same_text;
use vstd::prelude::*;

verus! {

pub const DWC3_GSBUSCFG0: usize = 0xc100;

pub const DWC3_GCTL: usize = 0xc110;

pub const DWC3_GSNPSID: usize = 0xc120;

pub const DWC3_GUSB2PHYCFG: usize = 0xc200;

pub const DWC3_GUSB3PIPECTL: usize = 0xc2a0;

pub const DWC3_GUSB2PHYACC: usize = 0xc2c0;

pub const DWC3_GEVNTADRLO: usize = 0xc400;

pub const DWC3_GEVNTADRHI: usize = 0xc404;

pub const DWC3_GEVNTSIZ: usize = 0xc408;

pub const DWC3_GEVNTCOUNT: usize = 0xc40c;

pub const DWC3_GHWPARAMS1: usize = 0xc440;

pub const DWC3_APPLE_CTRL0: usize = 0xc800;

pub const DWC3_APPLE_CTRL1: usize = 0xc804;

pub const DWC3_APPLE_CIO_LFPS: usize = 0xcd38;

pub const DWC3_APPLE_CIO_BW_NGT: usize = 0xcd3c;

pub const DWC3_APPLE_CIO_LINK_TIMER: usize = 0xcd40;

/// Pipe reset disable, U2 exit on LFPS and forced PLL.
pub const APPLE_CTRL0_INIT: u32 = 0x16;

pub const APPLE_CTRL1_UTMI_REDUCE: u32 = 2;

/// Scale-down and port capability fields.
pub const GCTL_FIELDS: u32 = 0x6000_3000;

/// Host mode, with clock gating disabled.
pub const GCTL_HOST: u32 = 0x1001;

/// All burst lengths.
pub const GSBUSCFG0_BURSTS: u32 = 0xfc;

pub const GUSB2PHYCFG_SUSPHY: u32 = 0x40;

pub const GUSB3PIPECTL_SUSPHY: u32 = 0x2_0000;

/// Synopsys DWC3 core register access.
pub struct Dwc3Core {
    pub base_addr: usize,
}

/// The revision that the identification register encodes.
pub open spec fn revision_of(snpsid: u32) -> (u32, u32) {
    let id = snpsid & 0xffff_f000;
    ((id >> 12) & 0xf, (id >> 4) & 0xff)
}

/// The hardware parameters announce USB 3.
pub open spec fn announces_usb3(params: u32) -> bool {
    (params & 0x7000_0000) >> 28 >= 3
}

impl Dwc3Core {
    /// The register block lies in the address space.
    pub open spec fn wf(&self) -> bool {
        self.base_addr + 0x10000 <= usize::MAX
    }

    /// Create a DWC3 core wrapper for an MMIO base address.
    pub fn new(base_addr: usize) -> (r: Self)
        ensures
            r.base_addr == base_addr,
    {
        Dwc3Core { base_addr }
    }

    /// Read a 32-bit DWC3 register.
    pub fn read32<M: Mmio>(&self, bus: &mut Bus<M>, offset: usize) -> (r: u32)
        requires
            self.base_addr + offset <= usize::MAX,
        ensures
            final(bus).ops() == old(bus).ops().push(rd(self.base_addr, offset as int, r)),
    {
        bus.read32(self.base_addr + offset)
    }

    /// Write a 32-bit DWC3 register.
    pub fn write32<M: Mmio>(&self, bus: &mut Bus<M>, offset: usize, val: u32)
        requires
            self.base_addr + offset <= usize::MAX,
        ensures
            final(bus).ops() == old(bus).ops().push(wr(self.base_addr, offset as int, val)),
    {
        bus.write32(self.base_addr + offset, val);
    }

    /// Read the DWC3 Synopsys revision as major and minor number.
    pub fn read_revision<M: Mmio>(&self, bus: &mut Bus<M>) -> (r: (u32, u32))
        requires
            self.wf(),
        ensures
            exists|snpsid: u32|
                final(bus).ops() == old(bus).ops().push(
                    #[trigger] rd(self.base_addr, 0xc120, snpsid),
                ) && r == revision_of(snpsid),
    {
        let raw: u32 = self.read32(bus, DWC3_GSNPSID);
        assert(bus.ops() == old(bus).ops().push(rd(self.base_addr, 0xc120, raw)));
        let snpsid: u32 = raw & 0xffff_f000;
        let major: u32 = (snpsid >> 12) & 0xf;
        let minor: u32 = (snpsid >> 4) & 0xff;
        (major, minor)
    }

    /// Check whether the DWC3 core advertises USB3 capability.
    pub fn is_usb3<M: Mmio>(&self, bus: &mut Bus<M>) -> (r: bool)
        requires
            self.wf(),
        ensures
            exists|params: u32|
                final(bus).ops() == old(bus).ops().push(
                    #[trigger] rd(self.base_addr, 0xc440, params),
                ) && r == announces_usb3(params),
    {
        let params: u32 = self.read32(bus, DWC3_GHWPARAMS1);
        assert(bus.ops() == old(bus).ops().push(rd(self.base_addr, 0xc440, params)));
        (params & 0x7000_0000) >> 28 >= 3
    }
}

/// Why the controller could not be brought up.
#[derive(Clone, Copy, Debug, PartialEq, Eq, Structural)]
pub enum Dwc3Error {
    NoEventBuffer,
}

impl Dwc3Error {
    /// The message for the kernel log.
    pub fn message(self) -> (r: &'static str)
        ensures
            r@ == "dwc3: failed to alloc event buffer"@,
    {
        "dwc3: failed to alloc event buffer"
    }
}

/// Apple-integrated DWC3 controller state.
pub struct AppleDwc3 {
    pub core: Dwc3Core,
    pub dr_mode: String,
}

/// Identification of the core.
pub open spec fn identify_ops(base: usize, snpsid: u32, params: u32) -> Seq<Op> {
    seq![rd(base, 0xc120, snpsid), rd(base, 0xc440, params)]
}

/// Controller setup: Apple control bits, host mode, bursts and link timers.
pub open spec fn controller_ops(base: usize) -> Seq<Op> {
    seq![
        set_bits(base, 0xc800, 0x16),
        set_bits(base, 0xc804, 2),
        replace_bits(base, 0xc110, 0x6000_3000, 0x1001),
        set_bits(base, 0xc100, 0xfc),
        wr(base, 0xcd38, 0x0f80_0f80),
        wr(base, 0xcd3c, 0x0fc0_0fc0),
        wr(base, 0xcd40, 0x14_0a10),
    ]
}

/// PHY setup.
pub open spec fn phy_ops(base: usize) -> Seq<Op> {
    seq![
        set_bits(base, 0xc2c0, 0xff00),
        set_bits(base, 0xc2a0, 0),
        set_bits(base, 0xc200, 0x40),
        set_bits(base, 0xc2a0, 0x2_0000),
    ]
}

/// The event buffer is handed to the controller.
pub open spec fn event_ops(base: usize, frame: u64) -> Seq<Op> {
    seq![
        wr(base, 0xc400, frame as u32),
        wr(base, 0xc404, (frame >> 32) as u32),
        wr(base, 0xc408, 0x1000),
        wr(base, 0xc40c, 0),
    ]
}

/// An initialization that found the given values and got the given frame.
pub open spec fn initialized_with(
    base: usize,
    before: Seq<Op>,
    after: Seq<Op>,
    r: Result<(), Dwc3Error>,
    snpsid: u32,
    params: u32,
    frame: Option<u64>,
) -> bool {
    let setup = identify_ops(base, snpsid, params) + controller_ops(base) + phy_ops(base);
    let asked = setup.push(Op::Frame { frame });
    match frame {
        Some(paddr) => r is Ok && after == before + (asked + event_ops(base, paddr)),
        None => r == Err::<(), _>(Dwc3Error::NoEventBuffer) && after == before + asked,
    }
}

impl AppleDwc3 {
    /// Create an Apple DWC3 controller instance.
    pub fn new(base_addr: usize, dr_mode: &str) -> (r: Self)
        ensures
            r.core.base_addr == base_addr,
            r.dr_mode@ == dr_mode@,
    {
        AppleDwc3 { core: Dwc3Core::new(base_addr), dr_mode: dr_mode.to_owned() }
    }

    fn init_controller<M: Mmio>(&self, bus: &mut Bus<M>)
        requires
            self.core.wf(),
        ensures
            final(bus).ops() == old(bus).ops() + controller_ops(self.core.base_addr),
    {
        let ghost start = bus.ops();
        let base: usize = self.core.base_addr;
        bus.set32(base + DWC3_APPLE_CTRL0, APPLE_CTRL0_INIT);
        bus.set32(base + DWC3_APPLE_CTRL1, APPLE_CTRL1_UTMI_REDUCE);
        bus.mask32(base + DWC3_GCTL, GCTL_FIELDS, GCTL_HOST);
        bus.set32(base + DWC3_GSBUSCFG0, GSBUSCFG0_BURSTS);
        self.core.write32(bus, DWC3_APPLE_CIO_LFPS, 0x0f80_0f80);
        self.core.write32(bus, DWC3_APPLE_CIO_BW_NGT, 0x0fc0_0fc0);
        self.core.write32(bus, DWC3_APPLE_CIO_LINK_TIMER, 0x14_0a10);
        assert(bus.ops() =~= start + controller_ops(base));
    }

    fn init_phys<M: Mmio>(&self, bus: &mut Bus<M>)
        requires
            self.core.wf(),
        ensures
            final(bus).ops() == old(bus).ops() + phy_ops(self.core.base_addr),
    {
        let ghost start = bus.ops();
        let base: usize = self.core.base_addr;
        bus.set32(base + DWC3_GUSB2PHYACC, 0xff00);
        bus.set32(base + DWC3_GUSB3PIPECTL, 0);
        bus.set32(base + DWC3_GUSB2PHYCFG, GUSB2PHYCFG_SUSPHY);
        bus.set32(base + DWC3_GUSB3PIPECTL, GUSB3PIPECTL_SUSPHY);
        assert(bus.ops() =~= start + phy_ops(base));
    }

    /// Initialize Apple DWC3 controller registers and event resources.
    pub fn init<M: Mmio, F: FrameSource>(&mut self, bus: &mut Bus<M>, frames: &mut F) -> (r: Result<
        (),
        Dwc3Error,
    >)
        requires
            old(self).core.wf(),
        ensures
            *final(self) == *old(self),
            exists|snpsid: u32, params: u32, frame: Option<u64>| #[trigger]
                initialized_with(
                    old(self).core.base_addr,
                    old(bus).ops(),
                    final(bus).ops(),
                    r,
                    snpsid,
                    params,
                    frame,
                ),
    {
        let ghost start = bus.ops();
        let base: usize = self.core.base_addr;
        let _revision = self.core.read_revision(bus);
        let ghost snpsid = choose|snpsid: u32|
            bus.ops() == start.push(#[trigger] rd(base, 0xc120, snpsid)) && _revision
                == revision_of(snpsid);
        let ghost middle = bus.ops();
        let _usb3 = self.core.is_usb3(bus);
        let ghost params = choose|params: u32|
            bus.ops() == middle.push(#[trigger] rd(base, 0xc440, params)) && _usb3
                == announces_usb3(params);
        let ghost mut done = identify_ops(base, snpsid, params);
        assert(bus.ops() =~= start + done);
        self.init_controller(bus);
        proof {
            append_assoc(start, done, controller_ops(base));
            done = done + controller_ops(base);
        }
        self.init_phys(bus);
        proof {
            append_assoc(start, done, phy_ops(base));
            done = done + phy_ops(base);
        }
        let got = bus.alloc_frame(frames);
        proof {
            let asked = done.push(Op::Frame { frame: got });
            assert(bus.ops() =~= start + asked);
            done = asked;
        }
        let ghost setup = bus.ops();
        let frame: u64 = match got {
            Some(frame) => frame,
            None => {
                let r = Err(Dwc3Error::NoEventBuffer);
                assert(initialized_with(base, start, bus.ops(), r, snpsid, params, None));
                return r;
            },
        };
        self.core.write32(bus, DWC3_GEVNTADRLO, frame as u32);
        self.core.write32(bus, DWC3_GEVNTADRHI, (frame >> 32) as u32);
        self.core.write32(bus, DWC3_GEVNTSIZ, 0x1000);
        self.core.write32(bus, DWC3_GEVNTCOUNT, 0);
        proof {
            assert(bus.ops() =~= setup + event_ops(base, frame));
            append_assoc(start, done, event_ops(base, frame));
            assert(initialized_with(base, start, bus.ops(), Ok(()), snpsid, params, Some(frame)));
        }
        Ok(())
    }

    /// Whether the controller serves as a USB host.
    pub fn is_host(&self) -> (r: bool)
        ensures
            r == (self.dr_mode@ == "host"@ || self.dr_mode@ == "otg"@),
    {
        same_text(self.dr_mode.as_str(), "host") || same_text(self.dr_mode.as_str(), "otg")
    }
}

/// What to do without a bus clock.
#[derive(Clone, Copy, Debug, PartialEq, Eq, Structural)]
pub enum ClockDecision {
    /// Try again later.
    Defer,
    /// Go on without the clock.
    Continue,
    /// Give up with the error of the lookup.
    Fail,
}

/// What a failed lookup of the bus clock means: a provider that is not there
/// yet defers the probe, and a description without such a clock is accepted.
pub open spec fn clock_decision(deferred: bool, error: Seq<char>) -> ClockDecision {
    if deferred || error == "clk: provider not found"@ {
        ClockDecision::Defer
    } else if error == "clk: clock-names missing"@ || error == "clk: clocks missing"@ || error
        == "clk: clock name not found"@ {
        ClockDecision::Continue
    } else {
        ClockDecision::Fail
    }
}

pub fn bus_clock_decision(deferred: bool, error: &str) -> (r: ClockDecision)
    ensures
        r == clock_decision(deferred, error@),
{
    if deferred || same_text(error, "clk: provider not found") {
        ClockDecision::Defer
    } else if same_text(error, "clk: clock-names missing") || same_text(
        error,
        "clk: clocks missing",
    ) || same_text(error, "clk: clock name not found") {
        ClockDecision::Continue
    } else {
        ClockDecision::Fail
    }
}

/// The first PHY from entry `from` on that a `phys` property names and that
/// is not registered. Entries have eight bytes and begin with a phandle.
pub open spec fn missing_phy(entries: Seq<(u32, AppleAtcPhy)>, phys: Seq<u8>, from: int) -> Option<
    u32,
>
    decreases phys.len() - from,
{
    if from < 0 || from + 8 > phys.len() {
        None
    } else if first_with_phandle(entries, from_be32(phys, from) as u32, 0) is None {
        Some(from_be32(phys, from) as u32)
    } else {
        missing_phy(entries, phys, from + 8)
    }
}

/// The first PHY of a `phys` property that is not registered yet.
pub fn first_missing_phy(registry: &Registry<AppleAtcPhy>, phys: &[u8]) -> (r: Option<u32>)
    ensures
        r == missing_phy(registry@, phys@, 0),
{
    let mut offset: usize = 0;
    while phys.len() - offset >= 8
        invariant
            offset <= phys@.len(),
            missing_phy(registry@, phys@, 0) == missing_phy(registry@, phys@, offset as int),
        decreases phys@.len() - offset,
    {
        let phandle: u32 = match read_be_u32(phys, offset) {
            Some(phandle) => phandle,
            None => 0,
        };
        match get_atcphy_by_phandle(registry, phandle) {
            Some(_) => {},
            None => {
                return Some(phandle);
            },
        }
        offset = offset + 8;
    }
    None
}

} // verus!
