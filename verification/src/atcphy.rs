//! Apple Type-C PHY: power sequencing, lane crossbar and pipehandler.

use crate::bus::{
    append_assoc, clear_bits, rd, reg, registers_after, registers_append, registers_kept,
    replace_bits, set_bits, stores_to, wait, wr, Bus, Mmio, Op, Until,
};
use crate::bytes::{from_be32, read_be_u32};
use crate::platform::{nth_of, nth_resource, Resource, ResourceKind};
use crate::registry::{first_with_phandle, Registry};
use vstd::prelude::*;

verus! {

pub const ATCPHY_POWER_CTRL: usize = 0x20000;

pub const ATCPHY_POWER_STAT: usize = 0x20004;

pub const ATCPHY_MISC: usize = 0x20008;

pub const ATCPHY_POWER_SLEEP_SMALL: u32 = 0x1;

pub const ATCPHY_POWER_SLEEP_BIG: u32 = 0x2;

pub const ATCPHY_POWER_CLAMP_EN: u32 = 0x4;

pub const ATCPHY_POWER_APB_RESET_N: u32 = 0x8;

pub const ATCPHY_POWER_PHY_RESET_N: u32 = 0x10;

pub const ATCPHY_MISC_RESET_N: u32 = 0x1;

pub const ATCPHY_MISC_LANE_SWAP: u32 = 0x4;

pub const ACIOPHY_CFG0: usize = 0x08;

pub const ACIOPHY_CFG0_COMMON_BIG_OV: u32 = 0x2;

pub const ACIOPHY_CFG0_COMMON_SMALL_OV: u32 = 0x8;

pub const ACIOPHY_CFG0_COMMON_CLAMP_OV: u32 = 0x20;

pub const ACIOPHY_CFG0_RX_SMALL_OV: u32 = 0x300;

pub const ACIOPHY_CFG0_RX_BIG_OV: u32 = 0x3000;

pub const ACIOPHY_CFG0_RX_CLAMP_OV: u32 = 0x30000;

pub const ACIOPHY_SLEEP_CTRL: usize = 0x1b0;

pub const ACIOPHY_SLEEP_CTRL_TX_BIG_OV: u32 = 0xc;

pub const ACIOPHY_SLEEP_CTRL_TX_SMALL_OV: u32 = 0xc0;

pub const ACIOPHY_SLEEP_CTRL_TX_CLAMP_OV: u32 = 0xc00;

pub const ACIOPHY_LANE_MODE: usize = 0x48;

pub const ACIOPHY_CROSSBAR: usize = 0x4c;

pub const ACIOPHY_TOP_BIST_CIOPHY_CFG1: usize = 0x84;

pub const ACIOPHY_TOP_BIST_CIOPHY_CFG1_CLK_EN: u32 = 0x800_0000;

pub const ACIOPHY_TOP_BIST_CIOPHY_CFG1_BIST_EN: u32 = 0x1000_0000;

pub const ACIOPHY_TOP_BIST_OV_CFG: usize = 0x8c;

pub const ACIOPHY_TOP_BIST_OV_CFG_LN0_RESET_N_OV: u32 = 0x2000;

pub const ACIOPHY_TOP_BIST_OV_CFG_LN0_PWR_DOWN_OV: u32 = 0x200_0000;

pub const ACIOPHY_TOP_BIST_READ_CTRL: usize = 0x90;

pub const ACIOPHY_TOP_BIST_READ_CTRL_LN0_PHY_STATUS_RE: u32 = 0x4;

pub const ACIOPHY_TOP_PHY_STAT: usize = 0x9c;

pub const ACIOPHY_TOP_PHY_STAT_LN0_READY: u32 = 0x1;

pub const ACIOPHY_TOP_PHY_STAT_LN0_BUSY: u32 = 0x80_0000;

pub const ACIOPHY_TOP_BIST_PHY_CFG0: usize = 0xa8;

pub const ACIOPHY_TOP_BIST_PHY_CFG0_LN0_RESET_N: u32 = 0x1;

pub const ACIOPHY_TOP_BIST_PHY_CFG1: usize = 0xac;

pub const ACIOPHY_TOP_BIST_PHY_CFG1_LN0_PWR_DOWN_MASK: u32 = 0x3c00;

pub const ACIOPHY_TOP_BIST_PHY_CFG1_LN0_PWR_DOWN_ON: u32 = 0xc00;

pub const AUSPLL_FSM_CTRL: usize = 0x1014;

pub const AUSPLL_APB_CMD_OVERRIDE: usize = 0x2000;

pub const AUSPLL_APB_CMD_OVERRIDE_UNK28: u32 = 0x1000_0000;

pub const CIO3PLL_CLK_CTRL: usize = 0x2a00;

pub const CIO3PLL_CLK_PCLK_EN: u32 = 0x2;

pub const CIO3PLL_CLK_REFCLK_EN: u32 = 0x20;

/// Protocol and display PMA fields of the crossbar register.
pub const ACIOPHY_CROSSBAR_FIELDS: u32 = 0x3ffff;

/// USB 3 on lane 0 and DisplayPort on lane 1, single PMA.
pub const ACIOPHY_CROSSBAR_USB3_DP: u32 = 0x110;

/// The same with the lanes swapped.
pub const ACIOPHY_CROSSBAR_USB3_DP_SWAPPED: u32 = 0x111;

/// USB 3 receive and transmit on lane 0, DisplayPort on lane 1.
pub const ACIOPHY_LANES_NORMAL: u32 = 0x489;

/// DisplayPort on lane 0, USB 3 receive and transmit on lane 1.
pub const ACIOPHY_LANES_SWAPPED: u32 = 0x252;

pub const PHY_TYPE_USB2: u32 = 3;

pub const PHY_TYPE_USB3: u32 = 4;

pub const USB2PHY_USBCTL: usize = 0x00;

pub const USB2PHY_CTL: usize = 0x04;

pub const USB2PHY_SIG: usize = 0x08;

pub const USB2PHY_MISCTUNE: usize = 0x1c;

pub const USB2PHY_USBCTL_RUN: u32 = 0x2;

pub const USB2PHY_USBCTL_ISOLATION: u32 = 0x4;

pub const USB2PHY_CTL_RESET: u32 = 0x1;

pub const USB2PHY_CTL_PORT_RESET: u32 = 0x2;

pub const USB2PHY_CTL_APB_RESET_N: u32 = 0x4;

pub const USB2PHY_CTL_SIDDQ: u32 = 0x8;

/// VBUS detection and validity forced on.
pub const USB2PHY_SIG_VBUS_FORCED: u32 = 0xf;

pub const USB2PHY_SIG_HOST: u32 = 0x7000;

/// Every bit but the host field.
pub const USB2PHY_SIG_NOT_HOST: u32 = 0xffff_8fff;

pub const USB2PHY_MISCTUNE_APBCLK_GATE_OFF: u32 = 0x2000_0000;

pub const USB2PHY_MISCTUNE_REFCLK_GATE_OFF: u32 = 0x4000_0000;

pub const PIPEHANDLER_OVERRIDE: usize = 0x00;

pub const PIPEHANDLER_OVERRIDE_VALUES: usize = 0x04;

pub const PIPEHANDLER_MUX_CTRL: usize = 0x0c;

pub const PIPEHANDLER_LOCK_REQ: usize = 0x10;

pub const PIPEHANDLER_LOCK_ACK: usize = 0x14;

pub const PIPEHANDLER_AON_GEN: usize = 0x1c;

pub const PIPEHANDLER_NONSELECTED_OVERRIDE: usize = 0x20;

pub const PIPEHANDLER_OVERRIDE_RXVALID: u32 = 0x1;

pub const PIPEHANDLER_OVERRIDE_RXDETECT: u32 = 0x4;

/// Both receiver-detect override values.
pub const PIPEHANDLER_OVERRIDE_VAL_RXDETECT: u32 = 0x6;

pub const PIPEHANDLER_MUX_CTRL_DATA_MASK: u32 = 0x7;

pub const PIPEHANDLER_MUX_CTRL_CLK_MASK: u32 = 0x38;

pub const PIPEHANDLER_MUX_CTRL_CLK_USB3: u32 = 0x8;

pub const PIPEHANDLER_MUX_CTRL_CLK_DUMMY: u32 = 0x20;

pub const PIPEHANDLER_MUX_CTRL_CLK_DP: u32 = 0x20;

pub const PIPEHANDLER_MUX_CTRL_DATA_USB3: u32 = 0;

pub const PIPEHANDLER_MUX_CTRL_DATA_DUMMY: u32 = 2;

pub const PIPEHANDLER_MUX_CTRL_DATA_DP: u32 = 4;

pub const PIPEHANDLER_LOCK_EN: u32 = 0x1;

pub const PIPEHANDLER_AON_GEN_DWC3_FORCE_CLAMP_EN: u32 = 0x10;

pub const PIPEHANDLER_AON_GEN_DWC3_RESET_N: u32 = 0x1;

pub const PIPEHANDLER_NATIVE_RESET: u32 = 0x1000;

pub const PIPEHANDLER_NATIVE_POWER_DOWN_MASK: u32 = 0xf;

/// Why a power sequence of the PHY failed.
#[derive(Clone, Copy, Debug, PartialEq, Eq, Structural)]
pub enum AtcPhyError {
    /// A core power domain did not wake up.
    CorePowerTimeout,
    /// The big core power domain did not go to sleep.
    BigDomainAwake,
    /// The small core power domain did not go to sleep.
    SmallDomainAwake,
    /// The pipehandler lock was not granted.
    LockNotAcknowledged,
    /// The pipehandler lock was not released.
    UnlockNotAcknowledged,
    /// The display register blocks are not mapped.
    DisplayRegionsMissing,
    /// A reset specifier has cells.
    InvalidResetSpecifier,
    /// A register block is not described.
    TooFewRegions,
}

impl AtcPhyError {
    /// The message for the kernel log.
    pub fn message(self) -> (r: &'static str)
        ensures
            r@ == (match self {
                AtcPhyError::CorePowerTimeout => "apple-atcphy: core power domain timeout"@,
                AtcPhyError::BigDomainAwake => "apple-atcphy: failed to sleep big power domain"@,
                AtcPhyError::SmallDomainAwake => "apple-atcphy: failed to sleep small power domain"@,
                AtcPhyError::LockNotAcknowledged => "apple-atcphy: pipehandler lock not acknowledged"@,
                AtcPhyError::UnlockNotAcknowledged => "apple-atcphy: pipehandler unlock not acknowledged"@,
                AtcPhyError::DisplayRegionsMissing => "apple-atcphy: lpdptx/axi2af regions not mapped, cannot init DP"@,
                AtcPhyError::InvalidResetSpecifier => "apple-atcphy: invalid reset specifier"@,
                AtcPhyError::TooFewRegions => "apple-atcphy: expected at least 5 memory resources"@,
            }),
    {
        match self {
            AtcPhyError::CorePowerTimeout => "apple-atcphy: core power domain timeout",
            AtcPhyError::BigDomainAwake => "apple-atcphy: failed to sleep big power domain",
            AtcPhyError::SmallDomainAwake => "apple-atcphy: failed to sleep small power domain",
            AtcPhyError::LockNotAcknowledged => "apple-atcphy: pipehandler lock not acknowledged",
            AtcPhyError::UnlockNotAcknowledged => "apple-atcphy: pipehandler unlock not acknowledged",
            AtcPhyError::DisplayRegionsMissing => "apple-atcphy: lpdptx/axi2af regions not mapped, cannot init DP",
            AtcPhyError::InvalidResetSpecifier => "apple-atcphy: invalid reset specifier",
            AtcPhyError::TooFewRegions => "apple-atcphy: expected at least 5 memory resources",
        }
    }
}

/// One hardware tunable entry, applied to a register block. The bootloader
/// turns calibration data into these.
#[derive(Clone, Copy, Debug, PartialEq, Eq, Structural)]
pub struct HardwareTunable {
    /// Register offset from the target base.
    pub offset: u32,
    /// Bits controlled by this tunable.
    pub mask: u32,
    /// Value to put into the masked bits.
    pub value: u32,
}

/// The `i`th big-endian triplet of a property.
pub open spec fn tunable_at(bytes: Seq<u8>, i: int) -> HardwareTunable {
    HardwareTunable {
        offset: from_be32(bytes, 12 * i) as u32,
        mask: from_be32(bytes, 12 * i + 4) as u32,
        value: from_be32(bytes, 12 * i + 8) as u32,
    }
}

impl HardwareTunable {
    /// Parse a tunable array from device tree property bytes: as many whole
    /// triplets as there are.
    pub fn parse_from_property(prop_bytes: &[u8]) -> (r: Vec<Self>)
        ensures
            r@ == Seq::new(prop_bytes@.len() / 12, |i: int| tunable_at(prop_bytes@, i)),
    {
        let mut tunables: Vec<Self> = Vec::new();
        let total: usize = prop_bytes.len();
        let count: usize = total / 12;
        let mut i: usize = 0;
        while i < count
            invariant
                i <= count,
                count == total / 12,
                total == prop_bytes@.len(),
                tunables@ == Seq::new(i as nat, |k: int| tunable_at(prop_bytes@, k)),
            decreases count - i,
        {
            let at: usize = 12 * i;
            let offset: u32 = read_be_u32(prop_bytes, at).unwrap();
            let mask: u32 = read_be_u32(prop_bytes, at + 4).unwrap();
            let value: u32 = read_be_u32(prop_bytes, at + 8).unwrap();
            tunables.push(HardwareTunable { offset, mask, value });
            i = i + 1;
        }
        tunables
    }

    /// The operation a tunable stands for.
    pub open spec fn op(self, base: usize) -> Op {
        Op::Tune { addr: reg(base, self.offset as int), mask: self.mask, value: self.value }
    }

    /// Apply this tunable to the register at `base + offset`.
    pub fn apply<M: Mmio>(&self, bus: &mut Bus<M>, base: usize)
        requires
            base + self.offset <= usize::MAX,
        ensures
            final(bus).ops() == old(bus).ops().push(self.op(base)),
    {
        bus.tune32(base + self.offset as usize, self.mask, self.value);
    }
}

/// The operations of a tunable table.
pub open spec fn tune_ops(tunables: Seq<HardwareTunable>, base: usize) -> Seq<Op> {
    Seq::new(tunables.len(), |i: int| tunables[i].op(base))
}

/// Every entry of a table lies in the address space.
pub open spec fn tunables_fit(tunables: Seq<HardwareTunable>, base: usize) -> bool {
    forall|i: int| 0 <= i < tunables.len() ==> base + (#[trigger] tunables[i]).offset <= usize::MAX
}

/// Apply a slice of tunables, in order.
pub fn apply_tunables<M: Mmio>(bus: &mut Bus<M>, tunables: &Vec<HardwareTunable>, base: usize)
    requires
        tunables_fit(tunables@, base),
    ensures
        final(bus).ops() == old(bus).ops() + tune_ops(tunables@, base),
{
    let ghost start = bus.ops();
    let mut i: usize = 0;
    while i < tunables.len()
        invariant
            i <= tunables@.len(),
            tunables_fit(tunables@, base),
            bus.ops() == start + tune_ops(tunables@, base).take(i as int),
        decreases tunables@.len() - i,
    {
        tunables[i].apply(bus, base);
        assert(bus.ops() =~= start + tune_ops(tunables@, base).take(i + 1));
        i = i + 1;
    }
    assert(tune_ops(tunables@, base).take(tunables@.len() as int) =~= tune_ops(tunables@, base));
}

/// Supported Apple ATC PHY protocol modes.
#[derive(Clone, Copy, Debug, PartialEq, Eq, Structural)]
pub enum AtcPhyMode {
    /// USB 3.x SuperSpeed mode.
    Usb3,
    /// DisplayPort-only mode.
    DisplayPort,
    /// Combined USB 3.x and DisplayPort mode.
    Usb3Dp,
}

/// Mode requested of a PHY lane.
#[derive(Clone, Copy, Debug, PartialEq, Eq, Structural)]
pub enum PhyMode {
    UsbHost,
    UsbDevice,
    UsbOtg,
    DisplayPort,
    /// A mode private to the PHY.
    Other(u32),
    /// A mode of some other kind of PHY.
    Unsupported,
}

/// Orientation of the Type-C plug.
#[derive(Clone, Copy, Debug, PartialEq, Eq, Structural)]
pub enum PhyOrientation {
    Unplugged,
    Normal,
    Reverse,
}

/// Why a PHY request failed.
#[derive(Clone, Copy, Debug, PartialEq, Eq, Structural)]
pub enum PhyError {
    NotFound,
    InvalidMode,
    PowerOnFailed,
    PowerOffFailed,
    ResetFailed,
    HardwareError,
}

/// The tunable tables of a PHY.
pub struct AtcTunables {
    pub common_a: Vec<HardwareTunable>,
    pub common_b: Vec<HardwareTunable>,
    pub axi2af: Vec<HardwareTunable>,
    pub lane0_usb: Vec<HardwareTunable>,
    pub lane1_usb: Vec<HardwareTunable>,
    pub lane0_dp: Vec<HardwareTunable>,
    pub lane1_dp: Vec<HardwareTunable>,
}

impl AtcTunables {
    /// Empty tables.
    pub fn empty() -> (r: Self)
        ensures
            r.common_a@.len() == 0,
            r.common_b@.len() == 0,
            r.axi2af@.len() == 0,
            r.lane0_usb@.len() == 0,
            r.lane1_usb@.len() == 0,
            r.lane0_dp@.len() == 0,
            r.lane1_dp@.len() == 0,
    {
        AtcTunables {
            common_a: Vec::new(),
            common_b: Vec::new(),
            axi2af: Vec::new(),
            lane0_usb: Vec::new(),
            lane1_usb: Vec::new(),
            lane0_dp: Vec::new(),
            lane1_dp: Vec::new(),
        }
    }
}

/// Apple ATC PHY hardware instance: the mapped register blocks and the
/// tunables used to bring up the lanes.
pub struct AppleAtcPhy {
    pub core_base: usize,
    pub lpdptx_base: Option<usize>,
    pub axi2af_base: Option<usize>,
    pub usb2phy_base: usize,
    pub pipehandler_base: usize,
    pub tunables: AtcTunables,
    pub pipehandler_up: bool,
    pub swap_lanes: bool,
}

/// What the hardware answered while the pipehandler was switched to USB 3.
pub struct PipeOutcome {
    /// The lock acknowledge register on entry.
    pub ack: u32,
    /// A lock left over was released.
    pub released: bool,
    /// The lock request register before locking.
    pub req: u32,
    /// The lock was granted.
    pub locked: bool,
    /// Lane 0 went idle before the self test.
    pub idle_before: bool,
    /// Lane 0 became ready.
    pub ready: bool,
    /// Lane 0 went idle after the self test.
    pub idle_after: bool,
    /// The lock was released.
    pub unlocked: bool,
}

/// A lock acknowledge bit awaited.
pub open spec fn ack_poll(ph: usize, until: Until, hit: bool) -> Op {
    Op::Poll {
        addr: reg(ph, 0x14),
        mask: PIPEHANDLER_LOCK_EN,
        until,
        tries: 100,
        step_us: 10,
        hit,
    }
}

/// Release the pipehandler lock and wait for the acknowledge bit to clear.
pub open spec fn unlock_ops(ph: usize, hit: bool) -> Seq<Op> {
    seq![clear_bits(ph, 0x10, PIPEHANDLER_LOCK_EN), ack_poll(ph, Until::Clear, hit)]
}

/// Take the pipehandler lock unless it is already requested; a request that
/// is not granted is withdrawn.
pub open spec fn lock_ops(ph: usize, req: u32, hit: bool) -> Seq<Op> {
    if req & PIPEHANDLER_LOCK_EN != 0 {
        seq![rd(ph, 0x10, req)]
    } else if hit {
        seq![
            rd(ph, 0x10, req),
            set_bits(ph, 0x10, PIPEHANDLER_LOCK_EN),
            ack_poll(ph, Until::AnySet, true),
        ]
    } else {
        seq![
            rd(ph, 0x10, req),
            set_bits(ph, 0x10, PIPEHANDLER_LOCK_EN),
            ack_poll(ph, Until::AnySet, false),
            clear_bits(ph, 0x10, PIPEHANDLER_LOCK_EN),
        ]
    }
}

/// Release a lock left over from before.
pub open spec fn check_ops(ph: usize, ack: u32, hit: bool) -> Seq<Op> {
    if ack & PIPEHANDLER_LOCK_EN == 0 {
        seq![rd(ph, 0x14, ack)]
    } else {
        seq![rd(ph, 0x14, ack)] + unlock_ops(ph, hit)
    }
}

/// The lock is held once the request has been made.
pub open spec fn lock_ok(req: u32, hit: bool) -> bool {
    req & PIPEHANDLER_LOCK_EN != 0 || hit
}

/// No lock is left over.
pub open spec fn check_ok(ack: u32, hit: bool) -> bool {
    ack & PIPEHANDLER_LOCK_EN == 0 || hit
}

/// Switch the multiplexer: clock off, data source, clock source.
pub open spec fn mux_ops(ph: usize, data: u32, clk: u32) -> Seq<Op> {
    seq![
        replace_bits(ph, 0x0c, PIPEHANDLER_MUX_CTRL_CLK_MASK, 0),
        wait(10),
        replace_bits(ph, 0x0c, PIPEHANDLER_MUX_CTRL_DATA_MASK, data),
        wait(10),
        replace_bits(ph, 0x0c, PIPEHANDLER_MUX_CTRL_CLK_MASK, clk),
        wait(10),
    ]
}

/// Override the receiver signals while the source is switched.
pub open spec fn override_ops(ph: usize) -> Seq<Op> {
    seq![
        clear_bits(ph, 0x04, PIPEHANDLER_OVERRIDE_VAL_RXDETECT),
        set_bits(ph, 0x00, PIPEHANDLER_OVERRIDE_RXVALID),
        set_bits(ph, 0x00, PIPEHANDLER_OVERRIDE_RXDETECT),
    ]
}

/// A lane 0 status bit awaited.
pub open spec fn lane_poll(core: usize, mask: u32, until: Until, hit: bool) -> Op {
    Op::Poll { addr: reg(core, 0x9c), mask, until, tries: 1000, step_us: 10, hit }
}

/// The self test that brings lane 0 up under the pipehandler lock.
pub open spec fn bist_ops(core: usize, ph: usize, o: PipeOutcome) -> Seq<Op> {
    seq![
        set_bits(core, 0xa8, ACIOPHY_TOP_BIST_PHY_CFG0_LN0_RESET_N),
        set_bits(core, 0x8c, ACIOPHY_TOP_BIST_OV_CFG_LN0_RESET_N_OV),
        lane_poll(core, ACIOPHY_TOP_PHY_STAT_LN0_BUSY, Until::Clear, o.idle_before),
        set_bits(core, 0x90, ACIOPHY_TOP_BIST_READ_CTRL_LN0_PHY_STATUS_RE),
        clear_bits(core, 0x90, ACIOPHY_TOP_BIST_READ_CTRL_LN0_PHY_STATUS_RE),
        replace_bits(
            core,
            0xac,
            ACIOPHY_TOP_BIST_PHY_CFG1_LN0_PWR_DOWN_MASK,
            ACIOPHY_TOP_BIST_PHY_CFG1_LN0_PWR_DOWN_ON,
        ),
        set_bits(core, 0x8c, ACIOPHY_TOP_BIST_OV_CFG_LN0_PWR_DOWN_OV),
        set_bits(core, 0x84, ACIOPHY_TOP_BIST_CIOPHY_CFG1_CLK_EN),
        set_bits(core, 0x84, ACIOPHY_TOP_BIST_CIOPHY_CFG1_BIST_EN),
        wr(core, 0x84, 0),
        lane_poll(core, ACIOPHY_TOP_PHY_STAT_LN0_READY, Until::AnySet, o.ready),
        lane_poll(core, ACIOPHY_TOP_PHY_STAT_LN0_BUSY, Until::Clear, o.idle_after),
        replace_bits(ph, 0x20, PIPEHANDLER_NATIVE_POWER_DOWN_MASK, 3),
        clear_bits(ph, 0x20, PIPEHANDLER_NATIVE_RESET),
        wr(core, 0x8c, 0),
        set_bits(core, 0x84, ACIOPHY_TOP_BIST_CIOPHY_CFG1_CLK_EN),
        set_bits(core, 0x84, ACIOPHY_TOP_BIST_CIOPHY_CFG1_BIST_EN),
    ]
}

/// The multiplexer put on USB 3 and the receiver overrides lifted.
pub open spec fn usb3_mux_ops(ph: usize) -> Seq<Op> {
    mux_ops(ph, PIPEHANDLER_MUX_CTRL_DATA_USB3, PIPEHANDLER_MUX_CTRL_CLK_USB3) + seq![
        clear_bits(ph, 0x00, PIPEHANDLER_OVERRIDE_RXVALID),
        clear_bits(ph, 0x00, PIPEHANDLER_OVERRIDE_RXDETECT),
    ]
}

/// The pipehandler switched to USB 3, as far as the hardware let it.
pub open spec fn usb3_pipe_ops(core: usize, ph: usize, host: bool, o: PipeOutcome) -> Seq<Op> {
    let checked = check_ops(ph, o.ack, o.released);
    if !check_ok(o.ack, o.released) {
        checked
    } else if !host {
        checked + usb3_mux_ops(ph)
    } else {
        let locked = checked + override_ops(ph) + lock_ops(ph, o.req, o.locked);
        if !lock_ok(o.req, o.locked) {
            locked
        } else {
            locked + bist_ops(core, ph, o) + usb3_mux_ops(ph) + unlock_ops(ph, o.unlocked)
        }
    }
}

/// How switching the pipehandler to USB 3 ends.
pub open spec fn usb3_pipe_result(host: bool, o: PipeOutcome) -> Result<(), AtcPhyError> {
    if !check_ok(o.ack, o.released) {
        Err(AtcPhyError::UnlockNotAcknowledged)
    } else if host && !lock_ok(o.req, o.locked) {
        Err(AtcPhyError::LockNotAcknowledged)
    } else {
        Ok(())
    }
}

/// The multiplexer register and the override register once USB 3 is selected.
proof fn usb3_mux_selects(ph: usize, regs: Map<usize, u32>)
    requires
        ph + 0x100 <= usize::MAX,
    ensures
        ({
            let after = registers_after(usb3_mux_ops(ph), regs);
            &&& after[reg(ph, 0x0c)] == (regs[reg(ph, 0x0c)] & !0x3fu32) | 0x08u32
            &&& after[reg(ph, 0x00)] & 0x5u32 == 0
        }),
{
    let mux = regs[reg(ph, 0x0c)];
    let over = regs[reg(ph, 0x00)];
    let s0 = Seq::<Op>::empty();
    let s1 = s0.push(replace_bits(ph, 0x0c, PIPEHANDLER_MUX_CTRL_CLK_MASK, 0));
    let s2 = s1.push(wait(10));
    let s3 = s2.push(
        replace_bits(ph, 0x0c, PIPEHANDLER_MUX_CTRL_DATA_MASK, PIPEHANDLER_MUX_CTRL_DATA_USB3),
    );
    let s4 = s3.push(wait(10));
    let s5 = s4.push(
        replace_bits(ph, 0x0c, PIPEHANDLER_MUX_CTRL_CLK_MASK, PIPEHANDLER_MUX_CTRL_CLK_USB3),
    );
    let s6 = s5.push(wait(10));
    let s7 = s6.push(clear_bits(ph, 0x00, PIPEHANDLER_OVERRIDE_RXVALID));
    let s8 = s7.push(clear_bits(ph, 0x00, PIPEHANDLER_OVERRIDE_RXDETECT));
    assert(s8 =~= usb3_mux_ops(ph));
    assert(s1.drop_last() =~= s0 && s2.drop_last() =~= s1 && s3.drop_last() =~= s2);
    assert(s4.drop_last() =~= s3 && s5.drop_last() =~= s4 && s6.drop_last() =~= s5);
    assert(s7.drop_last() =~= s6 && s8.drop_last() =~= s7);
    assert(registers_after(s0, regs) == regs);
    assert(registers_after(s1, regs)[reg(ph, 0x0c)] == (mux & !0x38u32) | 0u32);
    assert(registers_after(s2, regs) == registers_after(s1, regs));
    assert(registers_after(s3, regs)[reg(ph, 0x0c)] == (((mux & !0x38u32) | 0u32) & !0x7u32)
        | 0u32);
    assert(registers_after(s4, regs) == registers_after(s3, regs));
    assert(registers_after(s6, regs) == registers_after(s5, regs));
    let three = (((mux & !0x38u32) | 0u32) & !0x7u32) | 0u32;
    assert(registers_after(s5, regs)[reg(ph, 0x0c)] == (three & !0x38u32) | 0x8u32);
    assert(registers_after(s6, regs)[reg(ph, 0x00)] == over);
    assert(registers_after(s7, regs)[reg(ph, 0x00)] == (over & !0x1u32) | 0u32);
    assert(registers_after(s7, regs)[reg(ph, 0x0c)] == registers_after(s6, regs)[reg(ph, 0x0c)]);
    assert(registers_after(s8, regs)[reg(ph, 0x00)] == (((over & !0x1u32) | 0u32) & !0x4u32)
        | 0u32);
    assert(registers_after(s8, regs)[reg(ph, 0x0c)] == registers_after(s7, regs)[reg(ph, 0x0c)]);
    assert(((((((mux & !0x38u32) | 0u32) & !0x7u32) | 0u32) & !0x38u32) | 0x8u32) == (mux
        & !0x3fu32) | 0x8u32 && ((((over & !0x1u32) | 0u32) & !0x4u32) | 0u32) & 0x5u32 == 0)
        by (bit_vector);
}

/// What comes before the multiplexer is switched leaves its register alone.
proof fn locking_keeps_the_mux(core: usize, ph: usize, o: PipeOutcome, regs: Map<usize, u32>)
    requires
        core + 0x100 <= usize::MAX,
        ph + 0x100 <= usize::MAX,
        core + 0x100 <= ph || ph + 0x100 <= core,
    ensures
        ({
            let checked = check_ops(ph, o.ack, o.released);
            let locked = checked + override_ops(ph) + lock_ops(ph, o.req, o.locked);
            &&& registers_after(checked, regs)[reg(ph, 0x0c)] == regs[reg(ph, 0x0c)]
            &&& registers_after(locked + bist_ops(core, ph, o), regs)[reg(ph, 0x0c)]
                == regs[reg(ph, 0x0c)]
        }),
{
    let at = reg(ph, 0x0c);
    let checked = check_ops(ph, o.ack, o.released);
    let locked = checked + override_ops(ph) + lock_ops(ph, o.req, o.locked);
    let all = locked + bist_ops(core, ph, o);
    assert forall|i: int| 0 <= i < checked.len() implies !#[trigger] stores_to(
        checked[i],
        at,
    ) by {}
    assert forall|i: int| 0 <= i < override_ops(ph).len() implies !#[trigger] stores_to(
        override_ops(ph)[i],
        at,
    ) by {}
    assert forall|i: int|
        0 <= i < lock_ops(ph, o.req, o.locked).len() implies !#[trigger] stores_to(
        lock_ops(ph, o.req, o.locked)[i],
        at,
    ) by {}
    assert forall|i: int| 0 <= i < bist_ops(core, ph, o).len() implies !#[trigger] stores_to(
        bist_ops(core, ph, o)[i],
        at,
    ) by {}
    registers_kept(checked, regs, at);
    registers_append(checked, override_ops(ph), regs);
    registers_kept(override_ops(ph), registers_after(checked, regs), at);
    let first = checked + override_ops(ph);
    registers_append(first, lock_ops(ph, o.req, o.locked), regs);
    registers_kept(lock_ops(ph, o.req, o.locked), registers_after(first, regs), at);
    registers_append(locked, bist_ops(core, ph, o), regs);
    registers_kept(bist_ops(core, ph, o), registers_after(locked, regs), at);
}

/// Once the pipehandler is switched to USB 3, its multiplexer takes data and
/// clock from USB 3, with the other bits of its register as they were, and the
/// receiver overrides are lifted. The register blocks of core and pipehandler
/// lie apart.
pub proof fn usb3_is_selected(
    core: usize,
    ph: usize,
    host: bool,
    o: PipeOutcome,
    regs: Map<usize, u32>,
)
    requires
        core + 0x100 <= usize::MAX,
        ph + 0x100 <= usize::MAX,
        core + 0x100 <= ph || ph + 0x100 <= core,
        usb3_pipe_result(host, o) is Ok,
    ensures
        ({
            let after = registers_after(usb3_pipe_ops(core, ph, host, o), regs);
            &&& after[reg(ph, 0x0c)] == (regs[reg(ph, 0x0c)] & !0x3fu32) | 0x08u32
            &&& after[reg(ph, 0x00)] & 0x5u32 == 0
        }),
{
    let checked = check_ops(ph, o.ack, o.released);
    locking_keeps_the_mux(core, ph, o, regs);
    if !host {
        registers_append(checked, usb3_mux_ops(ph), regs);
        usb3_mux_selects(ph, registers_after(checked, regs));
    } else {
        let locked = checked + override_ops(ph) + lock_ops(ph, o.req, o.locked) + bist_ops(
            core,
            ph,
            o,
        );
        let switched = locked + usb3_mux_ops(ph);
        registers_append(locked, usb3_mux_ops(ph), regs);
        usb3_mux_selects(ph, registers_after(locked, regs));
        let last = unlock_ops(ph, o.unlocked);
        registers_append(switched, last, regs);
        assert forall|i: int| 0 <= i < last.len() implies !#[trigger] stores_to(
            last[i],
            reg(ph, 0x0c),
        ) && !stores_to(last[i], reg(ph, 0x00)) by {}
        registers_kept(last, registers_after(switched, regs), reg(ph, 0x0c));
        registers_kept(last, registers_after(switched, regs), reg(ph, 0x00));
    }
}

/// The pipehandler parked on its dummy source.
pub open spec fn dummy_pipe_ops(ph: usize, o: PipeOutcome) -> Seq<Op> {
    let checked = check_ops(ph, o.ack, o.released);
    if !check_ok(o.ack, o.released) {
        checked
    } else {
        checked + override_ops(ph) + lock_ops(ph, o.req, o.locked) + mux_ops(
            ph,
            PIPEHANDLER_MUX_CTRL_DATA_DUMMY,
            PIPEHANDLER_MUX_CTRL_CLK_DUMMY,
        ) + unlock_ops(ph, o.unlocked) + seq![
            replace_bits(ph, 0x20, PIPEHANDLER_NATIVE_POWER_DOWN_MASK, 2),
            set_bits(ph, 0x20, PIPEHANDLER_NATIVE_RESET),
        ]
    }
}

/// How parking the pipehandler ends.
pub open spec fn dummy_pipe_result(o: PipeOutcome) -> Result<(), AtcPhyError> {
    if check_ok(o.ack, o.released) {
        Ok(())
    } else {
        Err(AtcPhyError::UnlockNotAcknowledged)
    }
}

/// The multiplexer put on DisplayPort, starting from the value `mux` found.
pub open spec fn dp_pipe_ops(ph: usize, mux: u32) -> Seq<Op> {
    let off = (mux & !PIPEHANDLER_MUX_CTRL_CLK_MASK) | 0u32;
    let data = (off & !PIPEHANDLER_MUX_CTRL_DATA_MASK) | PIPEHANDLER_MUX_CTRL_DATA_DP;
    let clk = (data & !PIPEHANDLER_MUX_CTRL_CLK_MASK) | PIPEHANDLER_MUX_CTRL_CLK_DP;
    seq![
        replace_bits(ph, 0x20, PIPEHANDLER_NATIVE_POWER_DOWN_MASK, 3),
        clear_bits(ph, 0x20, PIPEHANDLER_NATIVE_RESET),
        rd(ph, 0x0c, mux),
        wr(ph, 0x0c, off),
        wait(10),
        wr(ph, 0x0c, data),
        wait(10),
        wr(ph, 0x0c, clk),
        wait(10),
    ]
}

/// The USB 2 transceiver powered on, keeping the host field.
pub open spec fn usb2_on_ops(usb2: usize) -> Seq<Op> {
    seq![
        replace_bits(usb2, 0x08, USB2PHY_SIG_NOT_HOST, USB2PHY_SIG_VBUS_FORCED),
        wait(10),
        clear_bits(usb2, 0x04, USB2PHY_CTL_SIDDQ),
        wait(10),
        clear_bits(usb2, 0x04, USB2PHY_CTL_RESET),
        wait(10),
        clear_bits(usb2, 0x04, USB2PHY_CTL_PORT_RESET),
        wait(10),
        set_bits(usb2, 0x04, USB2PHY_CTL_APB_RESET_N),
        wait(10),
        clear_bits(usb2, 0x1c, USB2PHY_MISCTUNE_APBCLK_GATE_OFF),
        clear_bits(usb2, 0x1c, USB2PHY_MISCTUNE_REFCLK_GATE_OFF),
        wr(usb2, 0x00, USB2PHY_USBCTL_RUN),
    ]
}

/// The USB 2 transceiver isolated and powered off.
pub open spec fn usb2_off_ops(usb2: usize) -> Seq<Op> {
    seq![
        wr(usb2, 0x00, USB2PHY_USBCTL_ISOLATION),
        wait(10),
        set_bits(usb2, 0x04, USB2PHY_CTL_SIDDQ),
        wait(10),
        set_bits(usb2, 0x04, USB2PHY_CTL_PORT_RESET),
        wait(10),
        set_bits(usb2, 0x04, USB2PHY_CTL_RESET),
        wait(10),
        clear_bits(usb2, 0x04, USB2PHY_CTL_APB_RESET_N),
        wait(10),
        set_bits(usb2, 0x1c, USB2PHY_MISCTUNE_APBCLK_GATE_OFF),
        set_bits(usb2, 0x1c, USB2PHY_MISCTUNE_REFCLK_GATE_OFF),
    ]
}

/// A power domain awaited on its way up.
pub open spec fn domain_up(core: usize, mask: u32, hit: bool) -> Op {
    Op::Poll {
        addr: reg(core, 0x20004),
        mask,
        until: Until::AllSet,
        tries: 1000,
        step_us: 100,
        hit,
    }
}

/// A power domain awaited on its way down.
pub open spec fn domain_down(core: usize, mask: u32, hit: bool) -> Op {
    Op::Poll {
        addr: reg(core, 0x20004),
        mask,
        until: Until::Clear,
        tries: 100,
        step_us: 10,
        hit,
    }
}

/// The core powered on: small domain, big domain, clamps off, bus reset off.
pub open spec fn core_on_ops(core: usize, small: bool, big: bool) -> Seq<Op> {
    let first = seq![
        set_bits(core, 0x20008, ATCPHY_MISC_RESET_N),
        set_bits(core, 0x20000, ATCPHY_POWER_SLEEP_SMALL),
        domain_up(core, ATCPHY_POWER_SLEEP_SMALL, small),
    ];
    let second = seq![
        set_bits(core, 0x20000, ATCPHY_POWER_SLEEP_BIG),
        domain_up(core, ATCPHY_POWER_SLEEP_BIG, big),
    ];
    if !small {
        first
    } else if !big {
        first + second
    } else {
        first + second + seq![
            clear_bits(core, 0x20000, ATCPHY_POWER_CLAMP_EN),
            set_bits(core, 0x20000, ATCPHY_POWER_APB_RESET_N),
        ]
    }
}

/// The core powered off: resets and clamps, then big domain, then small one.
pub open spec fn core_off_ops(core: usize, big: bool, small: bool) -> Seq<Op> {
    let first = seq![
        clear_bits(core, 0x20000, ATCPHY_POWER_PHY_RESET_N),
        set_bits(core, 0x20000, ATCPHY_POWER_CLAMP_EN),
        clear_bits(core, 0x20008, 0x5),
        clear_bits(core, 0x20000, ATCPHY_POWER_APB_RESET_N),
        clear_bits(core, 0x20000, ATCPHY_POWER_SLEEP_BIG),
        domain_down(core, ATCPHY_POWER_SLEEP_BIG, big),
    ];
    if !big {
        first
    } else {
        first + seq![
            clear_bits(core, 0x20000, ATCPHY_POWER_SLEEP_SMALL),
            domain_down(core, ATCPHY_POWER_SLEEP_SMALL, small),
        ]
    }
}

/// How powering the core off ends.
pub open spec fn core_off_result(big: bool, small: bool) -> Result<(), AtcPhyError> {
    if !big {
        Err(AtcPhyError::BigDomainAwake)
    } else if !small {
        Err(AtcPhyError::SmallDomainAwake)
    } else {
        Ok(())
    }
}

/// The lane crossbar for the plug orientation.
pub open spec fn crossbar_ops(core: usize, swap: bool) -> Seq<Op> {
    if swap {
        seq![
            replace_bits(
                core,
                0x4c,
                ACIOPHY_CROSSBAR_FIELDS,
                ACIOPHY_CROSSBAR_USB3_DP_SWAPPED,
            ),
            set_bits(core, 0x20008, ATCPHY_MISC_LANE_SWAP),
            wr(core, 0x48, ACIOPHY_LANES_SWAPPED),
        ]
    } else {
        seq![
            replace_bits(core, 0x4c, ACIOPHY_CROSSBAR_FIELDS, ACIOPHY_CROSSBAR_USB3_DP),
            clear_bits(core, 0x20008, ATCPHY_MISC_LANE_SWAP),
            wr(core, 0x48, ACIOPHY_LANES_NORMAL),
        ]
    }
}

/// The DWC3 core held in reset behind its clamps.
pub open spec fn dwc3_assert_ops(ph: usize) -> Seq<Op> {
    seq![
        clear_bits(ph, 0x1c, PIPEHANDLER_AON_GEN_DWC3_RESET_N),
        set_bits(ph, 0x1c, PIPEHANDLER_AON_GEN_DWC3_FORCE_CLAMP_EN),
    ]
}

/// The DWC3 core let out of reset.
pub open spec fn dwc3_deassert_ops(ph: usize) -> Seq<Op> {
    seq![
        clear_bits(ph, 0x1c, PIPEHANDLER_AON_GEN_DWC3_FORCE_CLAMP_EN),
        set_bits(ph, 0x1c, PIPEHANDLER_AON_GEN_DWC3_RESET_N),
    ]
}

/// The lane overrides of USB 3 start-up.
pub open spec fn lane_override_ops(core: usize) -> Seq<Op> {
    seq![
        wr(core, 0x1014, 0x1fe000),
        wr(core, 0x2000, AUSPLL_APB_CMD_OVERRIDE_UNK28),
        set_bits(core, 0x08, ACIOPHY_CFG0_COMMON_SMALL_OV),
        wait(10),
        set_bits(core, 0x08, ACIOPHY_CFG0_COMMON_BIG_OV),
        wait(10),
        set_bits(core, 0x08, ACIOPHY_CFG0_COMMON_CLAMP_OV),
        wait(10),
        replace_bits(core, 0x1b0, ACIOPHY_SLEEP_CTRL_TX_SMALL_OV, 0xc0),
        wait(10),
        replace_bits(core, 0x1b0, ACIOPHY_SLEEP_CTRL_TX_BIG_OV, 0xc),
        wait(10),
        replace_bits(core, 0x1b0, ACIOPHY_SLEEP_CTRL_TX_CLAMP_OV, 0xc00),
        wait(10),
        replace_bits(core, 0x08, ACIOPHY_CFG0_RX_BIG_OV, 0x3000),
        wait(10),
        replace_bits(core, 0x08, ACIOPHY_CFG0_RX_SMALL_OV, 0x300),
        wait(10),
        replace_bits(core, 0x08, ACIOPHY_CFG0_RX_CLAMP_OV, 0x30000),
        wait(10),
    ]
}

/// Clocks on and the PHY out of reset.
pub open spec fn phy_release_ops(core: usize) -> Seq<Op> {
    seq![
        set_bits(core, 0x2a00, CIO3PLL_CLK_PCLK_EN),
        set_bits(core, 0x2a00, CIO3PLL_CLK_REFCLK_EN),
        set_bits(core, 0x20000, ATCPHY_POWER_PHY_RESET_N),
    ]
}

impl AppleAtcPhy {
    /// Every register block and tunable lies in the address space.
    pub open spec fn mapped(&self) -> bool {
        &&& self.core_base + 0x20010 <= usize::MAX
        &&& self.usb2phy_base + 0x20 <= usize::MAX
        &&& self.pipehandler_base + 0x30 <= usize::MAX
        &&& tunables_fit(self.tunables.common_a@, self.core_base)
        &&& tunables_fit(self.tunables.common_b@, self.core_base)
        &&& tunables_fit(self.tunables.lane0_usb@, self.core_base)
        &&& tunables_fit(self.tunables.lane1_usb@, self.core_base)
        &&& tunables_fit(self.tunables.lane0_dp@, self.core_base)
        &&& tunables_fit(self.tunables.lane1_dp@, self.core_base)
        &&& self.axi2af_base is Some ==> tunables_fit(
            self.tunables.axi2af@,
            self.axi2af_base->0,
        )
    }

    /// The instance apart from its changing state.
    pub open spec fn same_hardware(&self, other: &AppleAtcPhy) -> bool {
        &&& self.core_base == other.core_base
        &&& self.lpdptx_base == other.lpdptx_base
        &&& self.axi2af_base == other.axi2af_base
        &&& self.usb2phy_base == other.usb2phy_base
        &&& self.pipehandler_base == other.pipehandler_base
        &&& self.tunables == other.tunables
    }

    /// Create a new Apple ATC PHY instance from mapped regions, with empty
    /// tunable tables.
    pub fn new(
        core_base: usize,
        lpdptx_base: Option<usize>,
        axi2af_base: Option<usize>,
        usb2phy_base: usize,
        pipehandler_base: usize,
    ) -> (r: Self)
        ensures
            r.core_base == core_base,
            r.lpdptx_base == lpdptx_base,
            r.axi2af_base == axi2af_base,
            r.usb2phy_base == usb2phy_base,
            r.pipehandler_base == pipehandler_base,
            !r.pipehandler_up,
            !r.swap_lanes,
            r.tunables.common_a@.len() == 0,
            r.tunables.common_b@.len() == 0,
            r.tunables.axi2af@.len() == 0,
            r.tunables.lane0_usb@.len() == 0,
            r.tunables.lane1_usb@.len() == 0,
            r.tunables.lane0_dp@.len() == 0,
            r.tunables.lane1_dp@.len() == 0,
    {
        AppleAtcPhy {
            core_base,
            lpdptx_base,
            axi2af_base,
            usb2phy_base,
            pipehandler_base,
            tunables: AtcTunables::empty(),
            pipehandler_up: false,
            swap_lanes: false,
        }
    }

    fn pipehandler_lock<M: Mmio>(&self, bus: &mut Bus<M>) -> (r: Result<(), AtcPhyError>)
        requires
            self.mapped(),
        ensures
            exists|req: u32, hit: bool|
                {
                    &&& final(bus).ops() == old(bus).ops() + #[trigger] lock_ops(
                        self.pipehandler_base,
                        req,
                        hit,
                    )
                    &&& r == (if lock_ok(req, hit) {
                        Ok::<(), AtcPhyError>(())
                    } else {
                        Err(AtcPhyError::LockNotAcknowledged)
                    })
                },
    {
        let ghost start = bus.ops();
        let ph: usize = self.pipehandler_base;
        let req: u32 = bus.read32(ph + PIPEHANDLER_LOCK_REQ);
        if req & PIPEHANDLER_LOCK_EN != 0 {
            assert(bus.ops() =~= start + lock_ops(ph, req, false));
            return Ok(());
        }
        bus.set32(ph + PIPEHANDLER_LOCK_REQ, PIPEHANDLER_LOCK_EN);
        let hit = bus.poll32(
            ph + PIPEHANDLER_LOCK_ACK,
            PIPEHANDLER_LOCK_EN,
            Until::AnySet,
            100,
            10,
        );
        if hit {
            assert(bus.ops() =~= start + lock_ops(ph, req, true));
            return Ok(());
        }
        bus.clear32(ph + PIPEHANDLER_LOCK_REQ, PIPEHANDLER_LOCK_EN);
        assert(bus.ops() =~= start + lock_ops(ph, req, false));
        Err(AtcPhyError::LockNotAcknowledged)
    }

    fn pipehandler_unlock<M: Mmio>(&self, bus: &mut Bus<M>) -> (r: Result<(), AtcPhyError>)
        requires
            self.mapped(),
        ensures
            final(bus).ops() == old(bus).ops() + unlock_ops(self.pipehandler_base, r is Ok),
            r is Err ==> r->Err_0 == AtcPhyError::UnlockNotAcknowledged,
    {
        let ghost start = bus.ops();
        let ph: usize = self.pipehandler_base;
        bus.clear32(ph + PIPEHANDLER_LOCK_REQ, PIPEHANDLER_LOCK_EN);
        let hit = bus.poll32(
            ph + PIPEHANDLER_LOCK_ACK,
            PIPEHANDLER_LOCK_EN,
            Until::Clear,
            100,
            10,
        );
        assert(bus.ops() =~= start + unlock_ops(ph, hit));
        if hit {
            Ok(())
        } else {
            Err(AtcPhyError::UnlockNotAcknowledged)
        }
    }

    fn pipehandler_check<M: Mmio>(&self, bus: &mut Bus<M>) -> (r: Result<(), AtcPhyError>)
        requires
            self.mapped(),
        ensures
            exists|ack: u32, hit: bool|
                {
                    &&& final(bus).ops() == old(bus).ops() + #[trigger] check_ops(
                        self.pipehandler_base,
                        ack,
                        hit,
                    )
                    &&& r == (if check_ok(ack, hit) {
                        Ok::<(), AtcPhyError>(())
                    } else {
                        Err(AtcPhyError::UnlockNotAcknowledged)
                    })
                },
    {
        let ghost start = bus.ops();
        let ph: usize = self.pipehandler_base;
        let ack: u32 = bus.read32(ph + PIPEHANDLER_LOCK_ACK);
        if ack & PIPEHANDLER_LOCK_EN == 0 {
            assert(bus.ops() =~= start + check_ops(ph, ack, false));
            return Ok(());
        }
        match self.pipehandler_unlock(bus) {
            Ok(()) => {
                assert(bus.ops() =~= start + check_ops(ph, ack, true));
                Ok(())
            },
            Err(error) => {
                assert(bus.ops() =~= start + check_ops(ph, ack, false));
                Err(error)
            },
        }
    }

    fn switch_mux<M: Mmio>(&self, bus: &mut Bus<M>, data: u32, clk: u32)
        requires
            self.mapped(),
        ensures
            final(bus).ops() == old(bus).ops() + mux_ops(self.pipehandler_base, data, clk),
    {
        let ghost start = bus.ops();
        let mux: usize = self.pipehandler_base + PIPEHANDLER_MUX_CTRL;
        bus.mask32(mux, PIPEHANDLER_MUX_CTRL_CLK_MASK, 0);
        bus.udelay(10);
        bus.mask32(mux, PIPEHANDLER_MUX_CTRL_DATA_MASK, data);
        bus.udelay(10);
        bus.mask32(mux, PIPEHANDLER_MUX_CTRL_CLK_MASK, clk);
        bus.udelay(10);
        assert(bus.ops() =~= start + mux_ops(self.pipehandler_base, data, clk));
    }

    fn override_receiver<M: Mmio>(&self, bus: &mut Bus<M>)
        requires
            self.mapped(),
        ensures
            final(bus).ops() == old(bus).ops() + override_ops(self.pipehandler_base),
    {
        let ghost start = bus.ops();
        let ph: usize = self.pipehandler_base;
        bus.clear32(ph + PIPEHANDLER_OVERRIDE_VALUES, PIPEHANDLER_OVERRIDE_VAL_RXDETECT);
        bus.set32(ph + PIPEHANDLER_OVERRIDE, PIPEHANDLER_OVERRIDE_RXVALID);
        bus.set32(ph + PIPEHANDLER_OVERRIDE, PIPEHANDLER_OVERRIDE_RXDETECT);
        assert(bus.ops() =~= start + override_ops(ph));
    }

    fn self_test<M: Mmio>(&self, bus: &mut Bus<M>, Ghost(o): Ghost<PipeOutcome>) -> (r: Ghost<
        PipeOutcome,
    >)
        requires
            self.mapped(),
        ensures
            final(bus).ops() == old(bus).ops() + bist_ops(
                self.core_base,
                self.pipehandler_base,
                r@,
            ),
            r@ == (PipeOutcome {
                idle_before: r@.idle_before,
                ready: r@.ready,
                idle_after: r@.idle_after,
                ..o
            }),
    {
        let ghost start = bus.ops();
        let core: usize = self.core_base;
        let ph: usize = self.pipehandler_base;
        bus.set32(core + ACIOPHY_TOP_BIST_PHY_CFG0, ACIOPHY_TOP_BIST_PHY_CFG0_LN0_RESET_N);
        bus.set32(core + ACIOPHY_TOP_BIST_OV_CFG, ACIOPHY_TOP_BIST_OV_CFG_LN0_RESET_N_OV);
        let idle_before = bus.poll32(
            core + ACIOPHY_TOP_PHY_STAT,
            ACIOPHY_TOP_PHY_STAT_LN0_BUSY,
            Until::Clear,
            1000,
            10,
        );
        bus.set32(
            core + ACIOPHY_TOP_BIST_READ_CTRL,
            ACIOPHY_TOP_BIST_READ_CTRL_LN0_PHY_STATUS_RE,
        );
        bus.clear32(
            core + ACIOPHY_TOP_BIST_READ_CTRL,
            ACIOPHY_TOP_BIST_READ_CTRL_LN0_PHY_STATUS_RE,
        );
        bus.mask32(
            core + ACIOPHY_TOP_BIST_PHY_CFG1,
            ACIOPHY_TOP_BIST_PHY_CFG1_LN0_PWR_DOWN_MASK,
            ACIOPHY_TOP_BIST_PHY_CFG1_LN0_PWR_DOWN_ON,
        );
        bus.set32(core + ACIOPHY_TOP_BIST_OV_CFG, ACIOPHY_TOP_BIST_OV_CFG_LN0_PWR_DOWN_OV);
        bus.set32(core + ACIOPHY_TOP_BIST_CIOPHY_CFG1, ACIOPHY_TOP_BIST_CIOPHY_CFG1_CLK_EN);
        bus.set32(core + ACIOPHY_TOP_BIST_CIOPHY_CFG1, ACIOPHY_TOP_BIST_CIOPHY_CFG1_BIST_EN);
        bus.write32(core + ACIOPHY_TOP_BIST_CIOPHY_CFG1, 0);
        let ready = bus.poll32(
            core + ACIOPHY_TOP_PHY_STAT,
            ACIOPHY_TOP_PHY_STAT_LN0_READY,
            Until::AnySet,
            1000,
            10,
        );
        let idle_after = bus.poll32(
            core + ACIOPHY_TOP_PHY_STAT,
            ACIOPHY_TOP_PHY_STAT_LN0_BUSY,
            Until::Clear,
            1000,
            10,
        );
        bus.mask32(ph + PIPEHANDLER_NONSELECTED_OVERRIDE, PIPEHANDLER_NATIVE_POWER_DOWN_MASK, 3);
        bus.clear32(ph + PIPEHANDLER_NONSELECTED_OVERRIDE, PIPEHANDLER_NATIVE_RESET);
        bus.write32(core + ACIOPHY_TOP_BIST_OV_CFG, 0);
        bus.set32(core + ACIOPHY_TOP_BIST_CIOPHY_CFG1, ACIOPHY_TOP_BIST_CIOPHY_CFG1_CLK_EN);
        bus.set32(core + ACIOPHY_TOP_BIST_CIOPHY_CFG1, ACIOPHY_TOP_BIST_CIOPHY_CFG1_BIST_EN);
        let ghost full = PipeOutcome { idle_before, ready, idle_after, ..o };
        assert(bus.ops() =~= start + bist_ops(core, ph, full));
        Ghost(full)
    }

    fn select_usb3<M: Mmio>(&self, bus: &mut Bus<M>)
        requires
            self.mapped(),
        ensures
            final(bus).ops() == old(bus).ops() + usb3_mux_ops(self.pipehandler_base),
    {
        let ghost start = bus.ops();
        let ph: usize = self.pipehandler_base;
        self.switch_mux(bus, PIPEHANDLER_MUX_CTRL_DATA_USB3, PIPEHANDLER_MUX_CTRL_CLK_USB3);
        bus.clear32(ph + PIPEHANDLER_OVERRIDE, PIPEHANDLER_OVERRIDE_RXVALID);
        bus.clear32(ph + PIPEHANDLER_OVERRIDE, PIPEHANDLER_OVERRIDE_RXDETECT);
        assert(bus.ops() =~= start + usb3_mux_ops(ph));
    }

    /// Switch the pipehandler to USB 3. A pipehandler that is already up is
    /// left alone.
    pub fn configure_pipehandler_usb3<M: Mmio>(&mut self, bus: &mut Bus<M>, host: bool) -> (r:
        Result<(), AtcPhyError>)
        requires
            old(self).mapped(),
        ensures
            final(self).same_hardware(old(self)),
            final(self).swap_lanes == old(self).swap_lanes,
            old(self).pipehandler_up ==> r is Ok && final(bus).ops() == old(bus).ops()
                && final(self).pipehandler_up,
            !old(self).pipehandler_up ==> exists|o: PipeOutcome|
                {
                    &&& final(bus).ops() == old(bus).ops() + #[trigger] usb3_pipe_ops(
                        old(self).core_base,
                        old(self).pipehandler_base,
                        host,
                        o,
                    )
                    &&& r == usb3_pipe_result(host, o)
                    &&& final(self).pipehandler_up == (r is Ok)
                },
    {
        if self.pipehandler_up {
            return Ok(());
        }
        let ghost start = bus.ops();
        let ghost core = self.core_base;
        let ghost ph = self.pipehandler_base;
        let checked = self.pipehandler_check(bus);
        let ghost (ack, released) = choose|ack: u32, hit: bool|
            {
                &&& bus.ops() == start + #[trigger] check_ops(ph, ack, hit)
                &&& checked == (if check_ok(ack, hit) {
                    Ok::<(), AtcPhyError>(())
                } else {
                    Err(AtcPhyError::UnlockNotAcknowledged)
                })
            };
        let ghost mut o = PipeOutcome {
            ack,
            released,
            req: 0,
            locked: false,
            idle_before: false,
            ready: false,
            idle_after: false,
            unlocked: false,
        };
        let ghost mut done = check_ops(ph, ack, released);
        match checked {
            Ok(()) => {},
            Err(error) => {
                assert(usb3_pipe_ops(core, ph, host, o) == done);
                return Err(error);
            },
        }
        if host {
            self.override_receiver(bus);
            proof {
                append_assoc(start, done, override_ops(ph));
                done = done + override_ops(ph);
            }
            let ghost before_lock = bus.ops();
            let lock = self.pipehandler_lock(bus);
            proof {
                let (req, locked) = choose|req: u32, hit: bool|
                    {
                        &&& bus.ops() == before_lock + #[trigger] lock_ops(ph, req, hit)
                        &&& lock == (if lock_ok(req, hit) {
                            Ok::<(), AtcPhyError>(())
                        } else {
                            Err(AtcPhyError::LockNotAcknowledged)
                        })
                    };
                o = PipeOutcome { req, locked, ..o };
                append_assoc(start, done, lock_ops(ph, req, locked));
                done = done + lock_ops(ph, req, locked);
            }
            match lock {
                Ok(()) => {},
                Err(error) => {
                    assert(usb3_pipe_ops(core, ph, host, o) == done);
                    return Err(error);
                },
            }
            let tested = self.self_test(bus, Ghost(o));
            proof {
                o = tested@;
                append_assoc(start, done, bist_ops(core, ph, o));
                done = done + bist_ops(core, ph, o);
            }
        }
        self.select_usb3(bus);
        proof {
            append_assoc(start, done, usb3_mux_ops(ph));
            done = done + usb3_mux_ops(ph);
        }
        if host {
            let unlocked = self.pipehandler_unlock(bus).is_ok();
            proof {
                let tested = o;
                o = PipeOutcome { unlocked, ..o };
                assert(bist_ops(core, ph, tested) == bist_ops(core, ph, o));
                append_assoc(start, done, unlock_ops(ph, unlocked));
                done = done + unlock_ops(ph, unlocked);
            }
        }
        self.pipehandler_up = true;
        assert(usb3_pipe_ops(core, ph, host, o) == done);
        Ok(())
    }
}


/// The tunables of a mode: common ones, then those of the two lanes.
pub open spec fn mode_tunable_ops(phy: &AppleAtcPhy, mode: AtcPhyMode, swap: bool) -> Seq<Op> {
    let core = phy.core_base;
    let t = phy.tunables;
    let common = tune_ops(t.common_a@, core) + (match phy.axi2af_base {
        Some(base) => tune_ops(t.axi2af@, base),
        None => Seq::empty(),
    }) + tune_ops(t.common_b@, core);
    let lane0 = match mode {
        AtcPhyMode::DisplayPort => if swap {
            t.lane1_dp@
        } else {
            t.lane0_dp@
        },
        _ => if swap {
            t.lane1_usb@
        } else {
            t.lane0_usb@
        },
    };
    let lane1 = if swap {
        t.lane0_dp@
    } else {
        t.lane1_dp@
    };
    common + tune_ops(lane0, core) + tune_ops(lane1, core)
}

/// USB 3 start-up, as far as the power domains came up.
pub open spec fn init_ops(phy: &AppleAtcPhy, small: bool, big: bool) -> Seq<Op> {
    let core = phy.core_base;
    let powered = usb2_on_ops(phy.usb2phy_base) + core_on_ops(core, small, big);
    if small && big {
        powered + mode_tunable_ops(phy, AtcPhyMode::Usb3, phy.swap_lanes) + lane_override_ops(core)
            + crossbar_ops(core, phy.swap_lanes) + phy_release_ops(core)
    } else {
        powered
    }
}

/// USB 3 start-up was carried out, and it ended well where `ok` holds.
pub open spec fn init_done(
    phy: &AppleAtcPhy,
    before: Seq<Op>,
    after: Seq<Op>,
    ok: bool,
) -> bool {
    exists|small: bool, big: bool|
        after == before + #[trigger] init_ops(phy, small, big) && ok == (small && big)
}

/// What the hardware answered during DisplayPort start-up.
pub struct DpOutcome {
    pub small: bool,
    pub big: bool,
    pub pipe: PipeOutcome,
    pub mux: u32,
}

/// The pipehandler part of DisplayPort start-up.
pub open spec fn dp_source_ops(phy: &AppleAtcPhy, mode: AtcPhyMode, o: DpOutcome) -> Seq<Op> {
    let core = phy.core_base;
    let ph = phy.pipehandler_base;
    let usb3 = if phy.pipehandler_up {
        Seq::empty()
    } else {
        usb3_pipe_ops(core, ph, true, o.pipe)
    };
    match mode {
        AtcPhyMode::DisplayPort => dp_pipe_ops(ph, o.mux),
        AtcPhyMode::Usb3 => usb3,
        AtcPhyMode::Usb3Dp => if dp_usb3_result(phy, o) is Ok {
            usb3 + dp_pipe_ops(ph, o.mux)
        } else {
            usb3
        },
    }
}

/// How the USB 3 part of DisplayPort start-up ends.
pub open spec fn dp_usb3_result(phy: &AppleAtcPhy, o: DpOutcome) -> Result<(), AtcPhyError> {
    if phy.pipehandler_up {
        Ok(())
    } else {
        usb3_pipe_result(true, o.pipe)
    }
}

/// DisplayPort start-up, as far as the hardware let it.
pub open spec fn init_dp_ops(phy: &AppleAtcPhy, mode: AtcPhyMode, o: DpOutcome) -> Seq<Op> {
    let core = phy.core_base;
    let powered = usb2_on_ops(phy.usb2phy_base) + core_on_ops(core, o.small, o.big);
    if o.small && o.big {
        powered + crossbar_ops(core, phy.swap_lanes) + mode_tunable_ops(phy, mode, phy.swap_lanes)
            + dp_source_ops(phy, mode, o)
    } else {
        powered
    }
}

/// How DisplayPort start-up ends once the regions are mapped.
pub open spec fn init_dp_result(phy: &AppleAtcPhy, mode: AtcPhyMode, o: DpOutcome) -> Result<
    (),
    AtcPhyError,
> {
    if !(o.small && o.big) {
        Err(AtcPhyError::CorePowerTimeout)
    } else {
        match mode {
            AtcPhyMode::DisplayPort => Ok(()),
            _ => dp_usb3_result(phy, o),
        }
    }
}

/// The pipehandler carries USB 3 after DisplayPort start-up.
pub open spec fn pipe_up_after_dp(phy: &AppleAtcPhy, mode: AtcPhyMode, r: Result<
    (),
    AtcPhyError,
>) -> bool {
    phy.pipehandler_up || (mode != AtcPhyMode::DisplayPort && r is Ok)
}

/// DisplayPort start-up was carried out with the given result.
pub open spec fn init_dp_done(
    phy: &AppleAtcPhy,
    mode: AtcPhyMode,
    before: Seq<Op>,
    after: Seq<Op>,
    r: Result<(), AtcPhyError>,
) -> bool {
    if phy.lpdptx_base is None || phy.axi2af_base is None {
        after == before && r == Err::<(), _>(AtcPhyError::DisplayRegionsMissing)
    } else {
        exists|o: DpOutcome|
            after == before + #[trigger] init_dp_ops(phy, mode, o) && r == init_dp_result(
                phy,
                mode,
                o,
            )
    }
}

/// The pipehandler was parked, and that ended with the given result.
pub open spec fn dummy_done(ph: usize, before: Seq<Op>, after: Seq<Op>, r: Result<
    (),
    AtcPhyError,
>) -> bool {
    exists|o: PipeOutcome|
        after == before + #[trigger] dummy_pipe_ops(ph, o) && r == dummy_pipe_result(o)
}

/// The core was powered off, and that ended with the given result.
pub open spec fn core_off_done(core: usize, before: Seq<Op>, after: Seq<Op>, r: Result<
    (),
    AtcPhyError,
>) -> bool {
    exists|big: bool, small: bool|
        after == before + #[trigger] core_off_ops(core, big, small) && r == core_off_result(
            big,
            small,
        )
}

impl AppleAtcPhy {
    /// Park the pipehandler on its dummy source.
    pub fn configure_pipehandler_dummy<M: Mmio>(&mut self, bus: &mut Bus<M>) -> (r: Result<
        (),
        AtcPhyError,
    >)
        requires
            old(self).mapped(),
        ensures
            final(self).same_hardware(old(self)),
            final(self).swap_lanes == old(self).swap_lanes,
            dummy_done(old(self).pipehandler_base, old(bus).ops(), final(bus).ops(), r),
            final(self).pipehandler_up == (old(self).pipehandler_up && r is Err),
    {
        let ghost start = bus.ops();
        let ghost ph = self.pipehandler_base;
        let checked = self.pipehandler_check(bus);
        let ghost (ack, released) = choose|ack: u32, hit: bool|
            {
                &&& bus.ops() == start + #[trigger] check_ops(ph, ack, hit)
                &&& checked == (if check_ok(ack, hit) {
                    Ok::<(), AtcPhyError>(())
                } else {
                    Err(AtcPhyError::UnlockNotAcknowledged)
                })
            };
        let ghost mut o = PipeOutcome {
            ack,
            released,
            req: 0,
            locked: false,
            idle_before: false,
            ready: false,
            idle_after: false,
            unlocked: false,
        };
        let ghost mut done = check_ops(ph, ack, released);
        match checked {
            Ok(()) => {},
            Err(error) => {
                assert(dummy_pipe_ops(ph, o) == done);
                return Err(error);
            },
        }
        self.override_receiver(bus);
        proof {
            append_assoc(start, done, override_ops(ph));
            done = done + override_ops(ph);
        }
        let ghost before_lock = bus.ops();
        let lock = self.pipehandler_lock(bus);
        proof {
            let (req, locked) = choose|req: u32, hit: bool|
                {
                    &&& bus.ops() == before_lock + #[trigger] lock_ops(ph, req, hit)
                    &&& lock == (if lock_ok(req, hit) {
                        Ok::<(), AtcPhyError>(())
                    } else {
                        Err(AtcPhyError::LockNotAcknowledged)
                    })
                };
            o = PipeOutcome { req, locked, ..o };
            append_assoc(start, done, lock_ops(ph, req, locked));
            done = done + lock_ops(ph, req, locked);
        }
        self.switch_mux(bus, PIPEHANDLER_MUX_CTRL_DATA_DUMMY, PIPEHANDLER_MUX_CTRL_CLK_DUMMY);
        let ghost mux = mux_ops(
            ph,
            PIPEHANDLER_MUX_CTRL_DATA_DUMMY,
            PIPEHANDLER_MUX_CTRL_CLK_DUMMY,
        );
        proof {
            append_assoc(start, done, mux);
            done = done + mux;
        }
        let unlocked = self.pipehandler_unlock(bus).is_ok();
        proof {
            o = PipeOutcome { unlocked, ..o };
            append_assoc(start, done, unlock_ops(ph, unlocked));
            done = done + unlock_ops(ph, unlocked);
        }
        let over: usize = self.pipehandler_base + PIPEHANDLER_NONSELECTED_OVERRIDE;
        bus.mask32(over, PIPEHANDLER_NATIVE_POWER_DOWN_MASK, 2);
        bus.set32(over, PIPEHANDLER_NATIVE_RESET);
        proof {
            let tail = seq![
                replace_bits(ph, 0x20, PIPEHANDLER_NATIVE_POWER_DOWN_MASK, 2),
                set_bits(ph, 0x20, PIPEHANDLER_NATIVE_RESET),
            ];
            assert(bus.ops() =~= (start + done) + tail);
            append_assoc(start, done, tail);
            done = done + tail;
            assert(dummy_pipe_ops(ph, o) == done);
        }
        self.pipehandler_up = false;
        Ok(())
    }

    /// Put the pipehandler on its dummy source without taking the lock.
    pub fn setup_pipehandler<M: Mmio>(&self, bus: &mut Bus<M>)
        requires
            self.mapped(),
        ensures
            final(bus).ops() == old(bus).ops() + mux_ops(
                self.pipehandler_base,
                PIPEHANDLER_MUX_CTRL_DATA_DUMMY,
                PIPEHANDLER_MUX_CTRL_CLK_DUMMY,
            ),
    {
        self.switch_mux(bus, PIPEHANDLER_MUX_CTRL_DATA_DUMMY, PIPEHANDLER_MUX_CTRL_CLK_DUMMY);
    }

    /// Put the pipehandler on DisplayPort.
    fn configure_pipehandler_dp<M: Mmio>(&self, bus: &mut Bus<M>) -> (mux: Ghost<u32>)
        requires
            self.mapped(),
        ensures
            final(bus).ops() == old(bus).ops() + dp_pipe_ops(self.pipehandler_base, mux@),
    {
        let ghost start = bus.ops();
        let ph: usize = self.pipehandler_base;
        bus.mask32(ph + PIPEHANDLER_NONSELECTED_OVERRIDE, PIPEHANDLER_NATIVE_POWER_DOWN_MASK, 3);
        bus.clear32(ph + PIPEHANDLER_NONSELECTED_OVERRIDE, PIPEHANDLER_NATIVE_RESET);
        let found: u32 = bus.read32(ph + PIPEHANDLER_MUX_CTRL);
        let off: u32 = (found & !PIPEHANDLER_MUX_CTRL_CLK_MASK) | 0u32;
        bus.write32(ph + PIPEHANDLER_MUX_CTRL, off);
        bus.udelay(10);
        let data: u32 = (off & !PIPEHANDLER_MUX_CTRL_DATA_MASK) | PIPEHANDLER_MUX_CTRL_DATA_DP;
        bus.write32(ph + PIPEHANDLER_MUX_CTRL, data);
        bus.udelay(10);
        let clk: u32 = (data & !PIPEHANDLER_MUX_CTRL_CLK_MASK) | PIPEHANDLER_MUX_CTRL_CLK_DP;
        bus.write32(ph + PIPEHANDLER_MUX_CTRL, clk);
        bus.udelay(10);
        assert(bus.ops() =~= start + dp_pipe_ops(ph, found));
        Ghost(found)
    }

    /// Power the USB 2 transceiver on.
    pub fn usb2_power_on<M: Mmio>(&self, bus: &mut Bus<M>)
        requires
            self.mapped(),
        ensures
            final(bus).ops() == old(bus).ops() + usb2_on_ops(self.usb2phy_base),
    {
        let ghost start = bus.ops();
        let usb2: usize = self.usb2phy_base;
        bus.mask32(usb2 + USB2PHY_SIG, USB2PHY_SIG_NOT_HOST, USB2PHY_SIG_VBUS_FORCED);
        bus.udelay(10);
        bus.clear32(usb2 + USB2PHY_CTL, USB2PHY_CTL_SIDDQ);
        bus.udelay(10);
        bus.clear32(usb2 + USB2PHY_CTL, USB2PHY_CTL_RESET);
        bus.udelay(10);
        bus.clear32(usb2 + USB2PHY_CTL, USB2PHY_CTL_PORT_RESET);
        bus.udelay(10);
        bus.set32(usb2 + USB2PHY_CTL, USB2PHY_CTL_APB_RESET_N);
        bus.udelay(10);
        bus.clear32(usb2 + USB2PHY_MISCTUNE, USB2PHY_MISCTUNE_APBCLK_GATE_OFF);
        bus.clear32(usb2 + USB2PHY_MISCTUNE, USB2PHY_MISCTUNE_REFCLK_GATE_OFF);
        bus.write32(usb2 + USB2PHY_USBCTL, USB2PHY_USBCTL_RUN);
        assert(bus.ops() =~= start + usb2_on_ops(usb2));
    }

    /// Power the USB 2 transceiver off.
    pub fn usb2_power_off<M: Mmio>(&self, bus: &mut Bus<M>)
        requires
            self.mapped(),
        ensures
            final(bus).ops() == old(bus).ops() + usb2_off_ops(self.usb2phy_base),
    {
        let ghost start = bus.ops();
        let usb2: usize = self.usb2phy_base;
        bus.write32(usb2 + USB2PHY_USBCTL, USB2PHY_USBCTL_ISOLATION);
        bus.udelay(10);
        bus.set32(usb2 + USB2PHY_CTL, USB2PHY_CTL_SIDDQ);
        bus.udelay(10);
        bus.set32(usb2 + USB2PHY_CTL, USB2PHY_CTL_PORT_RESET);
        bus.udelay(10);
        bus.set32(usb2 + USB2PHY_CTL, USB2PHY_CTL_RESET);
        bus.udelay(10);
        bus.clear32(usb2 + USB2PHY_CTL, USB2PHY_CTL_APB_RESET_N);
        bus.udelay(10);
        bus.set32(usb2 + USB2PHY_MISCTUNE, USB2PHY_MISCTUNE_APBCLK_GATE_OFF);
        bus.set32(usb2 + USB2PHY_MISCTUNE, USB2PHY_MISCTUNE_REFCLK_GATE_OFF);
        assert(bus.ops() =~= start + usb2_off_ops(usb2));
    }

    /// Put the USB 2 transceiver in host or device mode.
    pub fn usb2_set_mode<M: Mmio>(&self, bus: &mut Bus<M>, mode: PhyMode) -> (r: Result<
        (),
        PhyError,
    >)
        requires
            self.mapped(),
        ensures
            final(bus).ops() == old(bus).ops() + usb2_mode_ops(self.usb2phy_base, mode),
            r == usb2_mode_result(mode),
    {
        let ghost start = bus.ops();
        let sig: usize = self.usb2phy_base + USB2PHY_SIG;
        match mode {
            PhyMode::UsbHost | PhyMode::UsbOtg => {
                bus.set32(sig, USB2PHY_SIG_HOST);
                assert(bus.ops() =~= start + usb2_mode_ops(self.usb2phy_base, mode));
                Ok(())
            },
            PhyMode::UsbDevice => {
                bus.clear32(sig, USB2PHY_SIG_HOST);
                assert(bus.ops() =~= start + usb2_mode_ops(self.usb2phy_base, mode));
                Ok(())
            },
            _ => {
                assert(bus.ops() =~= start + usb2_mode_ops(self.usb2phy_base, mode));
                Err(PhyError::InvalidMode)
            },
        }
    }

    /// Power the core on.
    pub fn core_power_on<M: Mmio>(&self, bus: &mut Bus<M>) -> (r: Result<(), AtcPhyError>)
        requires
            self.mapped(),
        ensures
            exists|small: bool, big: bool|
                {
                    &&& final(bus).ops() == old(bus).ops() + #[trigger] core_on_ops(
                        self.core_base,
                        small,
                        big,
                    )
                    &&& (r is Ok) == (small && big)
                },
            r is Err ==> r->Err_0 == AtcPhyError::CorePowerTimeout,
    {
        let ghost start = bus.ops();
        let core: usize = self.core_base;
        bus.set32(core + ATCPHY_MISC, ATCPHY_MISC_RESET_N);
        bus.set32(core + ATCPHY_POWER_CTRL, ATCPHY_POWER_SLEEP_SMALL);
        let small = bus.poll32(
            core + ATCPHY_POWER_STAT,
            ATCPHY_POWER_SLEEP_SMALL,
            Until::AllSet,
            1000,
            100,
        );
        if !small {
            assert(bus.ops() =~= start + core_on_ops(core, false, false));
            return Err(AtcPhyError::CorePowerTimeout);
        }
        bus.set32(core + ATCPHY_POWER_CTRL, ATCPHY_POWER_SLEEP_BIG);
        let big = bus.poll32(
            core + ATCPHY_POWER_STAT,
            ATCPHY_POWER_SLEEP_BIG,
            Until::AllSet,
            1000,
            100,
        );
        if !big {
            assert(bus.ops() =~= start + core_on_ops(core, true, false));
            return Err(AtcPhyError::CorePowerTimeout);
        }
        bus.clear32(core + ATCPHY_POWER_CTRL, ATCPHY_POWER_CLAMP_EN);
        bus.set32(core + ATCPHY_POWER_CTRL, ATCPHY_POWER_APB_RESET_N);
        assert(bus.ops() =~= start + core_on_ops(core, true, true));
        Ok(())
    }

    /// Power the core off.
    pub fn core_power_off<M: Mmio>(&self, bus: &mut Bus<M>) -> (r: Result<(), AtcPhyError>)
        requires
            self.mapped(),
        ensures
            core_off_done(self.core_base, old(bus).ops(), final(bus).ops(), r),
    {
        let ghost start = bus.ops();
        let core: usize = self.core_base;
        bus.clear32(core + ATCPHY_POWER_CTRL, ATCPHY_POWER_PHY_RESET_N);
        bus.set32(core + ATCPHY_POWER_CTRL, ATCPHY_POWER_CLAMP_EN);
        bus.clear32(core + ATCPHY_MISC, 0x5);
        bus.clear32(core + ATCPHY_POWER_CTRL, ATCPHY_POWER_APB_RESET_N);
        bus.clear32(core + ATCPHY_POWER_CTRL, ATCPHY_POWER_SLEEP_BIG);
        let big = bus.poll32(
            core + ATCPHY_POWER_STAT,
            ATCPHY_POWER_SLEEP_BIG,
            Until::Clear,
            100,
            10,
        );
        if !big {
            assert(bus.ops() =~= start + core_off_ops(core, false, false));
            return Err(AtcPhyError::BigDomainAwake);
        }
        bus.clear32(core + ATCPHY_POWER_CTRL, ATCPHY_POWER_SLEEP_SMALL);
        let small = bus.poll32(
            core + ATCPHY_POWER_STAT,
            ATCPHY_POWER_SLEEP_SMALL,
            Until::Clear,
            100,
            10,
        );
        assert(bus.ops() =~= start + core_off_ops(core, true, small));
        if !small {
            return Err(AtcPhyError::SmallDomainAwake);
        }
        Ok(())
    }

    /// Set the lane crossbar for the current orientation.
    pub fn configure_crossbar<M: Mmio>(&self, bus: &mut Bus<M>)
        requires
            self.mapped(),
        ensures
            final(bus).ops() == old(bus).ops() + crossbar_ops(self.core_base, self.swap_lanes),
    {
        let ghost start = bus.ops();
        let core: usize = self.core_base;
        if self.swap_lanes {
            bus.mask32(
                core + ACIOPHY_CROSSBAR,
                ACIOPHY_CROSSBAR_FIELDS,
                ACIOPHY_CROSSBAR_USB3_DP_SWAPPED,
            );
            bus.set32(core + ATCPHY_MISC, ATCPHY_MISC_LANE_SWAP);
            bus.write32(core + ACIOPHY_LANE_MODE, ACIOPHY_LANES_SWAPPED);
        } else {
            bus.mask32(
                core + ACIOPHY_CROSSBAR,
                ACIOPHY_CROSSBAR_FIELDS,
                ACIOPHY_CROSSBAR_USB3_DP,
            );
            bus.clear32(core + ATCPHY_MISC, ATCPHY_MISC_LANE_SWAP);
            bus.write32(core + ACIOPHY_LANE_MODE, ACIOPHY_LANES_NORMAL);
        }
        assert(bus.ops() =~= start + crossbar_ops(core, self.swap_lanes));
    }

    fn dwc3_reset_assert_raw<M: Mmio>(&self, bus: &mut Bus<M>)
        requires
            self.mapped(),
        ensures
            final(bus).ops() == old(bus).ops() + dwc3_assert_ops(self.pipehandler_base),
    {
        let ghost start = bus.ops();
        let aon: usize = self.pipehandler_base + PIPEHANDLER_AON_GEN;
        bus.clear32(aon, PIPEHANDLER_AON_GEN_DWC3_RESET_N);
        bus.set32(aon, PIPEHANDLER_AON_GEN_DWC3_FORCE_CLAMP_EN);
        assert(bus.ops() =~= start + dwc3_assert_ops(self.pipehandler_base));
    }

    /// Hold the DWC3 core in reset; the pipehandler is parked and the USB 2
    /// transceiver powered off.
    pub fn dwc3_reset_assert<M: Mmio>(&mut self, bus: &mut Bus<M>)
        requires
            old(self).mapped(),
        ensures
            final(self).same_hardware(old(self)),
            final(self).swap_lanes == old(self).swap_lanes,
            dwc3_assert_done(old(self), old(bus).ops(), final(bus).ops(), final(self).pipehandler_up),
    {
        let ghost start = bus.ops();
        let ghost phy = *self;
        self.dwc3_reset_assert_raw(bus);
        let ghost held = dwc3_assert_ops(phy.pipehandler_base);
        if self.pipehandler_up {
            let parked = self.configure_pipehandler_dummy(bus);
            let ghost o = choose|o: PipeOutcome|
                bus.ops() == (start + held) + #[trigger] dummy_pipe_ops(phy.pipehandler_base, o)
                    && parked == dummy_pipe_result(o);
            self.usb2_power_off(bus);
            proof {
                let d = dummy_pipe_ops(phy.pipehandler_base, o);
                append_assoc(start, held, d);
                append_assoc(start, held + d, usb2_off_ops(phy.usb2phy_base));
                assert(assert_ops(&phy, o) == held + d + usb2_off_ops(phy.usb2phy_base));
                assert(bus.ops() == start + assert_ops(&phy, o));
            }
        } else {
            self.usb2_power_off(bus);
            proof {
                append_assoc(start, held, usb2_off_ops(phy.usb2phy_base));
                let o = arbitrary::<PipeOutcome>();
                assert(bus.ops() == start + assert_ops(&phy, o));
            }
        }
    }

    /// Let the DWC3 core out of reset.
    pub fn dwc3_reset_deassert<M: Mmio>(&mut self, bus: &mut Bus<M>)
        requires
            old(self).mapped(),
        ensures
            *final(self) == *old(self),
            final(bus).ops() == old(bus).ops() + dwc3_deassert_ops(old(self).pipehandler_base),
    {
        let ghost start = bus.ops();
        let aon: usize = self.pipehandler_base + PIPEHANDLER_AON_GEN;
        bus.clear32(aon, PIPEHANDLER_AON_GEN_DWC3_FORCE_CLAMP_EN);
        bus.set32(aon, PIPEHANDLER_AON_GEN_DWC3_RESET_N);
        assert(bus.ops() =~= start + dwc3_deassert_ops(self.pipehandler_base));
    }

    /// Hold the DWC3 core in reset on behalf of its driver. The specifier has
    /// no cells.
    pub fn assert_reset<M: Mmio>(&mut self, bus: &mut Bus<M>, cells: &[u32]) -> (r: Result<
        (),
        AtcPhyError,
    >)
        requires
            old(self).mapped(),
        ensures
            final(self).same_hardware(old(self)),
            final(self).swap_lanes == old(self).swap_lanes,
            if cells@.len() != 0 {
                &&& r == Err::<(), AtcPhyError>(AtcPhyError::InvalidResetSpecifier)
                &&& final(self).pipehandler_up == old(self).pipehandler_up
                &&& final(bus).ops() == old(bus).ops()
            } else {
                &&& r == Ok::<(), AtcPhyError>(())
                &&& dwc3_assert_done(
                    old(self),
                    old(bus).ops(),
                    final(bus).ops(),
                    final(self).pipehandler_up,
                )
            },
    {
        if cells.len() != 0 {
            return Err(AtcPhyError::InvalidResetSpecifier);
        }
        self.dwc3_reset_assert(bus);
        Ok(())
    }

    /// Release the DWC3 core on behalf of its driver. The specifier has no
    /// cells.
    pub fn deassert_reset<M: Mmio>(&mut self, bus: &mut Bus<M>, cells: &[u32]) -> (r: Result<
        (),
        AtcPhyError,
    >)
        requires
            old(self).mapped(),
        ensures
            *final(self) == *old(self),
            if cells@.len() != 0 {
                &&& r == Err::<(), AtcPhyError>(AtcPhyError::InvalidResetSpecifier)
                &&& final(bus).ops() == old(bus).ops()
            } else {
                &&& r == Ok::<(), AtcPhyError>(())
                &&& final(bus).ops() == old(bus).ops() + dwc3_deassert_ops(
                    old(self).pipehandler_base,
                )
            },
    {
        if cells.len() != 0 {
            return Err(AtcPhyError::InvalidResetSpecifier);
        }
        self.dwc3_reset_deassert(bus);
        Ok(())
    }

    /// Clear what the bootloader left: DWC3 in reset, USB 2 and core off, the
    /// pipehandler on its dummy source.
    pub fn prepare_bootloader_state<M: Mmio>(&mut self, bus: &mut Bus<M>) -> (r: Result<
        (),
        AtcPhyError,
    >)
        requires
            old(self).mapped(),
        ensures
            final(self).same_hardware(old(self)),
            final(self).swap_lanes == old(self).swap_lanes,
            final(self).pipehandler_up == (old(self).pipehandler_up && r is Err),
            exists|big: bool, small: bool|
                {
                    &&& final(bus).ops() == old(bus).ops() + #[trigger] cleared_ops(
                        old(self),
                        big,
                        small,
                    )
                    &&& r == core_off_result(big, small)
                },
    {
        let ghost start = bus.ops();
        let ghost phy = *self;
        let ghost held = dwc3_assert_ops(phy.pipehandler_base);
        let ghost usb2 = usb2_off_ops(phy.usb2phy_base);
        self.dwc3_reset_assert_raw(bus);
        self.usb2_power_off(bus);
        proof {
            append_assoc(start, held, usb2);
        }
        let ghost before = bus.ops();
        let off = self.core_power_off(bus);
        let ghost (big, small) = choose|big: bool, small: bool|
            bus.ops() == before + #[trigger] core_off_ops(phy.core_base, big, small) && off
                == core_off_result(big, small);
        proof {
            append_assoc(start, held + usb2, core_off_ops(phy.core_base, big, small));
        }
        match off {
            Ok(()) => {},
            Err(error) => {
                assert(cleared_ops(&phy, big, small) == held + usb2 + core_off_ops(
                    phy.core_base,
                    big,
                    small,
                ));
                return Err(error);
            },
        }
        self.setup_pipehandler(bus);
        proof {
            append_assoc(
                start,
                held + usb2 + core_off_ops(phy.core_base, big, small),
                mux_ops(
                    phy.pipehandler_base,
                    PIPEHANDLER_MUX_CTRL_DATA_DUMMY,
                    PIPEHANDLER_MUX_CTRL_CLK_DUMMY,
                ),
            );
            assert(bus.ops() == start + cleared_ops(&phy, big, small));
        }
        self.pipehandler_up = false;
        Ok(())
    }

    fn apply_mode_tunables<M: Mmio>(&self, bus: &mut Bus<M>, mode: AtcPhyMode, swap: bool)
        requires
            self.mapped(),
        ensures
            final(bus).ops() == old(bus).ops() + mode_tunable_ops(self, mode, swap),
    {
        let ghost start = bus.ops();
        let core: usize = self.core_base;
        apply_tunables(bus, &self.tunables.common_a, core);
        let ghost mut done = tune_ops(self.tunables.common_a@, core);
        if let Some(axi2af) = self.axi2af_base {
            apply_tunables(bus, &self.tunables.axi2af, axi2af);
            proof {
                append_assoc(start, done, tune_ops(self.tunables.axi2af@, axi2af));
                done = done + tune_ops(self.tunables.axi2af@, axi2af);
            }
        } else {
            proof {
                assert(done =~= done + Seq::<Op>::empty());
                done = done + Seq::<Op>::empty();
            }
        }
        apply_tunables(bus, &self.tunables.common_b, core);
        proof {
            append_assoc(start, done, tune_ops(self.tunables.common_b@, core));
            done = done + tune_ops(self.tunables.common_b@, core);
        }
        let lane0: &Vec<HardwareTunable> = match mode {
            AtcPhyMode::DisplayPort => if swap {
                &self.tunables.lane1_dp
            } else {
                &self.tunables.lane0_dp
            },
            _ => if swap {
                &self.tunables.lane1_usb
            } else {
                &self.tunables.lane0_usb
            },
        };
        let lane1: &Vec<HardwareTunable> = if swap {
            &self.tunables.lane0_dp
        } else {
            &self.tunables.lane1_dp
        };
        apply_tunables(bus, lane0, core);
        proof {
            append_assoc(start, done, tune_ops(lane0@, core));
            done = done + tune_ops(lane0@, core);
        }
        apply_tunables(bus, lane1, core);
        proof {
            append_assoc(start, done, tune_ops(lane1@, core));
            done = done + tune_ops(lane1@, core);
            assert(mode_tunable_ops(self, mode, swap) == done);
        }
    }

    fn override_lanes<M: Mmio>(&self, bus: &mut Bus<M>)
        requires
            self.mapped(),
        ensures
            final(bus).ops() == old(bus).ops() + lane_override_ops(self.core_base),
    {
        let ghost start = bus.ops();
        let core: usize = self.core_base;
        bus.write32(core + AUSPLL_FSM_CTRL, 0x1fe000);
        bus.write32(core + AUSPLL_APB_CMD_OVERRIDE, AUSPLL_APB_CMD_OVERRIDE_UNK28);
        bus.set32(core + ACIOPHY_CFG0, ACIOPHY_CFG0_COMMON_SMALL_OV);
        bus.udelay(10);
        bus.set32(core + ACIOPHY_CFG0, ACIOPHY_CFG0_COMMON_BIG_OV);
        bus.udelay(10);
        bus.set32(core + ACIOPHY_CFG0, ACIOPHY_CFG0_COMMON_CLAMP_OV);
        bus.udelay(10);
        bus.mask32(core + ACIOPHY_SLEEP_CTRL, ACIOPHY_SLEEP_CTRL_TX_SMALL_OV, 0xc0);
        bus.udelay(10);
        bus.mask32(core + ACIOPHY_SLEEP_CTRL, ACIOPHY_SLEEP_CTRL_TX_BIG_OV, 0xc);
        bus.udelay(10);
        bus.mask32(core + ACIOPHY_SLEEP_CTRL, ACIOPHY_SLEEP_CTRL_TX_CLAMP_OV, 0xc00);
        bus.udelay(10);
        bus.mask32(core + ACIOPHY_CFG0, ACIOPHY_CFG0_RX_BIG_OV, 0x3000);
        bus.udelay(10);
        bus.mask32(core + ACIOPHY_CFG0, ACIOPHY_CFG0_RX_SMALL_OV, 0x300);
        bus.udelay(10);
        bus.mask32(core + ACIOPHY_CFG0, ACIOPHY_CFG0_RX_CLAMP_OV, 0x30000);
        bus.udelay(10);
        assert(bus.ops() =~= start + lane_override_ops(core));
    }

    fn release_phy<M: Mmio>(&self, bus: &mut Bus<M>)
        requires
            self.mapped(),
        ensures
            final(bus).ops() == old(bus).ops() + phy_release_ops(self.core_base),
    {
        let ghost start = bus.ops();
        let core: usize = self.core_base;
        bus.set32(core + CIO3PLL_CLK_CTRL, CIO3PLL_CLK_PCLK_EN);
        bus.set32(core + CIO3PLL_CLK_CTRL, CIO3PLL_CLK_REFCLK_EN);
        bus.set32(core + ATCPHY_POWER_CTRL, ATCPHY_POWER_PHY_RESET_N);
        assert(bus.ops() =~= start + phy_release_ops(core));
    }

    /// Initialize the PHY in USB 3 mode.
    pub fn init<M: Mmio>(&mut self, bus: &mut Bus<M>) -> (r: Result<(), AtcPhyError>)
        requires
            old(self).mapped(),
        ensures
            *final(self) == *old(self),
            init_done(old(self), old(bus).ops(), final(bus).ops(), r is Ok),
            r is Err ==> r->Err_0 == AtcPhyError::CorePowerTimeout,
    {
        let ghost start = bus.ops();
        let ghost core = self.core_base;
        self.usb2_power_on(bus);
        let ghost mut done = usb2_on_ops(self.usb2phy_base);
        let ghost before = bus.ops();
        let on = self.core_power_on(bus);
        let ghost (small, big) = choose|small: bool, big: bool|
            bus.ops() == before + #[trigger] core_on_ops(core, small, big) && (on is Ok) == (small
                && big);
        proof {
            append_assoc(start, done, core_on_ops(core, small, big));
            done = done + core_on_ops(core, small, big);
        }
        match on {
            Ok(()) => {},
            Err(error) => {
                assert(init_ops(self, small, big) == done);
                return Err(error);
            },
        }
        self.apply_mode_tunables(bus, AtcPhyMode::Usb3, self.swap_lanes);
        proof {
            let more = mode_tunable_ops(self, AtcPhyMode::Usb3, self.swap_lanes);
            append_assoc(start, done, more);
            done = done + more;
        }
        self.override_lanes(bus);
        proof {
            append_assoc(start, done, lane_override_ops(core));
            done = done + lane_override_ops(core);
        }
        self.configure_crossbar(bus);
        proof {
            append_assoc(start, done, crossbar_ops(core, self.swap_lanes));
            done = done + crossbar_ops(core, self.swap_lanes);
        }
        self.release_phy(bus);
        proof {
            append_assoc(start, done, phy_release_ops(core));
            done = done + phy_release_ops(core);
            assert(init_ops(self, small, big) == done);
        }
        Ok(())
    }

    /// Initialize the PHY in a DisplayPort-capable mode.
    pub fn init_dp<M: Mmio>(&mut self, bus: &mut Bus<M>, mode: AtcPhyMode) -> (r: Result<
        (),
        AtcPhyError,
    >)
        requires
            old(self).mapped(),
        ensures
            final(self).same_hardware(old(self)),
            final(self).swap_lanes == old(self).swap_lanes,
            final(self).pipehandler_up == pipe_up_after_dp(old(self), mode, r),
            init_dp_done(old(self), mode, old(bus).ops(), final(bus).ops(), r),
    {
        if self.lpdptx_base.is_none() || self.axi2af_base.is_none() {
            return Err(AtcPhyError::DisplayRegionsMissing);
        }
        let ghost start = bus.ops();
        let ghost phy = *self;
        let ghost core = self.core_base;
        let ghost ph = self.pipehandler_base;
        self.usb2_power_on(bus);
        let ghost mut done = usb2_on_ops(self.usb2phy_base);
        let ghost before = bus.ops();
        let on = self.core_power_on(bus);
        let ghost (small, big) = choose|small: bool, big: bool|
            bus.ops() == before + #[trigger] core_on_ops(core, small, big) && (on is Ok) == (small
                && big);
        let ghost mut o = DpOutcome {
            small,
            big,
            pipe: arbitrary::<PipeOutcome>(),
            mux: 0,
        };
        proof {
            append_assoc(start, done, core_on_ops(core, small, big));
            done = done + core_on_ops(core, small, big);
        }
        match on {
            Ok(()) => {},
            Err(error) => {
                assert(init_dp_ops(&phy, mode, o) == done);
                return Err(error);
            },
        }
        self.configure_crossbar(bus);
        proof {
            append_assoc(start, done, crossbar_ops(core, phy.swap_lanes));
            done = done + crossbar_ops(core, phy.swap_lanes);
        }
        self.apply_mode_tunables(bus, mode, self.swap_lanes);
        proof {
            let more = mode_tunable_ops(&phy, mode, phy.swap_lanes);
            append_assoc(start, done, more);
            done = done + more;
        }
        let ghost mut source: Seq<Op> = Seq::empty();
        let ghost base = bus.ops();
        assert(base =~= base + source);
        if !matches!(mode, AtcPhyMode::DisplayPort) {
            let up = self.configure_pipehandler_usb3(bus, true);
            proof {
                if !phy.pipehandler_up {
                    let pipe = choose|pipe: PipeOutcome|
                        bus.ops() == base + #[trigger] usb3_pipe_ops(core, ph, true, pipe) && up
                            == usb3_pipe_result(true, pipe);
                    o = DpOutcome { pipe, ..o };
                    source = usb3_pipe_ops(core, ph, true, pipe);
                }
            }
            match up {
                Ok(()) => {},
                Err(error) => {
                    proof {
                        append_assoc(start, done, source);
                        assert(dp_source_ops(&phy, mode, o) == source);
                        assert(init_dp_ops(&phy, mode, o) == done + source);
                    }
                    return Err(error);
                },
            }
        }
        if !matches!(mode, AtcPhyMode::Usb3) {
            let mux = self.configure_pipehandler_dp(bus);
            proof {
                o = DpOutcome { mux: mux@, ..o };
                append_assoc(base, source, dp_pipe_ops(ph, mux@));
                if mode == AtcPhyMode::DisplayPort {
                    assert(source + dp_pipe_ops(ph, mux@) =~= dp_pipe_ops(ph, mux@));
                }
                source = source + dp_pipe_ops(ph, mux@);
            }
        }
        proof {
            append_assoc(start, done, source);
            assert(dp_source_ops(&phy, mode, o) == source);
            assert(init_dp_ops(&phy, mode, o) == done + source);
        }
        Ok(())
    }

    /// Remember the plug orientation.
    pub fn set_orientation(&mut self, orientation: PhyOrientation)
        ensures
            final(self).same_hardware(old(self)),
            final(self).pipehandler_up == old(self).pipehandler_up,
            final(self).swap_lanes == (orientation == PhyOrientation::Reverse),
    {
        match orientation {
            PhyOrientation::Unplugged | PhyOrientation::Normal => {
                self.swap_lanes = false;
            },
            PhyOrientation::Reverse => {
                self.swap_lanes = true;
            },
        }
    }
}

/// The host field set or cleared for a USB 2 mode.
pub open spec fn usb2_mode_ops(usb2: usize, mode: PhyMode) -> Seq<Op> {
    match mode {
        PhyMode::UsbHost | PhyMode::UsbOtg => seq![set_bits(usb2, 0x08, USB2PHY_SIG_HOST)],
        PhyMode::UsbDevice => seq![clear_bits(usb2, 0x08, USB2PHY_SIG_HOST)],
        _ => Seq::empty(),
    }
}

/// The modes the USB 2 transceiver has.
pub open spec fn usb2_mode_result(mode: PhyMode) -> Result<(), PhyError> {
    match mode {
        PhyMode::UsbHost | PhyMode::UsbOtg | PhyMode::UsbDevice => Ok(()),
        _ => Err(PhyError::InvalidMode),
    }
}

/// The DWC3 reset sequence with what the pipehandler answered.
pub open spec fn assert_ops(phy: &AppleAtcPhy, o: PipeOutcome) -> Seq<Op> {
    let held = dwc3_assert_ops(phy.pipehandler_base);
    let off = usb2_off_ops(phy.usb2phy_base);
    if phy.pipehandler_up {
        held + dummy_pipe_ops(phy.pipehandler_base, o) + off
    } else {
        held + off
    }
}

/// The DWC3 core was put in reset; `up` tells whether the pipehandler still
/// counts as up.
pub open spec fn dwc3_assert_done(
    phy: &AppleAtcPhy,
    before: Seq<Op>,
    after: Seq<Op>,
    up: bool,
) -> bool {
    exists|o: PipeOutcome|
        after == before + #[trigger] assert_ops(phy, o) && up == (phy.pipehandler_up
            && dummy_pipe_result(o) is Err)
}

/// The bootloader state cleared, as far as the power domains went down.
pub open spec fn cleared_ops(phy: &AppleAtcPhy, big: bool, small: bool) -> Seq<Op> {
    let off = dwc3_assert_ops(phy.pipehandler_base) + usb2_off_ops(phy.usb2phy_base)
        + core_off_ops(phy.core_base, big, small);
    if core_off_result(big, small) is Ok {
        off + mux_ops(
            phy.pipehandler_base,
            PIPEHANDLER_MUX_CTRL_DATA_DUMMY,
            PIPEHANDLER_MUX_CTRL_CLK_DUMMY,
        )
    } else {
        off
    }
}


/// One lane of the PHY as its users see it.
pub struct AppleAtcPhyLane {
    pub lane: u32,
    pub mode: Option<PhyMode>,
    pub orientation: Option<PhyOrientation>,
}

/// The PHY mode a lane's requested mode asks for.
pub open spec fn requested_mode(mode: Option<PhyMode>) -> Result<AtcPhyMode, PhyError> {
    match mode {
        None => Ok(AtcPhyMode::Usb3),
        Some(PhyMode::UsbHost) => Ok(AtcPhyMode::Usb3),
        Some(PhyMode::UsbDevice) => Ok(AtcPhyMode::Usb3),
        Some(PhyMode::UsbOtg) => Ok(AtcPhyMode::Usb3),
        Some(PhyMode::DisplayPort) => Ok(AtcPhyMode::DisplayPort),
        Some(PhyMode::Other(n)) => if n == 0 {
            Ok(AtcPhyMode::Usb3)
        } else if n == 1 {
            Ok(AtcPhyMode::Usb3Dp)
        } else {
            Err(PhyError::InvalidMode)
        },
        Some(PhyMode::Unsupported) => Err(PhyError::InvalidMode),
    }
}

/// The modes a lane accepts.
pub open spec fn mode_accepted(mode: PhyMode) -> bool {
    match mode {
        PhyMode::Other(n) => n <= 1,
        PhyMode::Unsupported => false,
        _ => true,
    }
}

/// A lane was powered on: what was done to the PHY and how it ended.
pub open spec fn lane_powered_on(
    lane: &AppleAtcPhyLane,
    phy: &AppleAtcPhy,
    after_phy: &AppleAtcPhy,
    before: Seq<Op>,
    after: Seq<Op>,
    r: Result<(), PhyError>,
) -> bool {
    match requested_mode(lane.mode) {
        Err(error) => r == Err::<(), _>(error) && after == before && *after_phy == *phy,
        Ok(AtcPhyMode::Usb3) => if lane.lane == PHY_TYPE_USB2 {
            let mode = match lane.mode {
                Some(mode) => mode,
                None => PhyMode::UsbHost,
            };
            &&& after == before + usb2_mode_ops(phy.usb2phy_base, mode)
            &&& r == usb2_mode_result(mode)
            &&& *after_phy == *phy
        } else if lane.lane == PHY_TYPE_USB3 {
            &&& init_done(phy, before, after, r is Ok)
            &&& r is Err ==> r->Err_0 == PhyError::PowerOnFailed
            &&& *after_phy == *phy
        } else {
            r == Err::<(), _>(PhyError::PowerOnFailed) && after == before && *after_phy == *phy
        },
        Ok(mode) => {
            &&& after_phy.same_hardware(phy)
            &&& after_phy.swap_lanes == phy.swap_lanes
            &&& dp_powered_on(phy, mode, after_phy.pipehandler_up, before, after, r)
        },
    }
}

/// A lane was powered on in a DisplayPort mode.
pub open spec fn dp_powered_on(
    phy: &AppleAtcPhy,
    mode: AtcPhyMode,
    up: bool,
    before: Seq<Op>,
    after: Seq<Op>,
    r: Result<(), PhyError>,
) -> bool {
    exists|inner: Result<(), AtcPhyError>|
        {
            &&& #[trigger] init_dp_done(phy, mode, before, after, inner)
            &&& up == pipe_up_after_dp(phy, mode, inner)
            &&& r == (if inner is Ok {
                Ok::<(), PhyError>(())
            } else {
                Err(PhyError::PowerOnFailed)
            })
        }
}

/// What is done to the PHY when a lane changes its mode.
pub open spec fn lane_mode_set(
    lane: u32,
    mode: PhyMode,
    phy: &AppleAtcPhy,
    after_phy: &AppleAtcPhy,
    before: Seq<Op>,
    after: Seq<Op>,
    r: Result<(), PhyError>,
) -> bool {
    let nothing = after == before && *after_phy == *phy;
    if !mode_accepted(mode) {
        r == Err::<(), _>(PhyError::InvalidMode) && nothing
    } else if lane == PHY_TYPE_USB2 {
        &&& after == before + usb2_mode_ops(phy.usb2phy_base, mode)
        &&& r == usb2_mode_result(mode)
        &&& *after_phy == *phy
    } else if lane == PHY_TYPE_USB3 && mode != PhyMode::DisplayPort && mode != PhyMode::Other(1) {
        &&& after_phy.same_hardware(phy)
        &&& after_phy.swap_lanes == phy.swap_lanes
        &&& if phy.pipehandler_up {
            r is Ok && after == before && after_phy.pipehandler_up
        } else {
            &&& usb3_switched(phy, mode != PhyMode::UsbDevice, before, after, r)
            &&& after_phy.pipehandler_up == (r is Ok)
        }
    } else {
        r is Ok && nothing
    }
}

/// The pipehandler was switched to USB 3 on behalf of a lane.
pub open spec fn usb3_switched(
    phy: &AppleAtcPhy,
    host: bool,
    before: Seq<Op>,
    after: Seq<Op>,
    r: Result<(), PhyError>,
) -> bool {
    exists|o: PipeOutcome|
        {
            &&& after == before + #[trigger] usb3_pipe_ops(
                phy.core_base,
                phy.pipehandler_base,
                host,
                o,
            )
            &&& r == (if usb3_pipe_result(host, o) is Ok {
                Ok::<(), PhyError>(())
            } else {
                Err(PhyError::HardwareError)
            })
        }
}

/// A lane was powered off: what was done to the PHY and how it ended.
pub open spec fn lane_powered_off(
    lane: u32,
    phy: &AppleAtcPhy,
    after_phy: &AppleAtcPhy,
    before: Seq<Op>,
    after: Seq<Op>,
    r: Result<(), PhyError>,
) -> bool {
    if lane == PHY_TYPE_USB2 {
        after == before + usb2_off_ops(phy.usb2phy_base) && r is Ok && *after_phy == *phy
    } else if lane == PHY_TYPE_USB3 {
        &&& after_phy.same_hardware(phy)
        &&& after_phy.swap_lanes == phy.swap_lanes
        &&& !after_phy.pipehandler_up
        &&& exists|o: PipeOutcome, big: bool, small: bool|
            {
                &&& after == before + #[trigger] lane_off_ops(phy, o, big, small)
                &&& r == (if core_off_result(big, small) is Ok {
                    Ok::<(), PhyError>(())
                } else {
                    Err(PhyError::PowerOffFailed)
                })
            }
    } else {
        after == before && r == Err::<(), _>(PhyError::PowerOffFailed) && *after_phy == *phy
    }
}

/// The pipehandler parked, then the core powered off.
pub open spec fn lane_off_ops(
    phy: &AppleAtcPhy,
    o: PipeOutcome,
    big: bool,
    small: bool,
) -> Seq<Op> {
    dummy_pipe_ops(phy.pipehandler_base, o) + core_off_ops(phy.core_base, big, small)
}

impl AppleAtcPhyLane {
    pub fn new(phy_type: u32) -> (r: Self)
        ensures
            r == (AppleAtcPhyLane {
                lane: phy_type,
                mode: None::<PhyMode>,
                orientation: None::<PhyOrientation>,
            }),
    {
        AppleAtcPhyLane { lane: phy_type, mode: None, orientation: None }
    }

    pub fn phy_type(&self) -> (r: u32)
        ensures
            r == self.lane,
    {
        self.lane
    }

    pub fn name(&self) -> (r: &'static str)
        ensures
            r@ == (if self.lane == PHY_TYPE_USB2 {
                "apple-atcphy-usb2"@
            } else if self.lane == PHY_TYPE_USB3 {
                "apple-atcphy-usb3"@
            } else {
                "apple-atcphy-lane"@
            }),
    {
        if self.lane == PHY_TYPE_USB2 {
            "apple-atcphy-usb2"
        } else if self.lane == PHY_TYPE_USB3 {
            "apple-atcphy-usb3"
        } else {
            "apple-atcphy-lane"
        }
    }

    /// The PHY mode the current lane mode asks for.
    pub fn atc_mode(&self) -> (r: Result<AtcPhyMode, PhyError>)
        ensures
            r == requested_mode(self.mode),
    {
        match self.mode {
            None => Ok(AtcPhyMode::Usb3),
            Some(PhyMode::UsbHost) => Ok(AtcPhyMode::Usb3),
            Some(PhyMode::UsbDevice) => Ok(AtcPhyMode::Usb3),
            Some(PhyMode::UsbOtg) => Ok(AtcPhyMode::Usb3),
            Some(PhyMode::DisplayPort) => Ok(AtcPhyMode::DisplayPort),
            Some(PhyMode::Other(n)) => {
                if n == 0 {
                    Ok(AtcPhyMode::Usb3)
                } else if n == 1 {
                    Ok(AtcPhyMode::Usb3Dp)
                } else {
                    Err(PhyError::InvalidMode)
                }
            },
            Some(PhyMode::Unsupported) => Err(PhyError::InvalidMode),
        }
    }

    /// Power the lane on in its current mode.
    pub fn power_on<M: Mmio>(&self, phy: &mut AppleAtcPhy, bus: &mut Bus<M>) -> (r: Result<
        (),
        PhyError,
    >)
        requires
            old(phy).mapped(),
        ensures
            lane_powered_on(self, old(phy), final(phy), old(bus).ops(), final(bus).ops(), r),
    {
        let ghost start = bus.ops();
        let ghost before = *phy;
        let mode = match self.atc_mode() {
            Ok(mode) => mode,
            Err(error) => {
                return Err(error);
            },
        };
        match mode {
            AtcPhyMode::Usb3 => {
                if self.lane == PHY_TYPE_USB2 {
                    let phy_mode = match self.mode {
                        Some(mode) => mode,
                        None => PhyMode::UsbHost,
                    };
                    phy.usb2_set_mode(bus, phy_mode)
                } else if self.lane == PHY_TYPE_USB3 {
                    match phy.init(bus) {
                        Ok(()) => Ok(()),
                        Err(_) => Err(PhyError::PowerOnFailed),
                    }
                } else {
                    Err(PhyError::PowerOnFailed)
                }
            },
            _ => {
                let inner = phy.init_dp(bus, mode);
                assert(init_dp_done(&before, mode, start, bus.ops(), inner));
                match inner {
                    Ok(()) => Ok(()),
                    Err(_) => Err(PhyError::PowerOnFailed),
                }
            },
        }
    }

    /// Power the lane off.
    pub fn power_off<M: Mmio>(&self, phy: &mut AppleAtcPhy, bus: &mut Bus<M>) -> (r: Result<
        (),
        PhyError,
    >)
        requires
            old(phy).mapped(),
        ensures
            lane_powered_off(self.lane, old(phy), final(phy), old(bus).ops(), final(bus).ops(), r),
    {
        let ghost start = bus.ops();
        let ghost before = *phy;
        if self.lane == PHY_TYPE_USB2 {
            phy.usb2_power_off(bus);
            Ok(())
        } else if self.lane == PHY_TYPE_USB3 {
            let parked = phy.configure_pipehandler_dummy(bus);
            let ghost o = choose|o: PipeOutcome|
                bus.ops() == start + #[trigger] dummy_pipe_ops(before.pipehandler_base, o)
                    && parked == dummy_pipe_result(o);
            let ghost middle = bus.ops();
            phy.pipehandler_up = false;
            let off = phy.core_power_off(bus);
            proof {
                let (big, small) = choose|big: bool, small: bool|
                    bus.ops() == middle + #[trigger] core_off_ops(before.core_base, big, small)
                        && off == core_off_result(big, small);
                append_assoc(
                    start,
                    dummy_pipe_ops(before.pipehandler_base, o),
                    core_off_ops(before.core_base, big, small),
                );
                assert(bus.ops() == start + lane_off_ops(&before, o, big, small));
            }
            match off {
                Ok(()) => Ok(()),
                Err(_) => Err(PhyError::PowerOffFailed),
            }
        } else {
            Err(PhyError::PowerOffFailed)
        }
    }

    /// Power the lane on again; a failed power-on counts as a failed reset.
    pub fn reset<M: Mmio>(&self, phy: &mut AppleAtcPhy, bus: &mut Bus<M>) -> (r: Result<
        (),
        PhyError,
    >)
        requires
            old(phy).mapped(),
        ensures
            lane_reset(self, old(phy), final(phy), old(bus).ops(), final(bus).ops(), r),
    {
        let ghost start = bus.ops();
        let ghost before = *phy;
        let inner = self.power_on(phy, bus);
        assert(lane_powered_on(self, &before, phy, start, bus.ops(), inner));
        if let Err(PhyError::PowerOnFailed) = inner {
            return Err(PhyError::ResetFailed);
        }
        inner
    }

    /// Change the mode of the lane.
    pub fn set_mode<M: Mmio>(
        &mut self,
        phy: &mut AppleAtcPhy,
        bus: &mut Bus<M>,
        mode: PhyMode,
    ) -> (r: Result<(), PhyError>)
        requires
            old(phy).mapped(),
        ensures
            final(self).lane == old(self).lane,
            final(self).orientation == old(self).orientation,
            final(self).mode == (if mode_accepted(mode) {
                Some(mode)
            } else {
                old(self).mode
            }),
            lane_mode_set(
                old(self).lane,
                mode,
                old(phy),
                final(phy),
                old(bus).ops(),
                final(bus).ops(),
                r,
            ),
    {
        let accepted = match mode {
            PhyMode::Other(n) => n <= 1,
            PhyMode::Unsupported => false,
            _ => true,
        };
        if !accepted {
            return Err(PhyError::InvalidMode);
        }
        self.mode = Some(mode);
        if self.lane == PHY_TYPE_USB2 {
            return phy.usb2_set_mode(bus, mode);
        }
        if self.lane == PHY_TYPE_USB3 {
            let usb = match mode {
                PhyMode::UsbHost | PhyMode::UsbOtg | PhyMode::UsbDevice => true,
                PhyMode::Other(n) => n == 0,
                _ => false,
            };
            if usb {
                let host = !matches!(mode, PhyMode::UsbDevice);
                match phy.configure_pipehandler_usb3(bus, host) {
                    Ok(()) => {},
                    Err(_) => {
                        return Err(PhyError::HardwareError);
                    },
                }
            }
        }
        Ok(())
    }

    pub fn get_mode(&self) -> (r: Option<PhyMode>)
        ensures
            r == self.mode,
    {
        self.mode
    }

    /// Change the plug orientation. The USB 3 lane drives the crossbar, once
    /// it has a mode.
    pub fn set_orientation<M: Mmio>(
        &mut self,
        phy: &mut AppleAtcPhy,
        bus: &mut Bus<M>,
        orientation: PhyOrientation,
    )
        requires
            old(phy).mapped(),
        ensures
            final(self).lane == old(self).lane,
            final(self).mode == old(self).mode,
            final(self).orientation == Some(orientation),
            old(self).lane != PHY_TYPE_USB3 ==> *final(phy) == *old(phy) && final(bus).ops() == old(
                bus,
            ).ops(),
            old(self).lane == PHY_TYPE_USB3 ==> {
                &&& final(phy).same_hardware(old(phy))
                &&& final(phy).pipehandler_up == old(phy).pipehandler_up
                &&& final(phy).swap_lanes == (orientation == PhyOrientation::Reverse)
                &&& final(bus).ops() == old(bus).ops() + (if old(self).mode is Some {
                    crossbar_ops(old(phy).core_base, orientation == PhyOrientation::Reverse)
                } else {
                    Seq::empty()
                })
            },
    {
        self.orientation = Some(orientation);
        if self.lane == PHY_TYPE_USB3 {
            phy.set_orientation(orientation);
            if self.mode.is_some() {
                phy.configure_crossbar(bus);
            }
        }
    }

    pub fn get_orientation(&self) -> (r: Option<PhyOrientation>)
        ensures
            r == self.orientation,
    {
        self.orientation
    }
}

/// A lane was reset: powered on, with its own error for a failed power-on.
pub open spec fn lane_reset(
    lane: &AppleAtcPhyLane,
    phy: &AppleAtcPhy,
    after_phy: &AppleAtcPhy,
    before: Seq<Op>,
    after: Seq<Op>,
    r: Result<(), PhyError>,
) -> bool {
    exists|inner: Result<(), PhyError>|
        {
            &&& #[trigger] lane_powered_on(lane, phy, after_phy, before, after, inner)
            &&& r == (if inner == Err::<(), _>(PhyError::PowerOnFailed) {
                Err(PhyError::ResetFailed)
            } else {
                inner
            })
        }
}

/// The lanes of a PHY, addressed by one specifier cell.
pub struct AppleAtcPhyProvider {
    pub lanes: [AppleAtcPhyLane; 2],
}

impl AppleAtcPhyProvider {
    pub fn new() -> (r: Self)
        ensures
            r.lanes@[0].lane == PHY_TYPE_USB2,
            r.lanes@[1].lane == PHY_TYPE_USB3,
            r.lanes@[0].mode is None,
            r.lanes@[1].mode is None,
    {
        AppleAtcPhyProvider {
            lanes: [AppleAtcPhyLane::new(PHY_TYPE_USB2), AppleAtcPhyLane::new(PHY_TYPE_USB3)],
        }
    }

    pub fn phy_cells(&self) -> (r: usize)
        ensures
            r == 1,
    {
        1
    }

    /// Index of the lane a specifier names.
    pub fn get_phy(&self, spec_cells: &[u32]) -> (r: Result<usize, PhyError>)
        ensures
            r == lane_of_spec(spec_cells@, self.lanes@[0].lane, self.lanes@[1].lane),
    {
        if spec_cells.len() != 1 {
            return Err(PhyError::NotFound);
        }
        let cell: u32 = spec_cells[0];
        if self.lanes[0].lane == cell {
            Ok(0)
        } else if self.lanes[1].lane == cell {
            Ok(1)
        } else {
            Err(PhyError::NotFound)
        }
    }
}

/// The lane named by a specifier of exactly one cell.
pub open spec fn lane_of_spec(cells: Seq<u32>, lane0: u32, lane1: u32) -> Result<usize, PhyError> {
    if cells.len() != 1 {
        Err(PhyError::NotFound)
    } else if cells[0] == lane0 {
        Ok(0)
    } else if cells[0] == lane1 {
        Ok(1)
    } else {
        Err(PhyError::NotFound)
    }
}

/// Register an ATC PHY instance; returns its identifier.
pub fn register_atcphy(
    registry: &mut Registry<AppleAtcPhy>,
    phy: AppleAtcPhy,
    phandle: u32,
) -> (id: u32)
    requires
        old(registry)@.len() <= u32::MAX,
    ensures
        id == old(registry)@.len(),
        final(registry)@ == old(registry)@.push((phandle, phy)),
{
    registry.register(phy, phandle)
}

/// Look up a registered ATC PHY instance by identifier.
pub fn get_atcphy(registry: &Registry<AppleAtcPhy>, id: u32) -> (r: Option<&AppleAtcPhy>)
    ensures
        r is Some <==> id < registry@.len(),
        r is Some ==> *r->0 == registry@[id as int].1,
{
    registry.get(id)
}

/// Look up the first ATC PHY instance registered under a phandle.
pub fn get_atcphy_by_phandle(registry: &Registry<AppleAtcPhy>, phandle: u32) -> (r: Option<
    &AppleAtcPhy,
>)
    ensures
        match first_with_phandle(registry@, phandle, 0) {
            Some(i) => r == Some(&registry@[i].1),
            None => r is None,
        },
{
    registry.get_by_phandle(phandle)
}

/// Bounds of a resource make sense.
pub open spec fn sound_region(region: Option<Resource>) -> bool {
    region matches Some(m) ==> m.start <= m.end && m.end - m.start < usize::MAX
}

/// Start and length of a memory range.
pub open spec fn block_of(m: Resource) -> (usize, usize) {
    (m.start, (m.end - m.start + 1) as usize)
}

/// The five register blocks of a PHY in order: core, display transmitter,
/// AXI bridge, USB 2 and pipehandler, each as start and length.
pub fn register_blocks(resources: &[Resource]) -> (r: Result<Vec<(usize, usize)>, AtcPhyError>)
    requires
        forall|n: int|
            0 <= n < 5 ==> sound_region(#[trigger] nth_of(resources@, ResourceKind::Mem, 0, n)),
    ensures
        if exists|n: int|
            0 <= n < 5 && #[trigger] nth_of(resources@, ResourceKind::Mem, 0, n) is None {
            r is Err && r->Err_0 == AtcPhyError::TooFewRegions
        } else {
            &&& r is Ok
            &&& r->Ok_0@.len() == 5
            &&& forall|n: int|
                0 <= n < 5 ==> #[trigger] r->Ok_0@[n] == block_of(
                    nth_of(resources@, ResourceKind::Mem, 0, n)->0,
                )
        },
{
    let mut blocks: Vec<(usize, usize)> = Vec::new();
    let mut n: usize = 0;
    while n < 5
        invariant
            n <= 5,
            blocks@.len() == n,
            forall|k: int|
                0 <= k < 5 ==> sound_region(#[trigger] nth_of(resources@, ResourceKind::Mem, 0, k)),
            forall|k: int|
                0 <= k < n ==> (#[trigger] nth_of(resources@, ResourceKind::Mem, 0, k)) is Some,
            forall|k: int|
                0 <= k < n ==> #[trigger] blocks@[k] == block_of(
                    nth_of(resources@, ResourceKind::Mem, 0, k)->0,
                ),
        decreases 5 - n,
    {
        match nth_resource(resources, ResourceKind::Mem, n) {
            Some(m) => {
                assert(sound_region(nth_of(resources@, ResourceKind::Mem, 0, n as int)));
                blocks.push((m.start, m.end - m.start + 1));
            },
            None => {
                assert(nth_of(resources@, ResourceKind::Mem, 0, n as int) is None);
                return Err(AtcPhyError::TooFewRegions);
            },
        }
        n = n + 1;
    }
    Ok(blocks)
}

} // verus!
