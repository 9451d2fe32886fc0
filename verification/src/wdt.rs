//! Watchdog timer.

use crate::bus::{rd, reg, registers_after, wr, Bus, Mmio, Op};
use crate::ports::clocks::{NamedClockCall, NamedClockPort, NamedClocks};
use vstd::prelude::*;

verus! {

pub const APPLE_WDT_WD1_CUR_TIME: usize = 0x10;

pub const APPLE_WDT_WD1_BITE_TIME: usize = 0x14;

pub const APPLE_WDT_WD1_CTRL: usize = 0x1c;

pub const APPLE_WDT_CTRL_RESET_EN: u32 = 4;

pub const APPLE_WDT_DEFAULT_TIMEOUT_MS: u32 = 30_000;

pub const APPLE_WDT_DEFAULT_CLK_HZ: u64 = 24_000_000;

/// Why a watchdog request was refused.
#[derive(Clone, Copy, Debug, PartialEq, Eq, Structural)]
pub enum WatchdogError {
    InvalidTimeout,
    AlreadyRunning,
}

/// The clock rate to count with: that of the clock, or the usual one where
/// there is no clock or it has no rate.
pub fn clock_rate(rate: Option<u64>) -> (r: u64)
    ensures
        r == (match rate {
            Some(hz) => if hz != 0 {
                hz
            } else {
                24_000_000
            },
            None => 24_000_000,
        }),
{
    match rate {
        Some(hz) => if hz != 0 {
            hz
        } else {
            APPLE_WDT_DEFAULT_CLK_HZ
        },
        None => APPLE_WDT_DEFAULT_CLK_HZ,
    }
}

/// Ticks of a clock in a time.
pub open spec fn ticks_of(timeout_ms: u32, clk_rate_hz: u64) -> int {
    (timeout_ms * clk_rate_hz) / 1000
}

/// A time that the counter can hold.
pub open spec fn countable(timeout_ms: u32, clk_rate_hz: u64) -> bool {
    &&& timeout_ms * clk_rate_hz <= u64::MAX
    &&& 0 < ticks_of(timeout_ms, clk_rate_hz) <= u32::MAX
}

/// The time that a number of ticks takes, cut to 32 bits.
pub open spec fn time_of(ticks: u32, clk_rate_hz: u64) -> u32 {
    ((ticks as u64 * 1000) as u64 / clk_rate_hz) as u32
}

/// Milliseconds that are counted for a timeout.
pub open spec fn actual_timeout(timeout_ms: u32, clk_rate_hz: u64) -> u32 {
    time_of(ticks_of(timeout_ms, clk_rate_hz) as u32, clk_rate_hz)
}

/// The watchdog never waits longer than it was asked to.
pub proof fn timeout_is_not_exceeded(timeout_ms: u32, clk_rate_hz: u64)
    requires
        clk_rate_hz > 0,
        countable(timeout_ms, clk_rate_hz),
    ensures
        actual_timeout(timeout_ms, clk_rate_hz) <= timeout_ms,
        actual_timeout(timeout_ms, clk_rate_hz) == (ticks_of(timeout_ms, clk_rate_hz) * 1000)
            / clk_rate_hz as int,
{
    let ticks = ticks_of(timeout_ms, clk_rate_hz);
    let rate = clk_rate_hz as int;
    assert(ticks * 1000 <= timeout_ms * rate);
    assert((ticks * 1000) / rate <= timeout_ms) by (nonlinear_arith)
        requires
            rate > 0,
            ticks * 1000 <= timeout_ms * rate,
    ;
    assert((ticks * 1000) / rate >= 0) by (nonlinear_arith)
        requires
            rate > 0,
            ticks >= 0,
    ;
}

/// Apple Silicon watchdog.
pub struct AppleWdt {
    pub base_addr: usize,
    pub clk_rate_hz: u64,
    /// Timeout in force, zero before one was set.
    pub timeout_ms: u32,
}

/// Timeout that a start with the given argument programs, where it does.
pub open spec fn started_timeout(wdt: &AppleWdt, timeout_ms: u32) -> Option<u32> {
    if timeout_ms != 0 {
        Some(timeout_ms)
    } else if wdt.timeout_ms == 0 {
        Some(30_000)
    } else {
        None
    }
}

/// How a start goes that found `ctrl` in the control register.
pub open spec fn start_result(wdt: &AppleWdt, timeout_ms: u32, ctrl: u32) -> Result<
    (),
    WatchdogError,
> {
    if ctrl & 4 != 0 {
        Err(WatchdogError::AlreadyRunning)
    } else {
        match started_timeout(wdt, timeout_ms) {
            Some(ms) => if countable(ms, wdt.clk_rate_hz) {
                Ok(())
            } else {
                Err(WatchdogError::InvalidTimeout)
            },
            None => Ok(()),
        }
    }
}

/// The accesses of a start.
pub open spec fn start_ops(wdt: &AppleWdt, timeout_ms: u32, ctrl: u32) -> Seq<Op> {
    let look = seq![rd(wdt.base_addr, 0x1c, ctrl)];
    let go = seq![wr(wdt.base_addr, 0x10, 0), wr(wdt.base_addr, 0x1c, 4)];
    if start_result(wdt, timeout_ms, ctrl) is Err {
        look
    } else {
        match started_timeout(wdt, timeout_ms) {
            Some(ms) => look + seq![
                wr(wdt.base_addr, 0x14, ticks_of(ms, wdt.clk_rate_hz) as u32),
            ] + go,
            None => look + go,
        }
    }
}

impl AppleWdt {
    /// Registers lie in the address space and the clock runs.
    pub open spec fn wf(&self) -> bool {
        self.base_addr + 0x20 <= usize::MAX && self.clk_rate_hz > 0
    }

    pub fn new(base_addr: usize, clk_rate_hz: u64) -> (r: Self)
        ensures
            r.base_addr == base_addr,
            r.clk_rate_hz == clk_rate_hz,
            r.timeout_ms == 0,
    {
        AppleWdt { base_addr, clk_rate_hz, timeout_ms: 0 }
    }

    pub fn name(&self) -> (r: &'static str)
        ensures
            r@ == "apple-wdt"@,
    {
        "apple-wdt"
    }

    fn timeout_to_ticks(&self, timeout_ms: u32) -> (r: Result<u32, WatchdogError>)
        ensures
            match r {
                Ok(ticks) => countable(timeout_ms, self.clk_rate_hz) && ticks == ticks_of(
                    timeout_ms,
                    self.clk_rate_hz,
                ),
                Err(e) => !countable(timeout_ms, self.clk_rate_hz) && e
                    == WatchdogError::InvalidTimeout,
            },
    {
        if timeout_ms == 0 {
            assert(timeout_ms * self.clk_rate_hz == 0) by (nonlinear_arith)
                requires
                    timeout_ms == 0,
            ;
            return Err(WatchdogError::InvalidTimeout);
        }
        let product: u64 = match (timeout_ms as u64).checked_mul(self.clk_rate_hz) {
            Some(product) => product,
            None => {
                return Err(WatchdogError::InvalidTimeout);
            },
        };
        let ticks: u64 = product / 1000;
        if ticks == 0 || ticks > 0xffff_ffff {
            return Err(WatchdogError::InvalidTimeout);
        }
        Ok(ticks as u32)
    }

    fn ticks_to_timeout_ms(&self, ticks: u32) -> (r: u32)
        requires
            self.clk_rate_hz > 0,
        ensures
            r == time_of(ticks, self.clk_rate_hz),
    {
        ((ticks as u64 * 1000) / self.clk_rate_hz) as u32
    }

    /// Stop the watchdog and read the register back.
    pub fn disable<M: Mmio>(&self, bus: &mut Bus<M>) -> (ctrl: u32)
        requires
            self.wf(),
        ensures
            final(bus).ops() == old(bus).ops() + seq![
                wr(self.base_addr, 0x1c, 0),
                rd(self.base_addr, 0x1c, ctrl),
            ],
    {
        let ghost start = bus.ops();
        bus.write32(self.base_addr + APPLE_WDT_WD1_CTRL, 0);
        let ctrl: u32 = bus.read32(self.base_addr + APPLE_WDT_WD1_CTRL);
        assert(bus.ops() =~= start + seq![
            wr(self.base_addr, 0x1c, 0),
            rd(self.base_addr, 0x1c, ctrl),
        ]);
        ctrl
    }

    /// Start the watchdog; a timeout of zero keeps the one in force, or
    /// takes the default.
    pub fn start<M: Mmio>(&mut self, bus: &mut Bus<M>, timeout_ms: u32) -> (r: Result<
        (),
        WatchdogError,
    >)
        requires
            old(self).wf(),
        ensures
            final(self).wf(),
            final(self).base_addr == old(self).base_addr,
            final(self).clk_rate_hz == old(self).clk_rate_hz,
            exists|ctrl: u32|
                r == #[trigger] start_result(old(self), timeout_ms, ctrl) && final(bus).ops()
                    == old(bus).ops() + start_ops(old(self), timeout_ms, ctrl),
            r is Err ==> final(self).timeout_ms == old(self).timeout_ms,
            r is Ok ==> final(self).timeout_ms == (match started_timeout(old(self), timeout_ms) {
                Some(ms) => actual_timeout(ms, old(self).clk_rate_hz),
                None => old(self).timeout_ms,
            }),
    {
        let ghost before = bus.ops();
        let ctrl: u32 = bus.read32(self.base_addr + APPLE_WDT_WD1_CTRL);
        if ctrl & APPLE_WDT_CTRL_RESET_EN != 0 {
            let r = Err(WatchdogError::AlreadyRunning);
            assert(bus.ops() =~= before + start_ops(old(self), timeout_ms, ctrl));
            assert(r == start_result(old(self), timeout_ms, ctrl));
            return r;
        }
        let set: u32 = if timeout_ms != 0 {
            timeout_ms
        } else if self.get_timeout().is_none() {
            APPLE_WDT_DEFAULT_TIMEOUT_MS
        } else {
            0
        };
        if set != 0 {
            match self.set_timeout(bus, set) {
                Ok(_) => {},
                Err(e) => {
                    let r = Err(e);
                    assert(bus.ops() =~= before + start_ops(old(self), timeout_ms, ctrl));
                    assert(r == start_result(old(self), timeout_ms, ctrl));
                    return r;
                },
            }
        }
        self.ping(bus);
        bus.write32(self.base_addr + APPLE_WDT_WD1_CTRL, APPLE_WDT_CTRL_RESET_EN);
        assert(bus.ops() =~= before + start_ops(old(self), timeout_ms, ctrl));
        assert(start_result(old(self), timeout_ms, ctrl) is Ok);
        Ok(())
    }

    pub fn stop<M: Mmio>(&self, bus: &mut Bus<M>) -> (r: Result<(), WatchdogError>)
        requires
            self.wf(),
        ensures
            r is Ok,
            exists|ctrl: u32|
                final(bus).ops() == old(bus).ops() + seq![
                    wr(self.base_addr, 0x1c, 0),
                    #[trigger] rd(self.base_addr, 0x1c, ctrl),
                ],
    {
        let ctrl: u32 = self.disable(bus);
        assert(bus.ops() == old(bus).ops() + seq![
            wr(self.base_addr, 0x1c, 0),
            rd(self.base_addr, 0x1c, ctrl),
        ]);
        Ok(())
    }

    /// Start the count anew.
    pub fn ping<M: Mmio>(&self, bus: &mut Bus<M>)
        requires
            self.wf(),
        ensures
            final(bus).ops() == old(bus).ops().push(wr(self.base_addr, 0x10, 0)),
    {
        bus.write32(self.base_addr + APPLE_WDT_WD1_CUR_TIME, 0);
    }

    pub fn is_running<M: Mmio>(&self, bus: &mut Bus<M>) -> (r: bool)
        requires
            self.wf(),
        ensures
            exists|ctrl: u32|
                r == (ctrl & 4 != 0) && final(bus).ops() == old(bus).ops().push(
                    #[trigger] rd(self.base_addr, 0x1c, ctrl),
                ),
    {
        let ctrl: u32 = bus.read32(self.base_addr + APPLE_WDT_WD1_CTRL);
        assert(bus.ops() == old(bus).ops().push(rd(self.base_addr, 0x1c, ctrl)));
        (ctrl & APPLE_WDT_CTRL_RESET_EN) != 0
    }

    /// Program a timeout; returns the one that is counted.
    pub fn set_timeout<M: Mmio>(&mut self, bus: &mut Bus<M>, timeout_ms: u32) -> (r: Result<
        u32,
        WatchdogError,
    >)
        requires
            old(self).wf(),
        ensures
            final(self).base_addr == old(self).base_addr,
            final(self).clk_rate_hz == old(self).clk_rate_hz,
            match r {
                Ok(ms) => {
                    &&& countable(timeout_ms, old(self).clk_rate_hz)
                    &&& ms == actual_timeout(timeout_ms, old(self).clk_rate_hz)
                    &&& final(self).timeout_ms == ms
                    &&& final(bus).ops() == old(bus).ops().push(
                        wr(
                            old(self).base_addr,
                            0x14,
                            ticks_of(timeout_ms, old(self).clk_rate_hz) as u32,
                        ),
                    )
                },
                Err(e) => {
                    &&& !countable(timeout_ms, old(self).clk_rate_hz)
                    &&& e == WatchdogError::InvalidTimeout
                    &&& final(self).timeout_ms == old(self).timeout_ms
                    &&& final(bus).ops() == old(bus).ops()
                },
            },
    {
        let ticks: u32 = match self.timeout_to_ticks(timeout_ms) {
            Ok(ticks) => ticks,
            Err(e) => {
                return Err(e);
            },
        };
        bus.write32(self.base_addr + APPLE_WDT_WD1_BITE_TIME, ticks);
        let actual_ms: u32 = self.ticks_to_timeout_ms(ticks);
        self.timeout_ms = actual_ms;
        Ok(actual_ms)
    }

    pub fn get_timeout(&self) -> (r: Option<u32>)
        ensures
            r == (if self.timeout_ms == 0 {
                None
            } else {
                Some(self.timeout_ms)
            }),
    {
        match self.timeout_ms {
            0 => None,
            timeout_ms => Some(timeout_ms),
        }
    }

    /// The longest time that the counter can hold.
    pub fn max_timeout(&self) -> (r: u32)
        requires
            self.clk_rate_hz > 0,
        ensures
            r == (if 0xffff_ffffu64 * 1000 / self.clk_rate_hz as int > u32::MAX {
                u32::MAX as int
            } else {
                0xffff_ffffu64 * 1000 / self.clk_rate_hz as int
            }),
    {
        let timeout_ms: u64 = (0xffff_ffffu64 * 1000) / self.clk_rate_hz;
        if timeout_ms > 0xffff_ffff {
            0xffff_ffff
        } else {
            timeout_ms as u32
        }
    }
}

/// The names under which the clock is looked for, in order.
pub open spec fn clock_name(n: int) -> Seq<char> {
    if n == 0 {
        "wdt"@
    } else if n == 1 {
        "ref"@
    } else {
        "bus"@
    }
}

/// The lookups of the first `n` names, none of which found a clock.
pub open spec fn fruitless<K>(n: int) -> Seq<NamedClockCall<K>> {
    Seq::new(n as nat, |i: int| NamedClockCall::Resolve { name: clock_name(i), found: None })
}

/// The clock under name `n` was found and switched on, or could not be.
pub open spec fn clock_taken<K>(
    before: Seq<NamedClockCall<K>>,
    after: Seq<NamedClockCall<K>>,
    n: int,
    clock: K,
    done: bool,
) -> bool {
    after == before + fruitless(n) + seq![
        NamedClockCall::Resolve { name: clock_name(n), found: Some(clock) },
        NamedClockCall::Enable { clock, done },
    ]
}

/// Finds the clock of the watchdog and switches it on: the first that is found
/// under the names `wdt`, `ref` and `bus`. One that cannot be switched on is
/// not used, and no other is tried.
pub fn resolve_watchdog_clk<K, S: NamedClocks<K>>(port: &mut NamedClockPort<K, S>) -> (r: Option<K>)
    ensures
        r is Some ==> exists|n: int|
            0 <= n < 3 && #[trigger] clock_taken(
                old(port).log(),
                final(port).log(),
                n,
                r->0,
                true,
            ),
        r is None ==> final(port).log() == old(port).log() + fruitless::<K>(3) || exists|
            n: int,
            clock: K,
        |
            0 <= n < 3 && #[trigger] clock_taken(
                old(port).log(),
                final(port).log(),
                n,
                clock,
                false,
            ),
{
    let ghost start = port.log();
    let mut n: usize = 0;
    assert(start =~= start + fruitless::<K>(0));
    while n < 3
        invariant
            n <= 3,
            start == old(port).log(),
            port.log() == start + fruitless::<K>(n as int),
        decreases 3 - n,
    {
        let name: &str = if n == 0 {
            "wdt"
        } else if n == 1 {
            "ref"
        } else {
            "bus"
        };
        match port.resolve(name) {
            Some(clock) => {
                let done = port.enable(&clock);
                assert(port.log() =~= start + fruitless::<K>(n as int) + seq![
                    NamedClockCall::Resolve { name: clock_name(n as int), found: Some(clock) },
                    NamedClockCall::Enable { clock, done },
                ]);
                assert(clock_taken(start, port.log(), n as int, clock, done));
                if !done {
                    return None;
                }
                return Some(clock);
            },
            None => {},
        }
        assert(port.log() =~= start + fruitless::<K>(n + 1));
        n = n + 1;
    }
    None
}

/// A start that succeeds leaves the watchdog running with its count at zero,
/// and a stop leaves it standing.
pub proof fn start_runs_and_stop_halts(
    wdt: &AppleWdt,
    timeout_ms: u32,
    ctrl: u32,
    seen: u32,
    regs: Map<usize, u32>,
)
    requires
        wdt.wf(),
    ensures
        start_result(wdt, timeout_ms, ctrl) is Ok ==> {
            let after = registers_after(start_ops(wdt, timeout_ms, ctrl), regs);
            after[reg(wdt.base_addr, 0x1c)] & 4 != 0 && after[reg(wdt.base_addr, 0x10)] == 0
        },
        registers_after(
            seq![wr(wdt.base_addr, 0x1c, 0), rd(wdt.base_addr, 0x1c, seen)],
            regs,
        )[reg(wdt.base_addr, 0x1c)] & 4 == 0,
{
    crate::arith::flags_combine();
    let stop = seq![wr(wdt.base_addr, 0x1c, 0), rd(wdt.base_addr, 0x1c, seen)];
    assert(stop.drop_last() =~= seq![wr(wdt.base_addr, 0x1c, 0)]);
    reveal_with_fuel(registers_after, 3);
    if start_result(wdt, timeout_ms, ctrl) is Ok {
        let ops = start_ops(wdt, timeout_ms, ctrl);
        assert(ops.last() == wr(wdt.base_addr, 0x1c, 4));
        assert(ops.drop_last().last() == wr(wdt.base_addr, 0x10, 0));
    }
}

} // verus!
