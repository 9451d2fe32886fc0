//! ASC: the mailbox between the application processor and a coprocessor.

use crate::bus::{clear_bits, rd, reg, wr, Bus, Mmio, Op};
use crate::registry::Registry;
use vstd::prelude::*;

verus! {

pub const ASC_CPU_CONTROL: usize = 0x0044;

pub const ASC_CPU_CONTROL_START: u32 = 0x10;

pub const ASC_MBOX_A2I_CONTROL: usize = 0x0110;

pub const ASC_MBOX_I2A_CONTROL: usize = 0x0114;

pub const ASC_MBOX_CTRL_FULL: u32 = 0x1_0000;

pub const ASC_MBOX_CTRL_EMPTY: u32 = 0x2_0000;

pub const ASC_MBOX_A2I_SEND0: usize = 0x0800;

pub const ASC_MBOX_A2I_SEND1: usize = 0x0808;

pub const ASC_MBOX_I2A_RECV0: usize = 0x0830;

pub const ASC_MBOX_I2A_RECV1: usize = 0x0838;

pub const ASC_SEND_TIMEOUT_US: u64 = 1_000_000;

pub const ASC_POLL_DELAY_US: u64 = 1;

/// One ASC mailbox message pair.
#[derive(Clone, Copy, Debug, PartialEq, Eq, Structural)]
pub struct AscMessage {
    /// Primary 64-bit payload.
    pub msg0: u64,
    /// Secondary 32-bit payload (typically endpoint ID).
    pub msg1: u32,
}

/// Why a mailbox transfer failed.
#[derive(Clone, Copy, Debug, PartialEq, Eq, Structural)]
pub enum AscError {
    /// The mailbox stayed full.
    SendTimeout,
    /// There is no message.
    NoMessage,
    /// No message came in time.
    RecvTimeout,
}

impl AscError {
    /// The message as contracts speak of it.
    pub open spec fn text(self) -> Seq<char> {
        match self {
            AscError::SendTimeout => "apple-asc: send mailbox full timeout"@,
            AscError::NoMessage => "apple-asc: no message available"@,
            AscError::RecvTimeout => "apple-asc: recv timeout"@,
        }
    }

    /// The message for the kernel log.
    pub fn message(self) -> (r: &'static str)
        ensures
            r@ == self.text(),
    {
        match self {
            AscError::SendTimeout => "apple-asc: send mailbox full timeout",
            AscError::NoMessage => "apple-asc: no message available",
            AscError::RecvTimeout => "apple-asc: recv timeout",
        }
    }
}

/// What passed through a mailbox.
pub enum Traffic {
    /// The coprocessor was started.
    Started,
    /// The coprocessor was stopped.
    Stopped,
    /// A message went to the coprocessor.
    Sent(AscMessage),
    /// A message came from the coprocessor.
    Received(AscMessage),
}

/// Time passed since `start`, zero for a clock that went backwards.
pub open spec fn elapsed_since(start: u64, now: u64) -> int {
    if now >= start {
        now - start
    } else {
        0
    }
}

/// Polls of a status register that missed: the status, then the clock, then a
/// wait.
pub open spec fn miss_ops(addr: usize, misses: Seq<(u32, u64)>) -> Seq<Op>
    decreases misses.len(),
{
    if misses.len() == 0 {
        Seq::empty()
    } else {
        miss_ops(addr, misses.drop_last()) + seq![
            Op::Read { addr, value: misses.last().0 },
            Op::Clock { now: misses.last().1 },
            Op::Delay { us: ASC_POLL_DELAY_US },
        ]
    }
}

/// A wait for a status bit to clear.
pub open spec fn wait_ops(
    addr: usize,
    t0: u64,
    misses: Seq<(u32, u64)>,
    last: Seq<Op>,
) -> Seq<Op> {
    seq![Op::Clock { now: t0 }] + miss_ops(addr, misses) + last
}

/// Every miss found the bit set before the time was up.
pub open spec fn all_missed(misses: Seq<(u32, u64)>, bit: u32, t0: u64, timeout: u64) -> bool {
    forall|i: int|
        0 <= i < misses.len() ==> {
            &&& (#[trigger] misses[i]).0 & bit != 0
            &&& elapsed_since(t0, misses[i].1) < timeout
        }
}

/// How a wait ends: with the bit clear, or with the time up (or, on a clock
/// that stands still, with the number of polls exhausted).
pub open spec fn wait_end(
    last: Seq<Op>,
    addr: usize,
    bit: u32,
    t0: u64,
    timeout: u64,
    polls: int,
    ok: bool,
) -> bool {
    if ok {
        &&& last.len() == 1
        &&& last[0] is Read
        &&& last[0]->Read_addr == addr
        &&& last[0]->Read_value & bit == 0
    } else {
        ||| last.len() == 0 && polls == u64::MAX
        ||| {
            &&& last.len() == 2
            &&& last[0] is Read
            &&& last[0]->Read_addr == addr
            &&& last[0]->Read_value & bit != 0
            &&& last[1] is Clock
            &&& elapsed_since(t0, last[1]->Clock_now) >= timeout
        }
    }
}

/// The operations of a wait for a status bit to clear; `ok` tells whether it
/// did in time.
pub open spec fn waited(ops: Seq<Op>, addr: usize, bit: u32, timeout: u64, ok: bool) -> bool {
    exists|t0: u64, misses: Seq<(u32, u64)>, last: Seq<Op>|
        {
            &&& ops == #[trigger] wait_ops(addr, t0, misses, last)
            &&& all_missed(misses, bit, t0, timeout)
            &&& wait_end(last, addr, bit, t0, timeout, misses.len() as int, ok)
        }
}

/// Wait for a status bit to clear.
fn wait_clear<M: Mmio>(bus: &mut Bus<M>, addr: usize, bit: u32, timeout_us: u64) -> (r: (
    bool,
    Ghost<Seq<Op>>,
))
    ensures
        final(bus).ops() == old(bus).ops() + r.1@,
        waited(r.1@, addr, bit, timeout_us, r.0),
{
    let ghost before = bus.ops();
    let start: u64 = bus.current_time();
    let mut polls: u64 = 0;
    let ghost mut misses: Seq<(u32, u64)> = Seq::empty();
    let ghost head = seq![Op::Clock { now: start }];
    assert(bus.ops() =~= before + (head + miss_ops(addr, misses)));
    while polls < u64::MAX
        invariant
            polls == misses.len(),
            before == old(bus).ops(),
            head == seq![Op::Clock { now: start }],
            bus.ops() == before + (head + miss_ops(addr, misses)),
            all_missed(misses, bit, start, timeout_us),
        decreases u64::MAX - polls,
    {
        let status: u32 = bus.read32(addr);
        if status & bit == 0 {
            let ghost last = seq![Op::Read { addr, value: status }];
            let ghost all = wait_ops(addr, start, misses, last);
            assert(bus.ops() =~= before + all);
            assert(waited(all, addr, bit, timeout_us, true));
            return (true, Ghost(all));
        }
        let now: u64 = bus.current_time();
        let passed: u64 = if now >= start {
            now - start
        } else {
            0
        };
        if passed >= timeout_us {
            let ghost last = seq![Op::Read { addr, value: status }, Op::Clock { now }];
            let ghost all = wait_ops(addr, start, misses, last);
            assert(bus.ops() =~= before + all);
            assert(waited(all, addr, bit, timeout_us, false));
            return (false, Ghost(all));
        }
        bus.udelay(ASC_POLL_DELAY_US);
        proof {
            let next = misses.push((status, now));
            assert(next.drop_last() =~= misses);
            assert(bus.ops() =~= before + (head + miss_ops(addr, next)));
            misses = next;
        }
        polls = polls + 1;
    }
    let ghost all = wait_ops(addr, start, misses, Seq::empty());
    assert(bus.ops() =~= before + all);
    assert(waited(all, addr, bit, timeout_us, false));
    (false, Ghost(all))
}

/// Apple ASC mailbox.
pub struct AppleAsc {
    base: usize,
    traffic: Ghost<Seq<Traffic>>,
}

/// The operations that put a message into the mailbox.
pub open spec fn post_ops(base: usize, msg: AscMessage) -> Seq<Op> {
    seq![
        Op::Fence,
        Op::Write64 { addr: reg(base, 0x800), wide: msg.msg0 },
        Op::Write64 { addr: reg(base, 0x808), wide: msg.msg1 as u64 },
    ]
}

/// The operations that take a message out of the mailbox.
pub open spec fn fetch_ops(base: usize, status: u32, msg0: u64, msg1: u64) -> Seq<Op> {
    if status & ASC_MBOX_CTRL_EMPTY == 0 {
        seq![
            rd(base, 0x114, status),
            Op::Read64 { addr: reg(base, 0x830), wide: msg0 },
            Op::Read64 { addr: reg(base, 0x838), wide: msg1 },
            Op::Fence,
        ]
    } else {
        seq![rd(base, 0x114, status)]
    }
}

impl AppleAsc {
    /// Base address of the register block.
    pub closed spec fn at(&self) -> usize {
        self.base
    }

    /// Everything that passed through this mailbox, in order.
    pub closed spec fn traffic(&self) -> Seq<Traffic> {
        self.traffic@
    }

    /// The register block lies in the address space.
    pub open spec fn mapped(&self) -> bool {
        self.at() + 0x840 <= usize::MAX
    }

    /// Create a new ASC instance from a mapped base address.
    pub fn new(base: usize) -> (r: Self)
        ensures
            r.at() == base,
            r.traffic() == Seq::<Traffic>::empty(),
    {
        AppleAsc { base, traffic: Ghost(Seq::empty()) }
    }

    /// Start the coprocessor.
    pub fn cpu_start<M: Mmio>(&mut self, bus: &mut Bus<M>)
        requires
            old(self).mapped(),
        ensures
            final(self).at() == old(self).at(),
            final(self).traffic() == old(self).traffic().push(Traffic::Started),
            final(bus).ops() == old(bus).ops().push(
                wr(old(self).at(), 0x44, ASC_CPU_CONTROL_START),
            ),
    {
        bus.write32(self.base + ASC_CPU_CONTROL, ASC_CPU_CONTROL_START);
        self.traffic = Ghost(self.traffic@.push(Traffic::Started));
    }

    /// Stop the coprocessor.
    pub fn cpu_stop<M: Mmio>(&mut self, bus: &mut Bus<M>)
        requires
            old(self).mapped(),
        ensures
            final(self).at() == old(self).at(),
            final(self).traffic() == old(self).traffic().push(Traffic::Stopped),
            final(bus).ops() == old(bus).ops().push(
                clear_bits(old(self).at(), 0x44, ASC_CPU_CONTROL_START),
            ),
    {
        bus.clear32(self.base + ASC_CPU_CONTROL, ASC_CPU_CONTROL_START);
        self.traffic = Ghost(self.traffic@.push(Traffic::Stopped));
    }

    /// Check whether there is a pending message from the coprocessor.
    pub fn can_recv<M: Mmio>(&self, bus: &mut Bus<M>) -> (r: bool)
        requires
            self.mapped(),
        ensures
            exists|status: u32|
                {
                    &&& final(bus).ops() == old(bus).ops().push(
                        #[trigger] rd(self.at(), 0x114, status),
                    )
                    &&& r == (status & ASC_MBOX_CTRL_EMPTY == 0)
                },
    {
        let status: u32 = bus.read32(self.base + ASC_MBOX_I2A_CONTROL);
        let ghost op = rd(self.base, 0x114, status);
        (status & ASC_MBOX_CTRL_EMPTY) == 0
    }

    /// Send one message to the coprocessor, waiting while the mailbox is full.
    pub fn send<M: Mmio>(&mut self, bus: &mut Bus<M>, msg: &AscMessage) -> (r: Result<
        (),
        AscError,
    >)
        requires
            old(self).mapped(),
        ensures
            final(self).at() == old(self).at(),
            r is Ok ==> final(self).traffic() == old(self).traffic().push(Traffic::Sent(*msg)),
            r is Err ==> r->Err_0 == AscError::SendTimeout && final(self).traffic() == old(
                self,
            ).traffic(),
            send_done(old(bus).ops(), final(bus).ops(), old(self).at(), *msg, r is Ok),
    {
        let ghost before = bus.ops();
        let (free, trace) = wait_clear(
            bus,
            self.base + ASC_MBOX_A2I_CONTROL,
            ASC_MBOX_CTRL_FULL,
            ASC_SEND_TIMEOUT_US,
        );
        let ghost wait = trace@;
        if !free {
            assert(sent_with(before, bus.ops(), self.at(), *msg, false, wait));
            return Err(AscError::SendTimeout);
        }
        bus.barrier();
        bus.write64(self.base + ASC_MBOX_A2I_SEND0, msg.msg0);
        bus.write64(self.base + ASC_MBOX_A2I_SEND1, msg.msg1 as u64);
        self.traffic = Ghost(self.traffic@.push(Traffic::Sent(*msg)));
        assert(bus.ops() =~= before + (wait + post_ops(self.at(), *msg)));
        assert(sent_with(before, bus.ops(), self.at(), *msg, true, wait));
        Ok(())
    }

    /// Receive one message from the coprocessor, where there is one.
    pub fn recv<M: Mmio>(&mut self, bus: &mut Bus<M>, msg: &mut AscMessage) -> (r: Result<
        (),
        AscError,
    >)
        requires
            old(self).mapped(),
        ensures
            final(self).at() == old(self).at(),
            r is Ok ==> final(self).traffic() == old(self).traffic().push(
                Traffic::Received(*final(msg)),
            ),
            r is Err ==> r->Err_0 == AscError::NoMessage && final(self).traffic() == old(
                self,
            ).traffic() && *final(msg) == *old(msg),
            exists|status: u32, msg0: u64, msg1: u64|
                {
                    &&& final(bus).ops() == old(bus).ops() + #[trigger] fetch_ops(
                        old(self).at(),
                        status,
                        msg0,
                        msg1,
                    )
                    &&& (r is Ok) == (status & ASC_MBOX_CTRL_EMPTY == 0)
                    &&& r is Ok ==> final(msg).msg0 == msg0 && final(msg).msg1 == msg1 as u32
                },
    {
        let ghost before = bus.ops();
        let status: u32 = bus.read32(self.base + ASC_MBOX_I2A_CONTROL);
        if status & ASC_MBOX_CTRL_EMPTY != 0 {
            assert(bus.ops() =~= before + fetch_ops(self.at(), status, 0, 0));
            return Err(AscError::NoMessage);
        }
        let msg0: u64 = bus.read64(self.base + ASC_MBOX_I2A_RECV0);
        let msg1: u64 = bus.read64(self.base + ASC_MBOX_I2A_RECV1);
        msg.msg0 = msg0;
        msg.msg1 = msg1 as u32;
        bus.barrier();
        self.traffic = Ghost(self.traffic@.push(Traffic::Received(*msg)));
        assert(bus.ops() =~= before + fetch_ops(self.at(), status, msg0, msg1));
        Ok(())
    }

    /// Receive one message, waiting for it.
    pub fn recv_timeout<M: Mmio>(
        &mut self,
        bus: &mut Bus<M>,
        msg: &mut AscMessage,
        timeout_us: u64,
    ) -> (r: Result<(), AscError>)
        requires
            old(self).mapped(),
        ensures
            final(self).at() == old(self).at(),
            r is Ok ==> final(self).traffic() == old(self).traffic().push(
                Traffic::Received(*final(msg)),
            ),
            r is Err ==> final(self).traffic() == old(self).traffic() && *final(msg) == *old(msg),
            r is Err ==> r->Err_0 == AscError::RecvTimeout || r->Err_0 == AscError::NoMessage,
            recv_done(
                old(bus).ops(),
                final(bus).ops(),
                old(self).at(),
                timeout_us,
                *final(msg),
                failure_of(r),
            ),
    {
        let ghost before = bus.ops();
        let (there, trace) = wait_clear(
            bus,
            self.base + ASC_MBOX_I2A_CONTROL,
            ASC_MBOX_CTRL_EMPTY,
            timeout_us,
        );
        let ghost wait = trace@;
        if !there {
            let ghost failure = Some(AscError::RecvTimeout);
            assert(received_with(before, bus.ops(), self.at(), timeout_us, *msg, failure, wait));
            return Err(AscError::RecvTimeout);
        }
        let ghost middle = bus.ops();
        let r = self.recv(bus, msg);
        let ghost failure = failure_of(r);
        assert(fetched_after(middle, bus.ops(), self.at(), *msg, failure));
        assert(received_with(before, bus.ops(), self.at(), timeout_us, *msg, failure, wait));
        r
    }
}

/// A message was posted after the given wait, or the wait failed.
pub open spec fn sent_with(
    before: Seq<Op>,
    after: Seq<Op>,
    base: usize,
    msg: AscMessage,
    ok: bool,
    wait: Seq<Op>,
) -> bool {
    &&& waited(wait, reg(base, 0x110), ASC_MBOX_CTRL_FULL, ASC_SEND_TIMEOUT_US, ok)
    &&& after == before + (if ok {
        wait + post_ops(base, msg)
    } else {
        wait
    })
}

/// A message was posted as soon as the mailbox had room, or it never had.
pub open spec fn send_done(
    before: Seq<Op>,
    after: Seq<Op>,
    base: usize,
    msg: AscMessage,
    ok: bool,
) -> bool {
    exists|wait: Seq<Op>| #[trigger] sent_with(before, after, base, msg, ok, wait)
}

/// Why a transfer failed, where it did.
pub open spec fn failure_of(r: Result<(), AscError>) -> Option<AscError> {
    match r {
        Ok(_) => None,
        Err(e) => Some(e),
    }
}

/// A message was fetched after the given wait, or the wait failed.
pub open spec fn received_with(
    before: Seq<Op>,
    after: Seq<Op>,
    base: usize,
    timeout_us: u64,
    msg: AscMessage,
    failure: Option<AscError>,
    wait: Seq<Op>,
) -> bool {
    let in_time = failure != Some(AscError::RecvTimeout);
    &&& waited(wait, reg(base, 0x114), ASC_MBOX_CTRL_EMPTY, timeout_us, in_time)
    &&& fetched_after(before + wait, after, base, msg, failure)
}

/// A message was fetched as soon as there was one, or none came in time.
pub open spec fn recv_done(
    before: Seq<Op>,
    after: Seq<Op>,
    base: usize,
    timeout_us: u64,
    msg: AscMessage,
    failure: Option<AscError>,
) -> bool {
    exists|wait: Seq<Op>| #[trigger] received_with(before, after, base, timeout_us, msg, failure, wait)
}

/// After the wait the message was taken out; nothing more was done where the
/// wait failed.
pub open spec fn fetched_after(
    before: Seq<Op>,
    after: Seq<Op>,
    base: usize,
    msg: AscMessage,
    failure: Option<AscError>,
) -> bool {
    if failure == Some(AscError::RecvTimeout) {
        after == before
    } else {
        exists|status: u32, msg0: u64, msg1: u64|
            {
                &&& after == before + #[trigger] fetch_ops(base, status, msg0, msg1)
                &&& (failure is None) == (status & ASC_MBOX_CTRL_EMPTY == 0)
                &&& failure is None ==> msg == (AscMessage { msg0, msg1: msg1 as u32 })
            }
    }
}

/// A probed ASC mailbox by identifier.
pub fn get_apple_asc(registry: &Registry<AppleAsc>, id: u32) -> (r: Option<&AppleAsc>)
    ensures
        r is Some <==> id < registry@.len(),
        r is Some ==> *r->0 == registry@[id as int].1,
{
    registry.get(id)
}

} // verus!
