//! Access to device registers, with a record of everything that was done.
//!
//! Memory that is shared with a device is accessed in the same way. Where such
//! memory comes from is part of the record, too.
//!
//! A driver never touches the hardware directly: it goes through a [`Bus`],
//! which keeps a ghost record of every access in program order. Contracts of
//! drivers speak of that record. The record has two layers. `events` holds the
//! single accesses. `ops` holds the same accesses grouped into operations: a
//! read-modify-write or a bounded poll is one operation there. The layers are
//! kept in step: [`realizes`] relates them.

use crate::platform::FrameSource;
use crate::wire::Wire;
use vstd::prelude::*;

verus! {

/// The machine's register, shared memory and timer primitives. Nothing is assumed of the
/// values that come back.
pub trait Mmio {
    fn read8(&mut self, addr: usize) -> u8;

    fn write8(&mut self, addr: usize, value: u8);

    fn read32(&mut self, addr: usize) -> u32;

    fn write32(&mut self, addr: usize, value: u32);

    fn read64(&mut self, addr: usize) -> u64;

    fn write64(&mut self, addr: usize, value: u64);

    /// Wait for a number of microseconds.
    fn udelay(&mut self, us: u64);

    /// The monotonic clock in microseconds.
    fn current_time(&mut self) -> u64;

    /// Order all earlier accesses before all later ones.
    fn barrier(&mut self);

    /// Write cached changes of a range of memory back.
    fn clean_cache(&mut self, addr: usize, len: usize);

    /// Drop a range of memory from the cache.
    fn invalidate_cache(&mut self, addr: usize, len: usize);

    /// Write cached changes of a range of memory back and drop it from the
    /// cache.
    fn clean_invalidate_cache(&mut self, addr: usize, len: usize);
}

/// What a poll waits for.
#[derive(Clone, Copy, Debug, PartialEq, Eq, Structural)]
pub enum Until {
    /// All bits of the mask are set.
    AllSet,
    /// Some bit of the mask is set.
    AnySet,
    /// No bit of the mask is set.
    Clear,
    /// The value is the mask itself.
    Equal,
}

/// The condition of a poll on a value that was read.
pub open spec fn met(until: Until, mask: u32, value: u32) -> bool {
    match until {
        Until::AllSet => value & mask == mask,
        Until::AnySet => value & mask != 0,
        Until::Clear => value & mask == 0,
        Until::Equal => value == mask,
    }
}

/// One recorded operation.
pub enum Op {
    /// A byte read and what it returned.
    Read8 { addr: usize, byte: u8 },
    /// A byte written.
    Write8 { addr: usize, byte: u8 },
    /// A 32-bit read and what it returned.
    Read { addr: usize, value: u32 },
    /// A 32-bit write.
    Write { addr: usize, value: u32 },
    /// A 64-bit read and what it returned.
    Read64 { addr: usize, wide: u64 },
    /// A 64-bit write.
    Write64 { addr: usize, wide: u64 },
    /// A wait.
    Delay { us: u64 },
    /// The clock was read.
    Clock { now: u64 },
    /// A barrier.
    Fence,
    /// Cached changes of a range were written back.
    Clean { addr: usize, len: usize },
    /// A range was dropped from the cache.
    Invalidate { addr: usize, len: usize },
    /// Cached changes of a range were written back and it was dropped.
    CleanInvalidate { addr: usize, len: usize },
    /// Read, clear the bits of `clear`, set those of `set`, write back.
    Update { addr: usize, clear: u32, set: u32 },
    /// Read, replace the bits of `mask` by `value`, write back where that
    /// changes something.
    Tune { addr: usize, mask: u32, value: u32 },
    /// Read until a condition is met, at most `tries` times, with a wait of
    /// `step_us` behind each miss, or none where that is zero. `hit` tells
    /// whether it was met.
    Poll { addr: usize, mask: u32, until: Until, tries: nat, step_us: u64, hit: bool },
    /// Bytes read from ascending addresses.
    ReadBytes { addr: usize, bytes: Seq<u8> },
    /// Bytes written to ascending addresses.
    WriteBytes { addr: usize, bytes: Seq<u8> },
    /// A page frame was asked for; its physical address came back.
    Frame { frame: Option<u64> },
    /// Where a physical address is mapped was asked for.
    Lookup { paddr: u64, vaddr: usize },
}

/// The address of a register in a block.
pub open spec fn reg(base: usize, offset: int) -> usize {
    (base + offset) as usize
}

/// A write to a register of a block.
pub open spec fn wr(base: usize, offset: int, value: u32) -> Op {
    Op::Write { addr: reg(base, offset), value }
}

/// A read of a register of a block.
pub open spec fn rd(base: usize, offset: int, value: u32) -> Op {
    Op::Read { addr: reg(base, offset), value }
}

/// Bits set in a register of a block.
pub open spec fn set_bits(base: usize, offset: int, bits: u32) -> Op {
    Op::Update { addr: reg(base, offset), clear: 0, set: bits }
}

/// Bits cleared in a register of a block.
pub open spec fn clear_bits(base: usize, offset: int, bits: u32) -> Op {
    Op::Update { addr: reg(base, offset), clear: bits, set: 0 }
}

/// A field replaced in a register of a block.
pub open spec fn replace_bits(base: usize, offset: int, mask: u32, value: u32) -> Op {
    Op::Update { addr: reg(base, offset), clear: mask, set: value }
}

/// A wait.
pub open spec fn wait(us: u64) -> Op {
    Op::Delay { us }
}

/// A register value with the bits of `clear` taken out and those of `set` put
/// in.
pub open spec fn updated(value: u32, clear: u32, set: u32) -> u32 {
    (value & !clear) | set
}

/// Reads that missed, each with a wait behind it where the step is not zero.
pub open spec fn misses(addr: usize, values: Seq<u32>, step_us: u64) -> Seq<Op>
    decreases values.len(),
{
    if values.len() == 0 {
        Seq::empty()
    } else {
        let before = misses(addr, values.drop_last(), step_us).push(
            Op::Read { addr, value: values.last() },
        );
        if step_us == 0 {
            before
        } else {
            before.push(Op::Delay { us: step_us })
        }
    }
}

/// None of the values meets the condition.
pub open spec fn all_missed(values: Seq<u32>, mask: u32, until: Until) -> bool {
    forall|j: int| 0 <= j < values.len() ==> !met(until, mask, #[trigger] values[j])
}

/// The events of a poll that read the given values in vain and then, with a
/// hit, the value `last`.
pub open spec fn polled_from(
    events: Seq<Op>,
    addr: usize,
    mask: u32,
    until: Until,
    tries: nat,
    step_us: u64,
    hit: bool,
    values: Seq<u32>,
    last: u32,
) -> bool {
    &&& all_missed(values, mask, until)
    &&& if hit {
        &&& values.len() < tries
        &&& met(until, mask, last)
        &&& events == misses(addr, values, step_us).push(Op::Read { addr, value: last })
    } else {
        &&& values.len() == tries
        &&& events == misses(addr, values, step_us)
    }
}

/// The events of a poll.
pub open spec fn poll_events(
    events: Seq<Op>,
    addr: usize,
    mask: u32,
    until: Until,
    tries: nat,
    step_us: u64,
    hit: bool,
) -> bool {
    exists|values: Seq<u32>, last: u32| #[trigger]
        polled_from(events, addr, mask, until, tries, step_us, hit, values, last)
}

/// A single access, in contrast to an operation made of several.
pub open spec fn single(op: Op) -> bool {
    match op {
        Op::Update { .. } => false,
        Op::Tune { .. } => false,
        Op::Poll { .. } => false,
        Op::ReadBytes { .. } => false,
        Op::WriteBytes { .. } => false,
        _ => true,
    }
}

/// The events an operation stands for.
pub open spec fn performs(op: Op, events: Seq<Op>) -> bool {
    match op {
        Op::Update { addr, clear, set } => update_events(events, addr, clear, set),
        Op::Tune { addr, mask, value } => tune_events(events, addr, mask, value),
        Op::Poll { addr, mask, until, tries, step_us, hit } => poll_events(
            events,
            addr,
            mask,
            until,
            tries,
            step_us,
            hit,
        ),
        Op::ReadBytes { addr, bytes } => events == byte_reads(addr, bytes),
        Op::WriteBytes { addr, bytes } => events == byte_writes(addr, bytes),
        _ => events == seq![op],
    }
}

/// One read for each byte.
pub open spec fn byte_reads(addr: usize, bytes: Seq<u8>) -> Seq<Op> {
    Seq::new(bytes.len(), |i: int| Op::Read8 { addr: reg(addr, i), byte: bytes[i] })
}

/// One write for each byte.
pub open spec fn byte_writes(addr: usize, bytes: Seq<u8>) -> Seq<Op> {
    Seq::new(bytes.len(), |i: int| Op::Write8 { addr: reg(addr, i), byte: bytes[i] })
}

/// A read followed by a write.
pub open spec fn rmw(addr: usize, before: u32, after: u32) -> Seq<Op> {
    seq![Op::Read { addr, value: before }, Op::Write { addr, value: after }]
}

/// A read followed by a write of a changed value.
pub open spec fn tuned(addr: usize, before: u32, after: u32) -> Seq<Op> {
    if after == before {
        seq![Op::Read { addr, value: before }]
    } else {
        rmw(addr, before, after)
    }
}

/// The events of an update that found the value `v`.
pub open spec fn updates_from(events: Seq<Op>, addr: usize, clear: u32, set: u32, v: u32) -> bool {
    events == rmw(addr, v, updated(v, clear, set))
}

/// The events of a tuning that found the value `v`.
pub open spec fn tunes_from(events: Seq<Op>, addr: usize, mask: u32, value: u32, v: u32) -> bool {
    events == tuned(addr, v, updated(v, mask, value))
}

/// The events of an update.
pub open spec fn update_events(events: Seq<Op>, addr: usize, clear: u32, set: u32) -> bool {
    exists|v: u32| #[trigger] updates_from(events, addr, clear, set, v)
}

/// The events of a tuning.
pub open spec fn tune_events(events: Seq<Op>, addr: usize, mask: u32, value: u32) -> bool {
    exists|v: u32| #[trigger] tunes_from(events, addr, mask, value, v)
}

/// The operations, carried out one behind the other, are exactly the events.
pub open spec fn realizes(ops: Seq<Op>, events: Seq<Op>) -> bool
    decreases ops.len(),
{
    if ops.len() == 0 {
        events.len() == 0
    } else {
        exists|k: int|
            {
                &&& 0 <= k <= events.len()
                &&& realizes(ops.drop_last(), #[trigger] events.take(k))
                &&& performs(ops.last(), events.skip(k))
            }
    }
}

/// The registers of a machine, with a record of all accesses.
pub struct Bus<M: Mmio> {
    wire: Wire<M>,
}

impl<M: Mmio> Bus<M> {
    /// The recorded operations.
    pub closed spec fn ops(&self) -> Seq<Op> {
        self.wire.ops()
    }

    /// The recorded accesses.
    pub closed spec fn events(&self) -> Seq<Op> {
        self.wire.events()
    }

    /// A bus with an empty record.
    pub fn new(inner: M) -> (r: Self)
        ensures
            r.behind() == inner,
            r.ops() == Seq::<Op>::empty(),
            r.events() == Seq::<Op>::empty(),
    {
        Bus { wire: Wire::new(inner) }
    }

    /// What is behind the record.
    pub closed spec fn behind(&self) -> M {
        self.wire.behind()
    }

    /// Gives the machine back.
    pub fn into_inner(self) -> (r: M)
        ensures
            r == self.behind(),
    {
        self.wire.into_inner()
    }

    /// The recorded operations stand for exactly the recorded accesses.
    pub fn record_is_in_step(&self)
        ensures
            realizes(self.ops(), self.events()),
    {
        self.wire.record_is_in_step();
    }

    pub fn read32(&mut self, addr: usize) -> (value: u32)
        ensures
            final(self).ops() == old(self).ops().push(Op::Read { addr, value }),
    {
        self.wire.read32(addr)
    }

    pub fn write32(&mut self, addr: usize, value: u32)
        ensures
            final(self).ops() == old(self).ops().push(Op::Write { addr, value }),
    {
        self.wire.write32(addr, value);
    }

    pub fn read64(&mut self, addr: usize) -> (value: u64)
        ensures
            final(self).ops() == old(self).ops().push(Op::Read64 { addr, wide: value }),
    {
        self.wire.read64(addr)
    }

    pub fn write64(&mut self, addr: usize, value: u64)
        ensures
            final(self).ops() == old(self).ops().push(Op::Write64 { addr, wide: value }),
    {
        self.wire.write64(addr, value);
    }

    pub fn udelay(&mut self, us: u64)
        ensures
            final(self).ops() == old(self).ops().push(Op::Delay { us }),
    {
        self.wire.udelay(us);
    }

    pub fn current_time(&mut self) -> (now: u64)
        ensures
            final(self).ops() == old(self).ops().push(Op::Clock { now }),
    {
        self.wire.current_time()
    }

    /// Allocates one page frame and returns its physical address.
    pub fn alloc_frame<F: FrameSource>(&mut self, frames: &mut F) -> (frame: Option<u64>)
        ensures
            final(self).ops() == old(self).ops().push(Op::Frame { frame }),
    {
        self.wire.alloc_frame(frames)
    }

    /// Where a physical address is mapped.
    pub fn phys_to_virt<F: FrameSource>(&mut self, frames: &mut F, paddr: u64) -> (vaddr: usize)
        ensures
            final(self).ops() == old(self).ops().push(Op::Lookup { paddr, vaddr }),
    {
        self.wire.phys_to_virt(frames, paddr)
    }

    pub fn barrier(&mut self)
        ensures
            final(self).ops() == old(self).ops().push(Op::Fence),
    {
        self.wire.barrier();
    }

    pub fn clean_cache(&mut self, addr: usize, len: usize)
        ensures
            final(self).ops() == old(self).ops().push(Op::Clean { addr, len }),
    {
        self.wire.clean_cache(addr, len);
    }

    pub fn invalidate_cache(&mut self, addr: usize, len: usize)
        ensures
            final(self).ops() == old(self).ops().push(Op::Invalidate { addr, len }),
    {
        self.wire.invalidate_cache(addr, len);
    }

    pub fn clean_invalidate_cache(&mut self, addr: usize, len: usize)
        ensures
            final(self).ops() == old(self).ops().push(Op::CleanInvalidate { addr, len }),
    {
        self.wire.clean_invalidate_cache(addr, len);
    }

    /// Read, clear some bits, set some bits, write back.
    pub fn mask32(&mut self, addr: usize, clear: u32, set: u32)
        ensures
            final(self).ops() == old(self).ops().push(Op::Update { addr, clear, set }),
    {
        let ghost before = self.ops();
        let value: u32 = self.wire.read32(addr);
        self.wire.write32(addr, (value & !clear) | set);
        let ghost op = Op::Update { addr, clear, set };
        let ghost more = rmw(addr, value, updated(value, clear, set));
        assert(self.ops() =~= before + more);
        assert(updates_from(more, addr, clear, set, value));
        self.wire.fold(Ghost(before), Ghost(more), Ghost(op));
    }

    /// Read, set some bits, write back.
    pub fn set32(&mut self, addr: usize, bits: u32)
        ensures
            final(self).ops() == old(self).ops().push(Op::Update { addr, clear: 0, set: bits }),
    {
        self.mask32(addr, 0, bits);
    }

    /// Read, clear some bits, write back.
    pub fn clear32(&mut self, addr: usize, bits: u32)
        ensures
            final(self).ops() == old(self).ops().push(Op::Update { addr, clear: bits, set: 0 }),
    {
        self.mask32(addr, bits, 0);
    }

    /// Replace the bits of a mask, writing only where that changes something.
    pub fn tune32(&mut self, addr: usize, mask: u32, value: u32)
        ensures
            final(self).ops() == old(self).ops().push(Op::Tune { addr, mask, value }),
    {
        let ghost start = self.ops();
        let before: u32 = self.wire.read32(addr);
        let after: u32 = (before & !mask) | value;
        if after != before {
            self.wire.write32(addr, after);
        }
        let ghost op = Op::Tune { addr, mask, value };
        let ghost more = tuned(addr, before, updated(before, mask, value));
        assert(self.ops() =~= start + more);
        assert(tunes_from(more, addr, mask, value, before));
        self.wire.fold(Ghost(start), Ghost(more), Ghost(op));
    }

    /// Read bytes from ascending addresses.
    pub fn read_bytes(&mut self, addr: usize, len: usize) -> (bytes: Vec<u8>)
        requires
            addr + len <= usize::MAX,
        ensures
            bytes@.len() == len,
            final(self).ops() == old(self).ops().push(Op::ReadBytes { addr, bytes: bytes@ }),
    {
        let ghost before = self.ops();
        let mut bytes: Vec<u8> = Vec::new();
        let mut i: usize = 0;
        assert(self.ops() =~= before + byte_reads(addr, bytes@));
        while i < len
            invariant
                i <= len,
                addr + len <= usize::MAX,
                bytes@.len() == i,
                before == old(self).ops(),
                self.ops() == before + byte_reads(addr, bytes@),
            decreases len - i,
        {
            let byte: u8 = self.wire.read8(addr + i);
            bytes.push(byte);
            assert(self.ops() =~= before + byte_reads(addr, bytes@));
            i = i + 1;
        }
        let ghost op = Op::ReadBytes { addr, bytes: bytes@ };
        self.wire.fold(Ghost(before), Ghost(byte_reads(addr, bytes@)), Ghost(op));
        bytes
    }

    /// Write bytes to ascending addresses.
    pub fn write_bytes(&mut self, addr: usize, bytes: &[u8])
        requires
            addr + bytes@.len() <= usize::MAX,
        ensures
            final(self).ops() == old(self).ops().push(Op::WriteBytes { addr, bytes: bytes@ }),
    {
        let ghost before = self.ops();
        let len: usize = bytes.len();
        let mut i: usize = 0;
        assert(self.ops() =~= before + byte_writes(addr, bytes@.take(0)));
        while i < len
            invariant
                i <= len,
                len == bytes@.len(),
                addr + len <= usize::MAX,
                before == old(self).ops(),
                self.ops() == before + byte_writes(addr, bytes@.take(i as int)),
            decreases len - i,
        {
            self.wire.write8(addr + i, bytes[i]);
            assert(self.ops() =~= before + byte_writes(addr, bytes@.take(i + 1)));
            i = i + 1;
        }
        assert(bytes@.take(len as int) =~= bytes@);
        let ghost op = Op::WriteBytes { addr, bytes: bytes@ };
        self.wire.fold(Ghost(before), Ghost(byte_writes(addr, bytes@)), Ghost(op));
    }

    /// Write zero bytes to ascending addresses.
    pub fn zero_bytes(&mut self, addr: usize, len: usize)
        requires
            addr + len <= usize::MAX,
        ensures
            final(self).ops() == old(self).ops().push(
                Op::WriteBytes { addr, bytes: Seq::new(len as nat, |i: int| 0u8) },
            ),
    {
        let ghost before = self.ops();
        let ghost bytes = Seq::new(len as nat, |i: int| 0u8);
        let mut i: usize = 0;
        assert(self.ops() =~= before + byte_writes(addr, bytes.take(0)));
        while i < len
            invariant
                i <= len,
                addr + len <= usize::MAX,
                bytes == Seq::new(len as nat, |i: int| 0u8),
                before == old(self).ops(),
                self.ops() == before + byte_writes(addr, bytes.take(i as int)),
            decreases len - i,
        {
            self.wire.write8(addr + i, 0);
            assert(self.ops() =~= before + byte_writes(addr, bytes.take(i + 1)));
            i = i + 1;
        }
        assert(bytes.take(len as int) =~= bytes);
        let ghost op = Op::WriteBytes { addr, bytes };
        self.wire.fold(Ghost(before), Ghost(byte_writes(addr, bytes)), Ghost(op));
    }

    /// Read until a condition is met, at most `tries` times. There is a wait
    /// behind each miss, unless the step is zero.
    pub fn poll32(&mut self, addr: usize, mask: u32, until: Until, tries: u64, step_us: u64) -> (
    hit: bool)
        ensures
            final(self).ops() == old(self).ops().push(
                Op::Poll { addr, mask, until, tries: tries as nat, step_us, hit },
            ),
    {
        let ghost before = self.ops();
        let mut n: u64 = 0;
        let ghost mut values: Seq<u32> = Seq::empty();
        assert(self.ops() =~= before + misses(addr, values, step_us));
        while n < tries
            invariant
                n <= tries,
                values.len() == n,
                all_missed(values, mask, until),
                before == old(self).ops(),
                self.ops() == before + misses(addr, values, step_us),
            decreases tries - n,
        {
            let ghost waited = misses(addr, values, step_us);
            let value: u32 = self.wire.read32(addr);
            let hit = match until {
                Until::AllSet => value & mask == mask,
                Until::AnySet => value & mask != 0,
                Until::Clear => value & mask == 0,
                Until::Equal => value == mask,
            };
            if hit {
                let ghost op = Op::Poll {
                    addr,
                    mask,
                    until,
                    tries: tries as nat,
                    step_us,
                    hit: true,
                };
                let ghost more = waited.push(Op::Read { addr, value });
                proof {
                    assert(self.ops() =~= before + more);
                    assert(polled_from(
                        more,
                        addr,
                        mask,
                        until,
                        tries as nat,
                        step_us,
                        true,
                        values,
                        value,
                    ));
                    misses_are_single(addr, values, step_us);
                }
                self.wire.fold(Ghost(before), Ghost(more), Ghost(op));
                return true;
            }
            if step_us != 0 {
                self.wire.udelay(step_us);
            }
            proof {
                let next = values.push(value);
                assert(next.drop_last() =~= values);
                assert(self.ops() =~= before + misses(addr, next, step_us));
                values = next;
            }
            n = n + 1;
        }
        let ghost op = Op::Poll { addr, mask, until, tries: tries as nat, step_us, hit: false };
        let ghost more = misses(addr, values, step_us);
        proof {
            assert(polled_from(
                more,
                addr,
                mask,
                until,
                tries as nat,
                step_us,
                false,
                values,
                0,
            ));
            misses_are_single(addr, values, step_us);
        }
        self.wire.fold(Ghost(before), Ghost(more), Ghost(op));
        false
    }
}

/// Every access of a poll is a single one.
proof fn misses_are_single(addr: usize, values: Seq<u32>, step_us: u64)
    ensures
        forall|i: int|
            0 <= i < misses(addr, values, step_us).len() ==> single(
                #[trigger] misses(addr, values, step_us)[i],
            ),
    decreases values.len(),
{
    if values.len() > 0 {
        let before = misses(addr, values.drop_last(), step_us);
        let all = misses(addr, values, step_us);
        misses_are_single(addr, values.drop_last(), step_us);
        assert forall|i: int| 0 <= i < all.len() implies single(#[trigger] all[i]) by {
            if i < before.len() {
                assert(all[i] == before[i]);
            }
        }
    }
}

/// Appending in two steps is appending the whole.
pub proof fn append_assoc<T>(start: Seq<T>, first: Seq<T>, second: Seq<T>)
    ensures
        (start + first) + second == start + (first + second),
{
    assert((start + first) + second =~= start + (first + second));
}

/// `after` is `before` with more at its end, or `before` itself.
pub open spec fn extends<T>(before: Seq<T>, after: Seq<T>) -> bool {
    before.len() <= after.len() && after.take(before.len() as int) == before
}

/// Appending extends.
pub proof fn appending_extends<T>(start: Seq<T>, more: Seq<T>)
    ensures
        extends(start, start + more),
{
    assert((start + more).take(start.len() as int) =~= start);
}

/// A register file after a run of operations that do not depend on what the
/// hardware returns: writes store, updates modify, everything else leaves the
/// registers alone.
pub open spec fn registers_after(ops: Seq<Op>, regs: Map<usize, u32>) -> Map<usize, u32>
    decreases ops.len(),
{
    if ops.len() == 0 {
        regs
    } else {
        let before = registers_after(ops.drop_last(), regs);
        match ops.last() {
            Op::Write { addr, value } => before.insert(addr, value),
            Op::Update { addr, clear, set } => before.insert(
                addr,
                updated(before[addr], clear, set),
            ),
            Op::Tune { addr, mask, value } => before.insert(
                addr,
                updated(before[addr], mask, value),
            ),
            _ => before,
        }
    }
}

/// The effect of two runs is that of the second on what the first left.
pub proof fn registers_append(first: Seq<Op>, second: Seq<Op>, regs: Map<usize, u32>)
    ensures
        registers_after(first + second, regs) == registers_after(
            second,
            registers_after(first, regs),
        ),
    decreases second.len(),
{
    if second.len() == 0 {
        assert(first + second =~= first);
    } else {
        registers_append(first, second.drop_last(), regs);
        assert((first + second).drop_last() =~= first + second.drop_last());
    }
}

/// An operation that stores to a register.
pub open spec fn stores_to(op: Op, at: usize) -> bool {
    match op {
        Op::Write { addr, .. } => addr == at,
        Op::Update { addr, .. } => addr == at,
        Op::Tune { addr, .. } => addr == at,
        _ => false,
    }
}

/// A register that no operation stores to keeps its value.
pub proof fn registers_kept(ops: Seq<Op>, regs: Map<usize, u32>, at: usize)
    requires
        forall|i: int| 0 <= i < ops.len() ==> !#[trigger] stores_to(ops[i], at),
    ensures
        registers_after(ops, regs)[at] == regs[at],
    decreases ops.len(),
{
    if ops.len() > 0 {
        assert(!stores_to(ops[ops.len() - 1], at));
        assert forall|i: int| 0 <= i < ops.drop_last().len() implies !#[trigger] stores_to(
            ops.drop_last()[i],
            at,
        ) by {
            assert(!stores_to(ops[i], at));
        }
        registers_kept(ops.drop_last(), regs, at);
    }
}

} // verus!
