//! Single accesses of a machine and the record of them.
//!
//! Nothing outside this module can add to the record but through an access of
//! the machine. Accesses at the end of the record can be taken together to one
//! operation that they carry out.

use crate::bus::{performs, realizes, single, Mmio, Op};
use crate::platform::FrameSource;
use vstd::prelude::*;

verus! {

proof fn realizes_push(ops: Seq<Op>, events: Seq<Op>, op: Op, more: Seq<Op>)
    requires
        realizes(ops, events),
        performs(op, more),
    ensures
        realizes(ops.push(op), events + more),
{
    let all = events + more;
    let k = events.len() as int;
    assert(ops.push(op).drop_last() =~= ops);
    assert(all.take(k) =~= events);
    assert(all.skip(k) =~= more);
    assert(realizes(ops.push(op).drop_last(), all.take(k)));
}

/// Where the last operations are single accesses, they are the last events.
proof fn realizes_tail(ops: Seq<Op>, events: Seq<Op>, start: int)
    requires
        realizes(ops, events),
        0 <= start <= ops.len(),
        forall|i: int| start <= i < ops.len() ==> single(#[trigger] ops[i]),
    ensures
        events.len() >= ops.len() - start,
        realizes(ops.take(start), events.take(events.len() - (ops.len() - start))),
        events.skip(events.len() - (ops.len() - start)) == ops.skip(start),
    decreases ops.len() - start,
{
    if start == ops.len() {
        assert(ops.take(start) =~= ops);
        assert(events.take(events.len() as int) =~= events);
        assert(events.skip(events.len() as int) =~= ops.skip(start));
    } else {
        let k = choose|k: int|
            {
                &&& 0 <= k <= events.len()
                &&& realizes(ops.drop_last(), #[trigger] events.take(k))
                &&& performs(ops.last(), events.skip(k))
            };
        assert(single(ops[ops.len() - 1]));
        assert(events.skip(k) == seq![ops.last()]);
        assert(events.skip(k).len() == 1);
        let less = events.take(k);
        assert forall|i: int| start <= i < ops.drop_last().len() implies single(
            #[trigger] ops.drop_last()[i],
        ) by {
            assert(ops.drop_last()[i] == ops[i]);
        }
        realizes_tail(ops.drop_last(), less, start);
        let n = ops.len() - start;
        assert(ops.drop_last().take(start) =~= ops.take(start));
        assert(less.take(less.len() - (n - 1)) =~= events.take(events.len() - n));
        assert(events.skip(events.len() - n) =~= less.skip(less.len() - (n - 1)) + events.skip(k));
        assert(ops.skip(start) =~= ops.drop_last().skip(start) + seq![ops.last()]);
    }
}

/// The ghost record of a machine.
struct Log {
    ops: Ghost<Seq<Op>>,
    events: Ghost<Seq<Op>>,
}

impl Log {
    #[verifier::type_invariant]
    spec fn in_step(&self) -> bool {
        realizes(self.ops@, self.events@)
    }

    fn empty() -> (r: Self)
        ensures
            r.ops@ == Seq::<Op>::empty(),
            r.events@ == Seq::<Op>::empty(),
    {
        Log { ops: Ghost(Seq::empty()), events: Ghost(Seq::empty()) }
    }

    /// One more access.
    fn extended(&self, Ghost(op): Ghost<Op>) -> (r: Self)
        requires
            single(op),
        ensures
            r.ops@ == self.ops@.push(op),
            r.events@ == self.events@.push(op),
    {
        proof {
            use_type_invariant(&*self);
            realizes_push(self.ops@, self.events@, op, seq![op]);
            assert(self.events@ + seq![op] =~= self.events@.push(op));
        }
        Log { ops: Ghost(self.ops@.push(op)), events: Ghost(self.events@.push(op)) }
    }

    /// The accesses from `start` on, taken together.
    fn folded(&self, Ghost(start): Ghost<int>, Ghost(op): Ghost<Op>) -> (r: Self)
        requires
            0 <= start <= self.ops@.len(),
            forall|i: int| start <= i < self.ops@.len() ==> single(#[trigger] self.ops@[i]),
            performs(op, self.ops@.skip(start)),
        ensures
            r.ops@ == self.ops@.take(start).push(op),
            r.events@ == self.events@,
    {
        proof {
            use_type_invariant(&*self);
            realizes_tail(self.ops@, self.events@, start);
            let k = self.events@.len() - (self.ops@.len() - start);
            realizes_push(self.ops@.take(start), self.events@.take(k), op, self.ops@.skip(start));
            assert(self.events@.take(k) + self.events@.skip(k) =~= self.events@);
        }
        Log { ops: Ghost(self.ops@.take(start).push(op)), events: Ghost(self.events@) }
    }
}

/// A machine, with a record of all accesses.
pub struct Wire<M: Mmio> {
    inner: M,
    log: Log,
}

impl<M: Mmio> Wire<M> {
    /// The recorded operations.
    pub closed spec fn ops(&self) -> Seq<Op> {
        self.log.ops@
    }

    /// The recorded accesses.
    pub closed spec fn events(&self) -> Seq<Op> {
        self.log.events@
    }

    /// A machine with an empty record.
    pub fn new(inner: M) -> (r: Self)
        ensures
            r.behind() == inner,
            r.ops() == Seq::<Op>::empty(),
            r.events() == Seq::<Op>::empty(),
    {
        Wire { inner, log: Log::empty() }
    }

    /// What is behind the record.
    pub closed spec fn behind(&self) -> M {
        self.inner
    }

    /// Gives the machine back.
    pub fn into_inner(self) -> (r: M)
        ensures
            r == self.behind(),
    {
        self.inner
    }

    /// The recorded operations stand for exactly the recorded accesses.
    pub fn record_is_in_step(&self)
        ensures
            realizes(self.ops(), self.events()),
    {
        proof {
            use_type_invariant(&self.log);
        }
    }

    /// Takes the accesses behind `start` together to one operation.
    pub(crate) fn fold(
        &mut self,
        Ghost(start): Ghost<Seq<Op>>,
        Ghost(more): Ghost<Seq<Op>>,
        Ghost(op): Ghost<Op>,
    )
        requires
            old(self).ops() == start + more,
            forall|i: int| 0 <= i < more.len() ==> single(#[trigger] more[i]),
            performs(op, more),
        ensures
            final(self).ops() == start.push(op),
            final(self).events() == old(self).events(),
    {
        proof {
            let all = self.log.ops@;
            assert(all.take(start.len() as int) =~= start);
            assert(all.skip(start.len() as int) =~= more);
            assert forall|i: int| start.len() <= i < all.len() implies single(
                #[trigger] all[i],
            ) by {
                assert(all[i] == more[i - start.len()]);
            }
        }
        self.log = self.log.folded(Ghost(start.len() as int), Ghost(op));
    }

    pub fn read8(&mut self, addr: usize) -> (byte: u8)
        ensures
            final(self).ops() == old(self).ops().push(Op::Read8 { addr, byte }),
            final(self).events() == old(self).events().push(Op::Read8 { addr, byte }),
    {
        let byte: u8 = self.inner.read8(addr);
        self.log = self.log.extended(Ghost(Op::Read8 { addr, byte }));
        byte
    }

    pub fn write8(&mut self, addr: usize, byte: u8)
        ensures
            final(self).ops() == old(self).ops().push(Op::Write8 { addr, byte }),
            final(self).events() == old(self).events().push(Op::Write8 { addr, byte }),
    {
        self.inner.write8(addr, byte);
        self.log = self.log.extended(Ghost(Op::Write8 { addr, byte }));
    }

    pub fn read32(&mut self, addr: usize) -> (value: u32)
        ensures
            final(self).ops() == old(self).ops().push(Op::Read { addr, value }),
            final(self).events() == old(self).events().push(Op::Read { addr, value }),
    {
        let value: u32 = self.inner.read32(addr);
        self.log = self.log.extended(Ghost(Op::Read { addr, value }));
        value
    }

    pub fn write32(&mut self, addr: usize, value: u32)
        ensures
            final(self).ops() == old(self).ops().push(Op::Write { addr, value }),
            final(self).events() == old(self).events().push(Op::Write { addr, value }),
    {
        self.inner.write32(addr, value);
        self.log = self.log.extended(Ghost(Op::Write { addr, value }));
    }

    pub fn read64(&mut self, addr: usize) -> (wide: u64)
        ensures
            final(self).ops() == old(self).ops().push(Op::Read64 { addr, wide }),
            final(self).events() == old(self).events().push(Op::Read64 { addr, wide }),
    {
        let wide: u64 = self.inner.read64(addr);
        self.log = self.log.extended(Ghost(Op::Read64 { addr, wide }));
        wide
    }

    pub fn write64(&mut self, addr: usize, wide: u64)
        ensures
            final(self).ops() == old(self).ops().push(Op::Write64 { addr, wide }),
            final(self).events() == old(self).events().push(Op::Write64 { addr, wide }),
    {
        self.inner.write64(addr, wide);
        self.log = self.log.extended(Ghost(Op::Write64 { addr, wide }));
    }

    pub fn udelay(&mut self, us: u64)
        ensures
            final(self).ops() == old(self).ops().push(Op::Delay { us }),
            final(self).events() == old(self).events().push(Op::Delay { us }),
    {
        self.inner.udelay(us);
        self.log = self.log.extended(Ghost(Op::Delay { us }));
    }

    pub fn current_time(&mut self) -> (now: u64)
        ensures
            final(self).ops() == old(self).ops().push(Op::Clock { now }),
            final(self).events() == old(self).events().push(Op::Clock { now }),
    {
        let now: u64 = self.inner.current_time();
        self.log = self.log.extended(Ghost(Op::Clock { now }));
        now
    }

    /// Allocates one page frame and returns its physical address.
    pub fn alloc_frame<F: FrameSource>(&mut self, frames: &mut F) -> (frame: Option<u64>)
        ensures
            final(self).ops() == old(self).ops().push(Op::Frame { frame }),
            final(self).events() == old(self).events().push(Op::Frame { frame }),
    {
        let frame: Option<u64> = frames.alloc_frame();
        self.log = self.log.extended(Ghost(Op::Frame { frame }));
        frame
    }

    /// Where a physical address is mapped.
    pub fn phys_to_virt<F: FrameSource>(&mut self, frames: &mut F, paddr: u64) -> (vaddr: usize)
        ensures
            final(self).ops() == old(self).ops().push(Op::Lookup { paddr, vaddr }),
            final(self).events() == old(self).events().push(Op::Lookup { paddr, vaddr }),
    {
        let vaddr: usize = frames.phys_to_virt(paddr);
        self.log = self.log.extended(Ghost(Op::Lookup { paddr, vaddr }));
        vaddr
    }

    pub fn barrier(&mut self)
        ensures
            final(self).ops() == old(self).ops().push(Op::Fence),
            final(self).events() == old(self).events().push(Op::Fence),
    {
        self.inner.barrier();
        self.log = self.log.extended(Ghost(Op::Fence));
    }

    pub fn clean_cache(&mut self, addr: usize, len: usize)
        ensures
            final(self).ops() == old(self).ops().push(Op::Clean { addr, len }),
            final(self).events() == old(self).events().push(Op::Clean { addr, len }),
    {
        self.inner.clean_cache(addr, len);
        self.log = self.log.extended(Ghost(Op::Clean { addr, len }));
    }

    pub fn invalidate_cache(&mut self, addr: usize, len: usize)
        ensures
            final(self).ops() == old(self).ops().push(Op::Invalidate { addr, len }),
            final(self).events() == old(self).events().push(Op::Invalidate { addr, len }),
    {
        self.inner.invalidate_cache(addr, len);
        self.log = self.log.extended(Ghost(Op::Invalidate { addr, len }));
    }

    pub fn clean_invalidate_cache(&mut self, addr: usize, len: usize)
        ensures
            final(self).ops() == old(self).ops().push(Op::CleanInvalidate { addr, len }),
            final(self).events() == old(self).events().push(Op::CleanInvalidate { addr, len }),
    {
        self.inner.clean_invalidate_cache(addr, len);
        self.log = self.log.extended(Ghost(Op::CleanInvalidate { addr, len }));
    }
}

} // verus!
