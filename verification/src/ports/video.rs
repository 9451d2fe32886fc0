//! What the video decoder needs of the machine, with a record of the calls.

use vstd::prelude::*;

verus! {

/// Power, reset and clock gates of the machine. Nothing is assumed of what
/// comes back.
pub trait AvdPlatform {
    fn power_is_on(&mut self) -> bool;

    fn power_enable(&mut self) -> Result<(), &'static str>;

    fn reset(&mut self) -> Result<(), &'static str>;

    /// Enables the clock gate whose register lies at a physical address.
    fn gate_enable(&mut self, paddr: usize) -> Result<(), &'static str>;
}

/// One call to the platform and what it returned.
pub enum PlatformCall {
    PowerIsOn(bool),
    PowerEnable(Result<(), &'static str>),
    Reset(Result<(), &'static str>),
    GateEnable(usize, Result<(), &'static str>),
}

/// The platform, with a record of the calls.
pub struct AvdPort<P: AvdPlatform> {
    inner: P,
    log: Ghost<Seq<PlatformCall>>,
}

impl<P: AvdPlatform> AvdPort<P> {
    /// All calls so far.
    pub closed spec fn log(&self) -> Seq<PlatformCall> {
        self.log@
    }

    /// What is behind the record.
    pub closed spec fn behind(&self) -> P {
        self.inner
    }

    /// Gives back what is behind the record.
    pub fn into_inner(self) -> (r: P)
        ensures
            r == self.behind(),
    {
        self.inner
    }

    pub fn new(inner: P) -> (r: Self)
        ensures
            r.behind() == inner,
            r.log() == Seq::<PlatformCall>::empty(),
    {
        AvdPort { inner, log: Ghost(Seq::empty()) }
    }

    pub fn power_is_on(&mut self) -> (r: bool)
        ensures
            final(self).log() == old(self).log().push(PlatformCall::PowerIsOn(r)),
    {
        let r = self.inner.power_is_on();
        self.log = Ghost(self.log@.push(PlatformCall::PowerIsOn(r)));
        r
    }

    pub fn power_enable(&mut self) -> (r: Result<(), &'static str>)
        ensures
            final(self).log() == old(self).log().push(PlatformCall::PowerEnable(r)),
    {
        let r = self.inner.power_enable();
        self.log = Ghost(self.log@.push(PlatformCall::PowerEnable(r)));
        r
    }

    pub fn reset(&mut self) -> (r: Result<(), &'static str>)
        ensures
            final(self).log() == old(self).log().push(PlatformCall::Reset(r)),
    {
        let r = self.inner.reset();
        self.log = Ghost(self.log@.push(PlatformCall::Reset(r)));
        r
    }

    pub fn gate_enable(&mut self, paddr: usize) -> (r: Result<(), &'static str>)
        ensures
            final(self).log() == old(self).log().push(PlatformCall::GateEnable(paddr, r)),
    {
        let r = self.inner.gate_enable(paddr);
        self.log = Ghost(self.log@.push(PlatformCall::GateEnable(paddr, r)));
        r
    }
}

/// Memory for the device: mapping and allocation. `H` is what keeps a mapping
/// or an allocation alive. Nothing is assumed of what comes back.
pub trait AvdMemory<H> {
    fn mapping_granule(&mut self) -> usize;

    /// Maps physical memory; the device may write it where `writable`.
    fn map(&mut self, paddr: usize, len: usize, writable: bool) -> Option<(u64, H)>;

    /// Allocates contiguous pages and returns their physical and virtual
    /// address.
    fn allocate(&mut self, pages: usize, align: usize) -> Option<(usize, usize, H)>;
}

/// One call for memory and what it returned.
pub enum MemoryCall {
    Granule(usize),
    Mapped { paddr: usize, len: usize, writable: bool, reply: Option<u64> },
    Allocated { pages: usize, align: usize, at: Option<(usize, usize)> },
}

/// Memory for the device, with a record of the calls.
pub struct AvdMemoryPort<H, D: AvdMemory<H>> {
    inner: D,
    log: Ghost<Seq<MemoryCall>>,
    handles: Ghost<Seq<H>>,
}

impl<H, D: AvdMemory<H>> AvdMemoryPort<H, D> {
    /// All calls so far.
    pub closed spec fn log(&self) -> Seq<MemoryCall> {
        self.log@
    }

    /// What keeps the mappings and allocations alive, in the order in which
    /// they came.
    pub closed spec fn handles(&self) -> Seq<H> {
        self.handles@
    }

    /// What is behind the record.
    pub closed spec fn behind(&self) -> D {
        self.inner
    }

    /// Gives back what is behind the record.
    pub fn into_inner(self) -> (r: D)
        ensures
            r == self.behind(),
    {
        self.inner
    }

    pub fn new(inner: D) -> (r: Self)
        ensures
            r.behind() == inner,
            r.log() == Seq::<MemoryCall>::empty(),
            r.handles() == Seq::<H>::empty(),
    {
        AvdMemoryPort { inner, log: Ghost(Seq::empty()), handles: Ghost(Seq::empty()) }
    }

    pub fn mapping_granule(&mut self) -> (r: usize)
        ensures
            final(self).log() == old(self).log().push(MemoryCall::Granule(r)),
            final(self).handles() == old(self).handles(),
    {
        let r: usize = self.inner.mapping_granule();
        self.log = Ghost(self.log@.push(MemoryCall::Granule(r)));
        r
    }

    pub fn map(&mut self, paddr: usize, len: usize, writable: bool) -> (r: Option<(u64, H)>)
        ensures
            final(self).log() == old(self).log().push(
                MemoryCall::Mapped { paddr, len, writable, reply: mapped_at(r) },
            ),
            final(self).handles() == with_mapping(old(self).handles(), r),
    {
        let r = self.inner.map(paddr, len, writable);
        self.log = Ghost(
            self.log@.push(MemoryCall::Mapped { paddr, len, writable, reply: mapped_at(r) }),
        );
        self.handles = Ghost(with_mapping(self.handles@, r));
        r
    }

    pub fn allocate(&mut self, pages: usize, align: usize) -> (r: Option<(usize, usize, H)>)
        ensures
            final(self).log() == old(self).log().push(
                MemoryCall::Allocated { pages, align, at: allocated_at(r) },
            ),
            final(self).handles() == with_allocation(old(self).handles(), r),
    {
        let r = self.inner.allocate(pages, align);
        self.log = Ghost(
            self.log@.push(MemoryCall::Allocated { pages, align, at: allocated_at(r) }),
        );
        self.handles = Ghost(with_allocation(self.handles@, r));
        r
    }
}

/// The handles once a mapping came or did not.
pub open spec fn with_mapping<H>(handles: Seq<H>, r: Option<(u64, H)>) -> Seq<H> {
    match r {
        Some((_, handle)) => handles.push(handle),
        None => handles,
    }
}

/// The handles once an allocation came or did not.
pub open spec fn with_allocation<H>(handles: Seq<H>, r: Option<(usize, usize, H)>) -> Seq<H> {
    match r {
        Some((_, _, handle)) => handles.push(handle),
        None => handles,
    }
}

/// The address of a mapping.
pub open spec fn mapped_at<H>(r: Option<(u64, H)>) -> Option<u64> {
    match r {
        Some((addr, _)) => Some(addr),
        None => None,
    }
}

/// The addresses of an allocation.
pub open spec fn allocated_at<H>(r: Option<(usize, usize, H)>) -> Option<(usize, usize)> {
    match r {
        Some((paddr, vaddr, _)) => Some((paddr, vaddr)),
        None => None,
    }
}

} // verus!
