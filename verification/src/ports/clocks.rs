//! Clocks and DMA channels of the machine, with a record of the calls.

use vstd::prelude::*;

verus! {

/// Clocks of the machine. `K` is one clock. Nothing is assumed of what comes
/// back.
pub trait ClockSource<K> {
    /// Finds the clock with a given number.
    fn resolve(&mut self, index: usize) -> Result<K, &'static str>;

    /// Switches a clock on and tells whether that worked.
    fn enable(&mut self, clock: &K) -> bool;

    fn disable(&mut self, clock: &K);
}

/// One call for a clock and what came back.
pub enum ClockCall<K> {
    Resolve { index: nat, found: Result<K, &'static str> },
    Enable { clock: K, done: bool },
    Disable { clock: K },
}

/// Clocks, with a record of the calls.
pub struct ClockPort<K, S: ClockSource<K>> {
    inner: S,
    log: Ghost<Seq<ClockCall<K>>>,
}

impl<K, S: ClockSource<K>> ClockPort<K, S> {
    /// All calls so far.
    pub closed spec fn log(&self) -> Seq<ClockCall<K>> {
        self.log@
    }

    /// What is behind the record.
    pub closed spec fn behind(&self) -> S {
        self.inner
    }

    /// Gives back what is behind the record.
    pub fn into_inner(self) -> (r: S)
        ensures
            r == self.behind(),
    {
        self.inner
    }

    pub fn new(inner: S) -> (r: Self)
        ensures
            r.behind() == inner,
            r.log() == Seq::<ClockCall<K>>::empty(),
    {
        ClockPort { inner, log: Ghost(Seq::empty()) }
    }

    pub fn resolve(&mut self, index: usize) -> (found: Result<K, &'static str>)
        ensures
            final(self).log() == old(self).log().push(
                ClockCall::Resolve { index: index as nat, found },
            ),
    {
        let found = self.inner.resolve(index);
        self.log = Ghost(self.log@.push(ClockCall::Resolve { index: index as nat, found }));
        found
    }

    pub fn enable(&mut self, clock: &K) -> (done: bool)
        ensures
            final(self).log() == old(self).log().push(ClockCall::Enable { clock: *clock, done }),
    {
        let done = self.inner.enable(clock);
        self.log = Ghost(self.log@.push(ClockCall::Enable { clock: *clock, done }));
        done
    }

    pub fn disable(&mut self, clock: &K)
        ensures
            final(self).log() == old(self).log().push(ClockCall::Disable { clock: *clock }),
    {
        self.inner.disable(clock);
        self.log = Ghost(self.log@.push(ClockCall::Disable { clock: *clock }));
    }
}

/// Clocks of the machine. `K` is one clock. Nothing is assumed of what comes
/// back.
pub trait NamedClocks<K> {
    /// Finds the clock with a given name.
    fn resolve(&mut self, name: &str) -> Option<K>;

    /// Switches a clock on and tells whether that worked.
    fn enable(&mut self, clock: &K) -> bool;
}

/// A call for a clock and its answer.
pub enum NamedClockCall<K> {
    Resolve { name: Seq<char>, found: Option<K> },
    Enable { clock: K, done: bool },
}

/// Clocks, with a record of the calls.
pub struct NamedClockPort<K, S: NamedClocks<K>> {
    inner: S,
    log: Ghost<Seq<NamedClockCall<K>>>,
}

impl<K, S: NamedClocks<K>> NamedClockPort<K, S> {
    /// All calls so far.
    pub closed spec fn log(&self) -> Seq<NamedClockCall<K>> {
        self.log@
    }

    /// What is behind the record.
    pub closed spec fn behind(&self) -> S {
        self.inner
    }

    /// Gives back what is behind the record.
    pub fn into_inner(self) -> (r: S)
        ensures
            r == self.behind(),
    {
        self.inner
    }

    pub fn new(inner: S) -> (r: Self)
        ensures
            r.behind() == inner,
            r.log() == Seq::<NamedClockCall<K>>::empty(),
    {
        NamedClockPort { inner, log: Ghost(Seq::empty()) }
    }

    pub fn resolve(&mut self, name: &str) -> (found: Option<K>)
        ensures
            final(self).log() == old(self).log().push(NamedClockCall::Resolve { name: name@, found }),
    {
        let found = self.inner.resolve(name);
        self.log = Ghost(self.log@.push(NamedClockCall::Resolve { name: name@, found }));
        found
    }

    pub fn enable(&mut self, clock: &K) -> (done: bool)
        ensures
            final(self).log() == old(self).log().push(NamedClockCall::Enable { clock: *clock, done }),
    {
        let done = self.inner.enable(clock);
        self.log = Ghost(self.log@.push(NamedClockCall::Enable { clock: *clock, done }));
        done
    }
}

/// DMA channels of the machine. `C` is one channel. Nothing is assumed of what
/// comes back.
pub trait DmaSource<C> {
    /// Finds the channel with a given name.
    fn resolve(&mut self, name: &str) -> Result<C, &'static str>;
}

/// DMA channels, with a record of the names asked for and the answers.
pub struct DmaPort<C, S: DmaSource<C>> {
    inner: S,
    log: Ghost<Seq<(Seq<char>, Result<C, &'static str>)>>,
}

impl<C, S: DmaSource<C>> DmaPort<C, S> {
    /// All calls so far.
    pub closed spec fn log(&self) -> Seq<(Seq<char>, Result<C, &'static str>)> {
        self.log@
    }

    /// What is behind the record.
    pub closed spec fn behind(&self) -> S {
        self.inner
    }

    /// Gives back what is behind the record.
    pub fn into_inner(self) -> (r: S)
        ensures
            r == self.behind(),
    {
        self.inner
    }

    pub fn new(inner: S) -> (r: Self)
        ensures
            r.behind() == inner,
            r.log() == Seq::<(Seq<char>, Result<C, &'static str>)>::empty(),
    {
        DmaPort { inner, log: Ghost(Seq::empty()) }
    }

    pub fn resolve(&mut self, name: &str) -> (r: Result<C, &'static str>)
        ensures
            final(self).log() == old(self).log().push((name@, r)),
    {
        let r = self.inner.resolve(name);
        self.log = Ghost(self.log@.push((name@, r)));
        r
    }
}

} // verus!
