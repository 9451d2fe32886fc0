//! The receiver of interrupts, with a record of the calls.

use crate::bus::{Bus, Mmio};
use vstd::prelude::*;

verus! {

/// Receives the interrupts of pins. Nothing is assumed of what it does.
pub trait IrqSink<H> {
    fn handle(&mut self, handler: &H);
}

/// A receiver of interrupts, with a record of the calls: which pin, and behind
/// how many register accesses.
pub struct SinkPort<H, S: IrqSink<H>> {
    inner: S,
    log: Ghost<Seq<(u32, nat)>>,
    handlers: Ghost<Seq<H>>,
}

impl<H, S: IrqSink<H>> SinkPort<H, S> {
    /// All calls so far.
    pub closed spec fn log(&self) -> Seq<(u32, nat)> {
        self.log@
    }

    /// The handler of each call.
    pub closed spec fn handlers(&self) -> Seq<H> {
        self.handlers@
    }

    pub fn new(inner: S) -> (r: Self)
        ensures
            r.behind() == inner,
            r.log() == Seq::<(u32, nat)>::empty(),
            r.handlers() == Seq::<H>::empty(),
    {
        SinkPort { inner, log: Ghost(Seq::empty()), handlers: Ghost(Seq::empty()) }
    }

    /// What is behind the record.
    pub closed spec fn behind(&self) -> S {
        self.inner
    }

    /// Gives back what is behind the record.
    pub fn into_inner(self) -> (r: S)
        ensures
            r == self.behind(),
    {
        self.inner
    }

    /// Has an interrupt of a pin handled, behind the accesses of the bus so
    /// far.
    pub fn handle<M: Mmio>(&mut self, bus: &Bus<M>, pin: u32, handler: &H)
        ensures
            final(self).log() == old(self).log().push((pin, bus.ops().len())),
            final(self).handlers() == old(self).handlers().push(*handler),
    {
        self.inner.handle(handler);
        self.log = Ghost(self.log@.push((pin, bus.ops().len())));
        self.handlers = Ghost(self.handlers@.push(*handler));
    }
}

} // verus!
