//! What the display coprocessor's driver needs, with a record of the calls.

use crate::bus::{Bus, Mmio};
use vstd::prelude::*;

verus! {

/// Physical memory in runs of pages. Nothing is assumed of the answers.
pub trait BufferSource {
    /// A run of pages whose start is a multiple of `align`: where it is mapped
    /// and its physical address.
    fn contiguous(&mut self, pages: u64, align: u64) -> Option<(usize, u64)>;
}

/// A request for memory and its answer.
pub struct BufferCall {
    pub pages: u64,
    pub align: u64,
    pub answer: Option<(usize, u64)>,
}

/// Physical memory, with a record of the requests.
pub struct BufferPort<S: BufferSource> {
    inner: S,
    log: Ghost<Seq<BufferCall>>,
}

impl<S: BufferSource> BufferPort<S> {
    /// All calls so far.
    pub closed spec fn log(&self) -> Seq<BufferCall> {
        self.log@
    }

    /// What is behind the record.
    pub closed spec fn behind(&self) -> S {
        self.inner
    }

    /// Gives back what is behind the record.
    pub fn into_inner(self) -> (r: S)
        ensures
            r == self.behind(),
    {
        self.inner
    }

    pub fn new(inner: S) -> (r: Self)
        ensures
            r.behind() == inner,
            r.log() == Seq::<BufferCall>::empty(),
    {
        BufferPort { inner, log: Ghost(Seq::empty()) }
    }

    pub fn contiguous(&mut self, pages: u64, align: u64) -> (answer: Option<(usize, u64)>)
        ensures
            final(self).log() == old(self).log().push(BufferCall { pages, align, answer }),
    {
        let answer = self.inner.contiguous(pages, align);
        self.log = Ghost(self.log@.push(BufferCall { pages, align, answer }));
        answer
    }
}

/// The way to the display service. Nothing is assumed of the replies.
pub trait IbootTransport {
    fn call_raw_by_channel(&mut self, channel: u32, subtype: u16, command: &[u8]) -> Result<
        Vec<u8>,
        &'static str,
    >;
}

/// A call of the display service.
pub struct IbootCall {
    /// The accesses that lay before it.
    pub after: nat,
    pub channel: u32,
    pub subtype: u16,
    pub command: Seq<u8>,
    /// What came back, or the message of the failure.
    pub reply: Result<Seq<u8>, &'static str>,
}

/// The bytes that came back.
pub open spec fn reply_of(outcome: Result<Vec<u8>, &'static str>) -> Result<
    Seq<u8>,
    &'static str,
> {
    match outcome {
        Ok(bytes) => Ok(bytes@),
        Err(message) => Err(message),
    }
}

/// The way to the display service, with a record of the calls.
pub struct IbootPort<T: IbootTransport> {
    inner: T,
    log: Ghost<Seq<IbootCall>>,
}

impl<T: IbootTransport> IbootPort<T> {
    /// All calls so far.
    pub closed spec fn log(&self) -> Seq<IbootCall> {
        self.log@
    }

    /// What is behind the record.
    pub closed spec fn behind(&self) -> T {
        self.inner
    }

    /// Gives back what is behind the record.
    pub fn into_inner(self) -> (r: T)
        ensures
            r == self.behind(),
    {
        self.inner
    }

    pub fn new(inner: T) -> (r: Self)
        ensures
            r.behind() == inner,
            r.log() == Seq::<IbootCall>::empty(),
    {
        IbootPort { inner, log: Ghost(Seq::empty()) }
    }

    /// Calls the display service, behind the accesses of the bus so far.
    pub fn call_raw_by_channel<M: Mmio>(
        &mut self,
        bus: &Bus<M>,
        channel: u32,
        subtype: u16,
        command: &[u8],
    ) -> (r: Result<Vec<u8>, &'static str>)
        ensures
            final(self).log() == old(self).log().push(
                IbootCall {
                    after: bus.ops().len(),
                    channel,
                    subtype,
                    command: command@,
                    reply: reply_of(r),
                },
            ),
    {
        let r = self.inner.call_raw_by_channel(channel, subtype, command);
        self.log = Ghost(
            self.log@.push(
                IbootCall {
                    after: bus.ops().len(),
                    channel,
                    subtype,
                    command: command@,
                    reply: reply_of(r),
                },
            ),
        );
        r
    }
}

} // verus!
