//! The receiver of an EPIC endpoint's notifications, with a record of them.

use crate::bus::{Bus, Mmio};
use crate::epic::NotificationView;
use vstd::prelude::*;

verus! {

/// Receives notifications. Nothing is assumed of what it does with them.
pub trait NotifyHandler {
    fn notify(&mut self, channel: u32, subtype: u16, data: &[u8]);
}

/// A receiver of notifications, with a record of them: each with the number
/// of accesses that lay before it.
pub struct NotifyPort<N: NotifyHandler> {
    inner: N,
    log: Ghost<Seq<NotificationView>>,
}

impl<N: NotifyHandler> NotifyPort<N> {
    /// All notifications so far.
    pub closed spec fn log(&self) -> Seq<NotificationView> {
        self.log@
    }

    pub fn new(inner: N) -> (r: Self)
        ensures
            r.behind() == inner,
            r.log() == Seq::<NotificationView>::empty(),
    {
        NotifyPort { inner, log: Ghost(Seq::empty()) }
    }

    /// What is behind the record.
    pub closed spec fn behind(&self) -> N {
        self.inner
    }

    /// Gives back what is behind the record.
    pub fn into_inner(self) -> (r: N)
        ensures
            r == self.behind(),
    {
        self.inner
    }

    /// Hands a notification over, behind the accesses of the bus so far.
    pub fn notify<M: Mmio>(&mut self, bus: &Bus<M>, channel: u32, subtype: u16, data: &[u8])
        ensures
            final(self).log() == old(self).log().push(
                NotificationView { channel, subtype, data: data@, after: bus.ops().len() },
            ),
    {
        self.inner.notify(channel, subtype, data);
        self.log = Ghost(
            self.log@.push(
                NotificationView { channel, subtype, data: data@, after: bus.ops().len() },
            ),
        );
    }
}

} // verus!
