//! The messages of an EPIC endpoint, with a record of them.

use crate::afk::{ack_ops, bytes_of, delivered, payload_read, AfkEndpoint, AfkError};
use crate::bus::{Bus, Mmio};
use crate::epic::{found_empty, received, received_with, EpicMail, EpicMessage, Receipt};
use vstd::prelude::*;

verus! {

/// An AFK endpoint as the way of messages, with a record of them.
pub struct EpicMailbox {
    afk: AfkEndpoint,
    log: Ghost<Seq<EpicMail>>,
}

impl EpicMailbox {
    /// Everything that passed through.
    pub closed spec fn mail(&self) -> Seq<EpicMail> {
        self.log@
    }

    /// The AFK endpoint below.
    pub closed spec fn link(&self) -> AfkEndpoint {
        self.afk
    }

    pub fn new(afk: AfkEndpoint) -> (r: Self)
        ensures
            r.link() == afk,
            r.mail() == Seq::<EpicMail>::empty(),
    {
        EpicMailbox { afk, log: Ghost(Seq::empty()) }
    }

    /// The AFK endpoint below.
    pub fn afk(&self) -> (r: &AfkEndpoint)
        ensures
            *r == self.link(),
    {
        &self.afk
    }

    /// Gives back the AFK endpoint behind the record.
    pub fn into_afk(self) -> (r: AfkEndpoint)
        ensures
            r == self.link(),
    {
        self.afk
    }

    /// Take one message out of the ring.
    pub fn recv_message<M: Mmio>(&mut self, bus: &mut Bus<M>) -> (r: Option<EpicMessage>)
        requires
            old(self).link().wf(),
        ensures
            final(self).link().wf(),
            final(self).link() == old(self).link(),
            match r {
                Some(m) => final(self).mail() == old(self).mail().push(EpicMail::Received(m@))
                    && received(old(self).link().rx, old(bus).ops(), final(bus).ops(), m@),
                None => final(self).mail() == old(self).mail() && found_empty(
                    old(self).link().rx,
                    old(bus).ops(),
                    final(bus).ops(),
                ),
            },
    {
        let ghost before = bus.ops();
        let entry = match self.afk.recv(bus) {
            Some(entry) => entry,
            None => {
                return None;
            },
        };
        let ghost looked = bus.ops();
        let found = self.afk.recv_payload(bus, &entry);
        let ghost read = bus.ops();
        let ghost payload_view = bytes_of(found);
        let ghost rptr = choose|rptr: u32| #[trigger]
            payload_read(self.afk.rx, entry.size, looked, read, payload_view, rptr);
        self.afk.recv_ack(bus);
        let ghost (ack_rptr, ack_magic, ack_size) = choose|a: u32, b: u32, c: u32|
            bus.ops() == read + #[trigger] ack_ops(self.afk.rx, a, b, c);
        let payload: Vec<u8> = match found {
            Some(bytes) => bytes,
            None => Vec::new(),
        };
        let m = EpicMessage { channel: entry.channel, msg_type: entry.msg_type, payload };
        self.log = Ghost(self.log@.push(EpicMail::Received(m@)));
        proof {
            let w = Receipt {
                looked,
                read,
                entry,
                payload: payload_view,
                rptr,
                ack_rptr,
                ack_magic,
                ack_size,
            };
            assert(m@.payload =~= (match w.payload {
                Some(bytes) => bytes,
                None => Seq::empty(),
            }));
            assert(received_with(self.afk.rx, before, bus.ops(), m@, w));
        }
        Some(m)
    }

    /// Hand a message to the transport.
    pub fn send_message<M: Mmio>(
        &mut self,
        bus: &mut Bus<M>,
        channel: u32,
        msg_type: u32,
        data: &Vec<u8>,
    ) -> (r: Result<(), AfkError>)
        requires
            old(self).link().wf(),
        ensures
            final(self).link().wf(),
            final(self).mail() == old(self).mail().push(
                EpicMail::Sent { channel, msg_type, data: data@, taken: r is Ok },
            ),
            delivered(
                &old(self).link(),
                &final(self).link(),
                (old(bus).ops(), final(bus).ops()),
                channel,
                msg_type,
                data@,
                r,
            ),
    {
        let r = self.afk.send(bus, channel, msg_type, data.as_slice());
        self.log = Ghost(
            self.log@.push(EpicMail::Sent { channel, msg_type, data: data@, taken: r is Ok }),
        );
        r
    }
}

} // verus!
