//! RTKit: the management protocol of Apple coprocessors.

use crate::asc::{
    elapsed_since, fetch_ops, recv_done, send_done, AppleAsc, AscError, AscMessage, Traffic,
    ASC_CPU_CONTROL_START, ASC_MBOX_CTRL_EMPTY,
};
use crate::bus::{rd, wr, Bus, Mmio, Op};
use vstd::prelude::*;

verus! {

/// RTKit message with endpoint and 64-bit payload.
#[derive(Clone, Copy, Debug, PartialEq, Eq, Structural)]
pub struct RtkitMessage {
    /// Endpoint number.
    pub ep: u8,
    /// Message payload.
    pub msg: u64,
}

/// RTKit shared buffer descriptor.
#[derive(Clone, Copy, Debug, PartialEq, Eq, Structural)]
pub struct RtkitBuffer {
    /// Kernel virtual address.
    pub buffer: usize,
    /// Buffer size in bytes.
    pub size: usize,
    /// IOVA exposed to firmware.
    pub iova: u64,
    /// Device virtual address alias.
    pub dva: u64,
}

/// RTKit management endpoint.
pub const RTKIT_EP_MGMT: u8 = 0;

/// RTKit crashlog endpoint.
pub const RTKIT_EP_CRASHLOG: u8 = 1;

/// RTKit syslog endpoint.
pub const RTKIT_EP_SYSLOG: u8 = 2;

/// RTKit debug endpoint.
pub const RTKIT_EP_DEBUG: u8 = 3;

/// RTKit ioreport endpoint.
pub const RTKIT_EP_IOREPORT: u8 = 4;

/// RTKit oslog endpoint.
pub const RTKIT_EP_OSLOG: u8 = 8;

pub const MGMT_MSG_HELLO: u64 = 1;

pub const MGMT_MSG_HELLO_ACK: u64 = 2;

pub const MGMT_MSG_START_EP: u64 = 5;

pub const MGMT_MSG_IOP_PWR_STATE: u64 = 6;

pub const MGMT_MSG_IOP_PWR_STATE_ACK: u64 = 7;

pub const MGMT_MSG_EPMAP: u64 = 8;

pub const MGMT_MSG_AP_PWR_STATE: u64 = 0xb;

/// Last part of an endpoint map, in a map and in its reply.
pub const MGMT_MSG_EPMAP_DONE: u64 = 0x8_0000_0000_0000;

/// More parts of an endpoint map are awaited.
pub const MGMT_MSG_EPMAP_REPLY_MORE: u64 = 1;

pub const MGMT_MSG_START_EP_FLAG: u64 = 2;

pub const MSG_BUFFER_REQUEST: u64 = 1;

/// RTKit powered off state.
pub const RTKIT_POWER_OFF: u32 = 0x00;

/// RTKit sleep state.
pub const RTKIT_POWER_SLEEP: u32 = 0x01;

/// RTKit quiesced state.
pub const RTKIT_POWER_QUIESCED: u32 = 0x10;

/// RTKit powered on state.
pub const RTKIT_POWER_ON: u32 = 0x20;

/// RTKit init state requested during boot.
pub const RTKIT_POWER_INIT: u32 = 0x220;

pub const RTKIT_MIN_VERSION: u32 = 11;

pub const RTKIT_MAX_VERSION: u32 = 12;

pub const RTKIT_BOOT_TIMEOUT_US: u64 = 1_000_000;

/// Why an RTKit exchange failed.
#[derive(Clone, Copy, Debug, PartialEq, Eq, Structural)]
pub enum RtkitError {
    /// The mailbox failed.
    Mailbox(AscError),
    /// A message of another endpoint came during boot.
    UnexpectedMessage,
    /// A management message did not come in time.
    MgmtTimeout,
    /// There is no common protocol version.
    UnsupportedVersion,
}

impl RtkitError {
    /// The message as contracts speak of it.
    pub open spec fn text(self) -> Seq<char> {
        match self {
            RtkitError::Mailbox(error) => error.text(),
            RtkitError::UnexpectedMessage => "apple-rtkit: unexpected non-management message during boot"@,
            RtkitError::MgmtTimeout => "apple-rtkit: timeout waiting for management message"@,
            RtkitError::UnsupportedVersion => "apple-rtkit: unsupported RTKit version range"@,
        }
    }

    /// The message for the kernel log.
    pub fn message(self) -> (r: &'static str)
        ensures
            r@ == self.text(),
    {
        match self {
            RtkitError::Mailbox(error) => error.message(),
            RtkitError::UnexpectedMessage => "apple-rtkit: unexpected non-management message during boot",
            RtkitError::MgmtTimeout => "apple-rtkit: timeout waiting for management message",
            RtkitError::UnsupportedVersion => "apple-rtkit: unsupported RTKit version range",
        }
    }
}

/// Type of a management message.
pub open spec fn mgmt_kind(msg: u64) -> u64 {
    (msg & 0x01ff_0000_0000_0000) >> 48
}

/// A management message of a type.
pub open spec fn mgmt_word(kind: u64, payload: u64) -> u64 {
    (kind << 48) | payload
}

/// Power state in a management message.
pub open spec fn power_of(msg: u64) -> u32 {
    (msg & 0xffff_ffff) as u32
}

/// Endpoint of a mailbox message.
pub open spec fn endpoint_of(msg1: u32) -> u8 {
    (msg1 & 0x3f) as u8
}

fn mgmt_type(msg: u64) -> (r: u64)
    ensures
        r == mgmt_kind(msg),
{
    (msg & 0x01ff_0000_0000_0000) >> 48
}

fn mgmt_msg(kind: u64, payload: u64) -> (r: u64)
    ensures
        r == mgmt_word(kind, payload),
{
    (kind << 48) | payload
}

/// The mailbox message that carries a management word.
pub open spec fn mgmt_mail(kind: u64, payload: u64) -> AscMessage {
    AscMessage { msg0: mgmt_word(kind, payload), msg1: 0 }
}

/// The protocol version both sides speak: the newest one offered, at most 12.
pub open spec fn negotiated(hello: u64) -> u32 {
    let max = ((hello & 0xffff_0000) >> 16) as u32;
    if max <= RTKIT_MAX_VERSION {
        max
    } else {
        RTKIT_MAX_VERSION
    }
}

/// The version ranges overlap.
pub open spec fn version_ok(hello: u64) -> bool {
    negotiated(hello) >= RTKIT_MIN_VERSION && negotiated(hello) >= (hello & 0xffff) as u32
}

/// The answer to a hello.
pub open spec fn hello_ack(hello: u64) -> AscMessage {
    let v = negotiated(hello) as u64;
    mgmt_mail(MGMT_MSG_HELLO_ACK, v | (v << 16))
}

/// The answer to one part of an endpoint map.
pub open spec fn epmap_reply(map: u64) -> AscMessage {
    mgmt_mail(
        MGMT_MSG_EPMAP,
        if map & MGMT_MSG_EPMAP_DONE != 0 {
            MGMT_MSG_EPMAP_DONE
        } else {
            MGMT_MSG_EPMAP_REPLY_MORE
        },
    )
}

/// The endpoint bitmap after one part of an endpoint map.
pub open spec fn with_map(bitmap: u64, map: u64) -> u64 {
    let base = (map & 0x700) >> 8;
    if base < 2 {
        bitmap | ((map & 0xffff_ffff) << ((32 * base) as u64))
    } else {
        bitmap
    }
}

/// The request to start an endpoint.
pub open spec fn start_mail(ep: u8) -> AscMessage {
    mgmt_mail(MGMT_MSG_START_EP, ((ep as u64) << 24) | MGMT_MSG_START_EP_FLAG)
}

/// A management message was received.
pub open spec fn is_mgmt(t: Traffic) -> bool {
    t is Received && endpoint_of(t->Received_0.msg1) == RTKIT_EP_MGMT
}

/// A message that reports the coprocessor to be powered on.
pub open spec fn reports_on(msg: u64) -> bool {
    mgmt_kind(msg) == MGMT_MSG_IOP_PWR_STATE_ACK && power_of(msg) == RTKIT_POWER_ON
}

/// One part of an endpoint map that came and was answered.
pub struct MapRound {
    /// The state once it had come.
    pub heard: LinkShot,
    pub map: u64,
    /// The state behind the answer.
    pub shot: LinkShot,
}

/// The endpoint bitmap after an exchange.
pub open spec fn epmap_bits(bitmap: u64, rounds: Seq<MapRound>) -> u64
    decreases rounds.len(),
{
    if rounds.len() == 0 {
        bitmap
    } else {
        with_map(epmap_bits(bitmap, rounds.drop_last()), rounds.last().map)
    }
}

/// The power state of the coprocessor by the last of the messages that
/// reported one.
pub open spec fn power_seen(power: u32, looks: Seq<MgmtLook>) -> u32
    decreases looks.len(),
{
    if looks.len() == 0 {
        power
    } else if mgmt_kind(looks.last().mail.msg0) == MGMT_MSG_IOP_PWR_STATE_ACK {
        power_of(looks.last().mail.msg0)
    } else {
        power_seen(power, looks.drop_last())
    }
}

/// RTKit protocol context.
pub struct AppleRtkit {
    pub asc: AppleAsc,
    pub iop_power: u32,
    pub ap_power: u32,
    pub crashed: bool,
    pub ep_bitmap: u64,
}

impl AppleRtkit {
    /// Everything that passed through the mailbox.
    pub open spec fn traffic(&self) -> Seq<Traffic> {
        self.asc.traffic()
    }

    /// The record of operations together with the traffic.
    pub open spec fn shot(&self, ops: Seq<Op>) -> LinkShot {
        LinkShot { ops, traffic: self.traffic() }
    }

    /// What a boot changes besides the mailbox.
    pub open spec fn boot_state(&self) -> BootState {
        BootState { ep_bitmap: self.ep_bitmap, iop_power: self.iop_power }
    }

    /// The mailbox registers lie in the address space.
    pub open spec fn mapped(&self) -> bool {
        self.asc.mapped()
    }

    /// Both sides are powered on and the coprocessor has not crashed.
    pub open spec fn running(&self) -> bool {
        self.iop_power == RTKIT_POWER_ON && self.ap_power == RTKIT_POWER_ON && !self.crashed
    }

    /// Only the mailbox changed.
    pub open spec fn same_state(&self, other: &AppleRtkit) -> bool {
        &&& self.asc.at() == other.asc.at()
        &&& self.iop_power == other.iop_power
        &&& self.ap_power == other.ap_power
        &&& self.crashed == other.crashed
        &&& self.ep_bitmap == other.ep_bitmap
    }

    /// Create a new RTKit protocol instance over ASC.
    pub fn new(asc: AppleAsc) -> (r: Self)
        ensures
            r.asc == asc,
            r.iop_power == RTKIT_POWER_OFF,
            r.ap_power == RTKIT_POWER_OFF,
            !r.crashed,
            r.ep_bitmap == 0,
    {
        AppleRtkit {
            asc,
            iop_power: RTKIT_POWER_OFF,
            ap_power: RTKIT_POWER_OFF,
            crashed: false,
            ep_bitmap: 0,
        }
    }

    /// Send one endpoint message.
    pub fn send<M: Mmio>(&mut self, bus: &mut Bus<M>, msg: &RtkitMessage) -> (r: Result<
        (),
        RtkitError,
    >)
        requires
            old(self).mapped(),
        ensures
            final(self).same_state(old(self)),
            r is Ok ==> final(self).traffic() == old(self).traffic().push(
                Traffic::Sent(AscMessage { msg0: msg.msg, msg1: msg.ep as u32 }),
            ),
            r is Err ==> final(self).traffic() == old(self).traffic() && r->Err_0
                == RtkitError::Mailbox(AscError::SendTimeout),
            send_done(
                old(bus).ops(),
                final(bus).ops(),
                old(self).asc.at(),
                AscMessage { msg0: msg.msg, msg1: msg.ep as u32 },
                r is Ok,
            ),
    {
        let asc_msg = AscMessage { msg0: msg.msg, msg1: msg.ep as u32 };
        match self.asc.send(bus, &asc_msg) {
            Ok(()) => Ok(()),
            Err(error) => Err(RtkitError::Mailbox(error)),
        }
    }

    /// Start a specific RTKit endpoint.
    pub fn start_ep<M: Mmio>(&mut self, bus: &mut Bus<M>, ep: u8) -> (r: Result<(), RtkitError>)
        requires
            old(self).mapped(),
        ensures
            final(self).same_state(old(self)),
            r is Ok ==> final(self).traffic() == old(self).traffic().push(
                Traffic::Sent(start_mail(ep)),
            ),
            r is Err ==> final(self).traffic() == old(self).traffic() && r->Err_0
                == RtkitError::Mailbox(AscError::SendTimeout),
            send_done(
                old(bus).ops(),
                final(bus).ops(),
                old(self).asc.at(),
                start_mail(ep),
                r is Ok,
            ),
    {
        let payload: u64 = ((ep as u64) << 24) | MGMT_MSG_START_EP_FLAG;
        self.send(bus, &RtkitMessage { ep: RTKIT_EP_MGMT, msg: mgmt_msg(MGMT_MSG_START_EP, payload) })
    }

    /// Check whether RTKit is fully running.
    pub fn is_running(&self) -> (r: bool)
        ensures
            r == self.running(),
    {
        self.iop_power == RTKIT_POWER_ON && self.ap_power == RTKIT_POWER_ON && !self.crashed
    }

    /// Check whether RTKit reported crash state.
    pub fn is_crashed(&self) -> (r: bool)
        ensures
            r == self.crashed,
    {
        self.crashed
    }

    /// Handle a message of a system endpoint. `true` means that it was one
    /// and has been dealt with.
    pub fn handle_internal_message<M: Mmio>(&mut self, bus: &mut Bus<M>, msg: &RtkitMessage) -> (r:
        Result<bool, RtkitError>)
        requires
            old(self).mapped(),
        ensures
            handled(*msg, old(self), final(self), r),
            answered(*msg, old(self).asc.at(), old(bus).ops(), final(bus).ops(), r is Ok),
    {
        if msg.ep == RTKIT_EP_MGMT {
            self.handle_mgmt_message(msg.msg);
            return Ok(true);
        }
        if msg.ep == RTKIT_EP_SYSLOG || msg.ep == RTKIT_EP_CRASHLOG {
            return self.handle_buffer_request(bus, msg);
        }
        Ok(false)
    }

    fn handle_mgmt_message(&mut self, raw: u64)
        ensures
            final(self).traffic() == old(self).traffic(),
            final(self).asc.at() == old(self).asc.at(),
            final(self).ap_power == old(self).ap_power,
            final(self).crashed == old(self).crashed,
            final(self).ep_bitmap == old(self).ep_bitmap,
            final(self).iop_power == (if mgmt_kind(raw) == MGMT_MSG_IOP_PWR_STATE_ACK {
                power_of(raw)
            } else {
                old(self).iop_power
            }),
    {
        if mgmt_type(raw) == MGMT_MSG_IOP_PWR_STATE_ACK {
            self.iop_power = (raw & 0xffff_ffff) as u32;
        }
    }

    fn handle_buffer_request<M: Mmio>(&mut self, bus: &mut Bus<M>, msg: &RtkitMessage) -> (r:
        Result<bool, RtkitError>)
        requires
            old(self).mapped(),
        ensures
            final(self).same_state(old(self)),
            if msg.msg & 0xff != MSG_BUFFER_REQUEST {
                r == Ok::<bool, RtkitError>(false) && final(self).traffic() == old(self).traffic()
            } else if r is Ok {
                r == Ok::<bool, RtkitError>(true) && final(self).traffic() == old(
                    self,
                ).traffic().push(
                    Traffic::Sent(AscMessage { msg0: MSG_BUFFER_REQUEST, msg1: msg.ep as u32 }),
                )
            } else {
                r->Err_0 == RtkitError::Mailbox(AscError::SendTimeout) && final(self).traffic()
                    == old(self).traffic()
            },
            if msg.msg & 0xff != MSG_BUFFER_REQUEST {
                final(bus).ops() == old(bus).ops()
            } else {
                send_done(
                    old(bus).ops(),
                    final(bus).ops(),
                    old(self).asc.at(),
                    AscMessage { msg0: MSG_BUFFER_REQUEST, msg1: msg.ep as u32 },
                    r is Ok,
                )
            },
    {
        if (msg.msg & 0xff) != MSG_BUFFER_REQUEST {
            return Ok(false);
        }
        match self.send(bus, &RtkitMessage { ep: msg.ep, msg: MSG_BUFFER_REQUEST }) {
            Ok(()) => Ok(true),
            Err(error) => Err(error),
        }
    }

    /// Receive one message, handling system endpoints internally. `true`
    /// means that `msg` holds a message for the caller.
    pub fn recv<M: Mmio>(&mut self, bus: &mut Bus<M>, msg: &mut RtkitMessage) -> (r: Result<
        bool,
        RtkitError,
    >)
        requires
            old(self).mapped(),
        ensures
            ({
                let nothing = final(self).same_state(old(self)) && final(self).traffic() == old(
                    self,
                ).traffic() && *final(msg) == *old(msg);
                let at = old(self).asc.at();
                ||| nothing && r == Ok::<bool, RtkitError>(false) && found_nothing(
                    old(bus).ops(),
                    final(bus).ops(),
                    at,
                )
                ||| nothing && r == Err::<bool, _>(RtkitError::Mailbox(AscError::NoMessage))
                    && lost_message(old(bus).ops(), final(bus).ops(), at)
                ||| dispatched_from(
                    *final(msg),
                    old(self),
                    final(self),
                    r,
                    (old(bus).ops(), final(bus).ops()),
                    at,
                )
            }),
    {
        let ghost start = bus.ops();
        let ghost at = self.asc.at();
        let pending = self.asc.can_recv(bus);
        let ghost first = choose|first: u32|
            bus.ops() == start.push(#[trigger] rd(at, 0x114, first)) && pending == (first
                & ASC_MBOX_CTRL_EMPTY == 0);
        if !pending {
            return Ok(false);
        }
        let mut asc_msg = AscMessage { msg0: 0, msg1: 0 };
        let ghost looked = bus.ops();
        let fetched = self.asc.recv(bus, &mut asc_msg);
        let ghost (status, msg0, msg1) = choose|status: u32, msg0: u64, msg1: u64|
            {
                &&& bus.ops() == looked + #[trigger] fetch_ops(at, status, msg0, msg1)
                &&& (fetched is Ok) == (status & ASC_MBOX_CTRL_EMPTY == 0)
                &&& fetched is Ok ==> asc_msg.msg0 == msg0 && asc_msg.msg1 == msg1 as u32
            };
        let ghost f = Fetch { first, status, msg0, msg1 };
        assert(bus.ops() =~= start + fetch_of(f, at));
        match fetched {
            Ok(()) => {},
            Err(error) => {
                assert(lost_message(start, bus.ops(), at));
                return Err(RtkitError::Mailbox(error));
            },
        }
        msg.ep = (asc_msg.msg1 & 0x3f) as u8;
        msg.msg = asc_msg.msg0;
        let ghost middle = *self;
        let handled_as = self.handle_internal_message(bus, msg);
        let r = match handled_as {
            Ok(internal) => Ok(!internal),
            Err(error) => Err(error),
        };
        proof {
            assert(after_receipt(*msg, old(self), &middle, asc_msg.msg1));
            assert(dispatched_via(*msg, old(self), self, r, &middle, asc_msg.msg1));
            assert(took_message_via(*msg, start, bus.ops(), at, r is Ok, f));
            assert(dispatched_via(*msg, old(self), self, r, &middle, f.msg1 as u32));
            assert(dispatched_from(*msg, old(self), self, r, (start, bus.ops()), at));
        }
        r
    }

    fn wait_any_mgmt_msg<M: Mmio>(&mut self, bus: &mut Bus<M>, timeout_us: u64) -> (r: Result<
        u64,
        RtkitError,
    >)
        requires
            old(self).mapped(),
        ensures
            final(self).asc.at() == old(self).asc.at(),
            final(self).ap_power == old(self).ap_power,
            final(self).crashed == old(self).crashed,
            final(self).ep_bitmap == old(self).ep_bitmap,
            final(self).iop_power == old(self).iop_power,
            match r {
                Ok(msg) => exists|mail: AscMessage|
                    mail.msg0 == msg && #[trigger] mgmt_received(
                        old(self).shot(old(bus).ops()),
                        final(self).shot(final(bus).ops()),
                        old(self).asc.at(),
                        timeout_us,
                        mail,
                    ),
                Err(e) => receipt_failed(
                    (old(self).traffic(), final(self).traffic()),
                    (old(bus).ops(), final(bus).ops()),
                    old(self).asc.at(),
                    timeout_us,
                    e,
                ),
            },
    {
        let ghost t0 = self.traffic();
        let ghost o0 = bus.ops();
        let ghost at = self.asc.at();
        let mut asc_msg = AscMessage { msg0: 0, msg1: 0 };
        let received = self.asc.recv_timeout(bus, &mut asc_msg, timeout_us);
        match received {
            Ok(()) => {},
            Err(error) => {
                proof {
                    let e = RtkitError::Mailbox(error);
                    assert(nothing_came(
                        (t0, self.traffic()),
                        (o0, bus.ops()),
                        at,
                        timeout_us,
                        e,
                        asc_msg,
                    ));
                }
                return Err(RtkitError::Mailbox(error));
            },
        }
        let ep: u8 = (asc_msg.msg1 & 0x3f) as u8;
        if ep != RTKIT_EP_MGMT {
            let message = RtkitMessage { ep, msg: asc_msg.msg0 };
            let ghost o1 = bus.ops();
            let outcome = self.handle_internal_message(bus, &message);
            let error = match outcome {
                Ok(_) => RtkitError::UnexpectedMessage,
                Err(error) => error,
            };
            proof {
                assert(strange_mail(
                    (t0, self.traffic()),
                    (o0, bus.ops()),
                    at,
                    timeout_us,
                    error,
                    asc_msg,
                    o1,
                ));
            }
            return Err(error);
        }
        assert(is_mgmt(Traffic::Received(asc_msg)));
        assert(mgmt_received(
            old(self).shot(o0),
            self.shot(bus.ops()),
            at,
            timeout_us,
            asc_msg,
        ));
        Ok(asc_msg.msg0)
    }

    fn wait_mgmt_msg<M: Mmio>(
        &mut self,
        bus: &mut Bus<M>,
        expected: u64,
        timeout_us: u64,
    ) -> (r: Result<u64, RtkitError>)
        requires
            old(self).mapped(),
        ensures
            final(self).same_state(old(self)),
            mgmt_waited(
                old(self).shot(old(bus).ops()),
                final(self).shot(final(bus).ops()),
                old(self).asc.at(),
                timeout_us,
                expected,
                r,
            ),
    {
        let ghost a = self.shot(bus.ops());
        let ghost at = self.asc.at();
        let start: u64 = bus.current_time();
        let ghost first = clocked(a, start);
        let mut polls: u64 = 0;
        let ghost mut looks: Seq<MgmtLook> = Seq::empty();
        while polls < u64::MAX
            invariant
                a == old(self).shot(old(bus).ops()),
                first == clocked(a, start),
                at == old(self).asc.at(),
                self.mapped(),
                self.same_state(old(self)),
                looks.len() == polls,
                self.shot(bus.ops()) == before_look(first, looks, polls as int),
                mgmt_looks_ok(first, looks, at, start, timeout_us),
                forall|i: int|
                    0 <= i < looks.len() ==> mgmt_kind((#[trigger] looks[i]).mail.msg0)
                        != expected,
            decreases u64::MAX - polls,
        {
            let ghost last = self.shot(bus.ops());
            let now: u64 = bus.current_time();
            let ghost o2 = bus.ops();
            assert(self.shot(o2) == clocked(last, now));
            let elapsed: u64 = if now >= start {
                now - start
            } else {
                0
            };
            if elapsed >= timeout_us {
                assert(mgmt_waited_with(
                    a,
                    self.shot(o2),
                    at,
                    timeout_us,
                    expected,
                    Err(RtkitError::MgmtTimeout),
                    start,
                    now,
                    looks,
                ));
                return Err(RtkitError::MgmtTimeout);
            }
            let remaining: u64 = timeout_us - elapsed;
            let awaited_msg = self.wait_any_mgmt_msg(bus, remaining);
            let msg: u64 = match awaited_msg {
                Ok(msg) => msg,
                Err(error) => {
                    assert(mgmt_waited_with(
                        a,
                        self.shot(bus.ops()),
                        at,
                        timeout_us,
                        expected,
                        Err(error),
                        start,
                        now,
                        looks,
                    ));
                    return Err(error);
                },
            };
            proof {
                let mail = choose|mail: AscMessage|
                    mail.msg0 == msg && #[trigger] mgmt_received(
                        clocked(last, now),
                        self.shot(bus.ops()),
                        at,
                        remaining,
                        mail,
                    );
                let next = looks.push(MgmtLook { now, shot: self.shot(bus.ops()), mail });
                mgmt_looks_push(first, looks, at, start, timeout_us, next.last());
                looks = next;
            }
            if mgmt_type(msg) == expected {
                assert(mgmt_waited_with(
                    a,
                    self.shot(bus.ops()),
                    at,
                    timeout_us,
                    expected,
                    Ok(msg),
                    start,
                    now,
                    looks,
                ));
                return Ok(msg);
            }
            polls = polls + 1;
        }
        assert(mgmt_waited_with(
            a,
            self.shot(bus.ops()),
            at,
            timeout_us,
            expected,
            Err(RtkitError::MgmtTimeout),
            start,
            0,
            looks,
        ));
        Err(RtkitError::MgmtTimeout)
    }

    fn handle_hello<M: Mmio>(&mut self, bus: &mut Bus<M>, hello: u64) -> (r: Result<
        (),
        RtkitError,
    >)
        requires
            old(self).mapped(),
        ensures
            final(self).same_state(old(self)),
            greeted(
                old(self).shot(old(bus).ops()),
                final(self).shot(final(bus).ops()),
                old(self).asc.at(),
                hello,
                plain_result(r),
            ),
    {
        let minver: u32 = (hello & 0xffff) as u32;
        let maxver: u32 = ((hello & 0xffff_0000) >> 16) as u32;
        let version: u32 = if maxver <= RTKIT_MAX_VERSION {
            maxver
        } else {
            RTKIT_MAX_VERSION
        };
        if version < RTKIT_MIN_VERSION || version < minver {
            return Err(RtkitError::UnsupportedVersion);
        }
        let payload: u64 = (version as u64) | ((version as u64) << 16);
        self.send(
            bus,
            &RtkitMessage { ep: RTKIT_EP_MGMT, msg: mgmt_msg(MGMT_MSG_HELLO_ACK, payload) },
        )
    }

    fn handle_epmap_sequence<M: Mmio>(&mut self, bus: &mut Bus<M>) -> (r: Result<(), RtkitError>)
        requires
            old(self).mapped(),
        ensures
            final(self).asc.at() == old(self).asc.at(),
            final(self).iop_power == old(self).iop_power,
            final(self).ap_power == old(self).ap_power,
            final(self).crashed == old(self).crashed,
            epmap_exchanged(
                old(self).shot(old(bus).ops()),
                final(self).shot(final(bus).ops()),
                old(self).asc.at(),
                (old(self).ep_bitmap, final(self).ep_bitmap),
                plain_result(r),
            ),
    {
        let ghost a = self.shot(bus.ops());
        let ghost bits = self.ep_bitmap;
        let ghost at = self.asc.at();
        let ghost mut rounds: Seq<MapRound> = Seq::empty();
        let mut count: u64 = 0;
        while count < u64::MAX
            invariant
                a == old(self).shot(old(bus).ops()),
                bits == old(self).ep_bitmap,
                at == old(self).asc.at(),
                self.mapped(),
                self.asc.at() == old(self).asc.at(),
                self.iop_power == old(self).iop_power,
                self.ap_power == old(self).ap_power,
                self.crashed == old(self).crashed,
                rounds.len() == count,
                self.shot(bus.ops()) == before_round(a, rounds, count as int),
                map_rounds_ok(a, rounds, at),
                forall|i: int|
                    0 <= i < rounds.len() ==> (#[trigger] rounds[i]).map & MGMT_MSG_EPMAP_DONE == 0,
                self.ep_bitmap == epmap_bits(bits, rounds),
            decreases u64::MAX - count,
        {
            let ghost last = self.shot(bus.ops());
            let awaited_map = self.wait_mgmt_msg(bus, MGMT_MSG_EPMAP, RTKIT_BOOT_TIMEOUT_US);
            let ghost o2 = bus.ops();
            let ghost heard = self.shot(o2);
            let msg: u64 = match awaited_map {
                Ok(msg) => msg,
                Err(error) => {
                    assert(epmap_exchanged_with(
                        a,
                        heard,
                        at,
                        (bits, self.ep_bitmap),
                        Err(error),
                        rounds,
                        heard,
                        0,
                    ));
                    return Err(error);
                },
            };
            let base: u64 = (msg & 0x700) >> 8;
            let bitmap: u64 = msg & 0xffff_ffff;
            if base < 2 {
                self.ep_bitmap = self.ep_bitmap | (bitmap << (32 * base));
            }
            let done = (msg & MGMT_MSG_EPMAP_DONE) != 0;
            let payload: u64 = if done {
                MGMT_MSG_EPMAP_DONE
            } else {
                MGMT_MSG_EPMAP_REPLY_MORE
            };
            let replied = self.send(
                bus,
                &RtkitMessage { ep: RTKIT_EP_MGMT, msg: mgmt_msg(MGMT_MSG_EPMAP, payload) },
            );
            let ghost replied_as = plain_result(replied);
            assert(posted(heard, self.shot(bus.ops()), at, epmap_reply(msg), replied_as));
            match replied {
                Ok(()) => {},
                Err(error) => {
                    assert(epmap_exchanged_with(
                        a,
                        self.shot(bus.ops()),
                        at,
                        (bits, self.ep_bitmap),
                        Err(error),
                        rounds,
                        heard,
                        msg,
                    ));
                    return Err(error);
                },
            }
            proof {
                let next = rounds.push(MapRound { heard, map: msg, shot: self.shot(bus.ops()) });
                map_rounds_push(a, rounds, at, next.last());
                assert(next.drop_last() =~= rounds);
                rounds = next;
            }
            if done {
                assert(epmap_exchanged_with(
                    a,
                    self.shot(bus.ops()),
                    at,
                    (bits, self.ep_bitmap),
                    Ok(0),
                    rounds,
                    heard,
                    msg,
                ));
                return Ok(());
            }
            count = count + 1;
        }
        assert(epmap_exchanged_with(
            a,
            self.shot(bus.ops()),
            at,
            (bits, self.ep_bitmap),
            Err(RtkitError::MgmtTimeout),
            rounds,
            a,
            0,
        ));
        Err(RtkitError::MgmtTimeout)
    }

    fn start_system<M: Mmio>(&mut self, bus: &mut Bus<M>) -> (r: Result<(), RtkitError>)
        requires
            old(self).mapped(),
        ensures
            final(self).same_state(old(self)),
            system_started(
                old(self).shot(old(bus).ops()),
                final(self).shot(final(bus).ops()),
                old(self).asc.at(),
                plain_result(r),
            ),
    {
        let ghost a = self.shot(bus.ops());
        let ghost at = self.asc.at();
        let endpoints: [u8; 5] = [
            RTKIT_EP_CRASHLOG,
            RTKIT_EP_SYSLOG,
            RTKIT_EP_DEBUG,
            RTKIT_EP_IOREPORT,
            RTKIT_EP_OSLOG,
        ];
        let mut i: usize = 0;
        let ghost mut shots: Seq<LinkShot> = seq![a];
        while i < 5
            invariant
                i <= 5,
                a == old(self).shot(old(bus).ops()),
                at == old(self).asc.at(),
                self.mapped(),
                self.same_state(old(self)),
                endpoints@ == system_endpoints(),
                shots.len() == i + 1,
                shots[0] == a,
                shots.last() == self.shot(bus.ops()),
                forall|k: int| 0 <= k < i ==> system_step(shots, k, at, Ok(0)),
            decreases 5 - i,
        {
            let asked = self.start_ep(bus, endpoints[i]);
            let ghost asked_as = plain_result(asked);
            let ghost more = shots.push(self.shot(bus.ops()));
            proof {
                assert(system_step(more, i as int, at, asked_as));
                assert forall|k: int| 0 <= k < i implies system_step(more, k, at, Ok(0)) by {
                    assert(system_step(shots, k, at, Ok(0)));
                }
            }
            match asked {
                Ok(()) => {},
                Err(error) => {
                    assert(system_started_with(a, self.shot(bus.ops()), at, Err(error), more));
                    return Err(error);
                },
            }
            proof {
                shots = more;
            }
            i = i + 1;
        }
        assert(system_started_with(a, self.shot(bus.ops()), at, Ok(0), shots));
        Ok(())
    }

    fn wait_power_on<M: Mmio>(&mut self, bus: &mut Bus<M>) -> (r: Result<(), RtkitError>)
        requires
            old(self).mapped(),
        ensures
            final(self).asc.at() == old(self).asc.at(),
            final(self).ap_power == old(self).ap_power,
            final(self).crashed == old(self).crashed,
            final(self).ep_bitmap == old(self).ep_bitmap,
            r is Ok ==> final(self).iop_power == RTKIT_POWER_ON,
            power_waited(
                old(self).shot(old(bus).ops()),
                final(self).shot(final(bus).ops()),
                old(self).asc.at(),
                (old(self).iop_power, final(self).iop_power),
                plain_result(r),
            ),
    {
        let ghost a = self.shot(bus.ops());
        let ghost at = self.asc.at();
        let ghost power = self.iop_power;
        let ghost mut looks: Seq<MgmtLook> = Seq::empty();
        let mut count: u64 = 0;
        while count < u64::MAX
            invariant
                a == old(self).shot(old(bus).ops()),
                at == old(self).asc.at(),
                self.mapped(),
                self.asc.at() == old(self).asc.at(),
                self.ap_power == old(self).ap_power,
                self.crashed == old(self).crashed,
                self.ep_bitmap == old(self).ep_bitmap,
                power == old(self).iop_power,
                self.iop_power == power_seen(power, looks),
                looks.len() == count,
                self.shot(bus.ops()) == before_look(a, looks, count as int),
                forall|i: int| 0 <= i < looks.len() ==> #[trigger] power_look_ok(a, looks, i, at),
                forall|i: int|
                    0 <= i < looks.len() ==> !reports_on((#[trigger] looks[i]).mail.msg0),
            decreases u64::MAX - count,
        {
            let ghost last = self.shot(bus.ops());
            let awaited_msg = self.wait_any_mgmt_msg(bus, RTKIT_BOOT_TIMEOUT_US);
            let msg: u64 = match awaited_msg {
                Ok(msg) => msg,
                Err(error) => {
                    assert(power_waited_with(
                        a,
                        self.shot(bus.ops()),
                        at,
                        (power, self.iop_power),
                        Err(error),
                        looks,
                    ));
                    return Err(error);
                },
            };
            proof {
                let mail = choose|mail: AscMessage|
                    mail.msg0 == msg && #[trigger] mgmt_received(
                        last,
                        self.shot(bus.ops()),
                        at,
                        RTKIT_BOOT_TIMEOUT_US,
                        mail,
                    );
                let next = looks.push(MgmtLook { now: 0, shot: self.shot(bus.ops()), mail });
                assert forall|i: int| 0 <= i < next.len() implies #[trigger] power_look_ok(
                    a,
                    next,
                    i,
                    at,
                ) by {
                    if i < looks.len() {
                        assert(power_look_ok(a, looks, i, at));
                    }
                }
                assert(next.drop_last() =~= looks);
                looks = next;
            }
            let ghost seen = self.shot(bus.ops());
            if mgmt_type(msg) == MGMT_MSG_IOP_PWR_STATE_ACK {
                let pwr: u32 = (msg & 0xffff_ffff) as u32;
                self.iop_power = pwr;
                if pwr == RTKIT_POWER_ON {
                    assert(power_waited_with(a, seen, at, (power, pwr), Ok(0), looks));
                    return Ok(());
                }
            }
            count = count + 1;
        }
        assert(power_waited_with(
            a,
            self.shot(bus.ops()),
            at,
            (power, self.iop_power),
            Err(RtkitError::MgmtTimeout),
            looks,
        ));
        Err(RtkitError::MgmtTimeout)
    }

    /// Perform the RTKit boot handshake: start the coprocessor, agree on a
    /// version, take over the endpoint map, start the system endpoints and
    /// wait until the coprocessor reports to be powered on.
    pub fn boot<M: Mmio>(&mut self, bus: &mut Bus<M>) -> (r: Result<(), RtkitError>)
        requires
            old(self).mapped(),
        ensures
            final(self).asc.at() == old(self).asc.at(),
            final(self).crashed == old(self).crashed,
            final(self).ap_power == (if r is Ok {
                RTKIT_POWER_ON
            } else {
                old(self).ap_power
            }),
            r is Ok ==> final(self).iop_power == RTKIT_POWER_ON && final(self).running()
                == !old(self).crashed,
            booted(
                old(self).shot(old(bus).ops()),
                final(self).shot(final(bus).ops()),
                old(self).asc.at(),
                (old(self).boot_state(), final(self).boot_state()),
                plain_result(r),
            ),
    {
        let ghost a = self.shot(bus.ops());
        let ghost at = self.asc.at();
        let ghost state = self.boot_state();
        let ghost bits = self.ep_bitmap;
        let ghost power = self.iop_power;
        self.asc.cpu_start(bus);
        let ghost mut b = Boot {
            shots: seq![self.shot(bus.ops())],
            hello: 0,
            bits: (bits, bits),
            power: (power, power),
        };
        assert(b.shots[0] == started(a, at));
        let asked = self.send(
            bus,
            &RtkitMessage {
                ep: RTKIT_EP_MGMT,
                msg: mgmt_msg(MGMT_MSG_IOP_PWR_STATE, RTKIT_POWER_INIT as u64),
            },
        );
        proof {
            let next = Boot { shots: b.shots.push(self.shot(bus.ops())), ..b };
            assert(next.shots.drop_last() =~= b.shots);
            boot_goes_on(a, at, b, next, plain_result(asked));
            b = next;
        }
        match asked {
            Ok(()) => {},
            Err(error) => {
                assert(booted_via(
                    a,
                    self.shot(bus.ops()),
                    at,
                    (state, self.boot_state()),
                    Err(error),
                    b,
                ));
                return Err(error);
            },
        }
        let greeting = self.wait_mgmt_msg(bus, MGMT_MSG_HELLO, RTKIT_BOOT_TIMEOUT_US);
        proof {
            let next = Boot {
                shots: b.shots.push(self.shot(bus.ops())),
                hello: answer_of(greeting),
                ..b
            };
            assert(next.shots.drop_last() =~= b.shots);
            boot_goes_on(a, at, b, next, greeting);
            b = next;
        }
        let hello: u64 = match greeting {
            Ok(hello) => hello,
            Err(error) => {
                assert(booted_via(
                    a,
                    self.shot(bus.ops()),
                    at,
                    (state, self.boot_state()),
                    Err(error),
                    b,
                ));
                return Err(error);
            },
        };
        let agreed = self.handle_hello(bus, hello);
        proof {
            let next = Boot { shots: b.shots.push(self.shot(bus.ops())), ..b };
            assert(next.shots.drop_last() =~= b.shots);
            boot_goes_on(a, at, b, next, plain_result(agreed));
            b = next;
        }
        match agreed {
            Ok(()) => {},
            Err(error) => {
                assert(booted_via(
                    a,
                    self.shot(bus.ops()),
                    at,
                    (state, self.boot_state()),
                    Err(error),
                    b,
                ));
                return Err(error);
            },
        }
        let exchanged = self.handle_epmap_sequence(bus);
        proof {
            let next = Boot {
                shots: b.shots.push(self.shot(bus.ops())),
                bits: (bits, self.ep_bitmap),
                ..b
            };
            assert(next.shots.drop_last() =~= b.shots);
            boot_goes_on(a, at, b, next, plain_result(exchanged));
            b = next;
        }
        match exchanged {
            Ok(()) => {},
            Err(error) => {
                assert(booted_via(
                    a,
                    self.shot(bus.ops()),
                    at,
                    (state, self.boot_state()),
                    Err(error),
                    b,
                ));
                return Err(error);
            },
        }
        let begun = self.start_system(bus);
        proof {
            let next = Boot { shots: b.shots.push(self.shot(bus.ops())), ..b };
            assert(next.shots.drop_last() =~= b.shots);
            boot_goes_on(a, at, b, next, plain_result(begun));
            b = next;
        }
        match begun {
            Ok(()) => {},
            Err(error) => {
                assert(booted_via(
                    a,
                    self.shot(bus.ops()),
                    at,
                    (state, self.boot_state()),
                    Err(error),
                    b,
                ));
                return Err(error);
            },
        }
        let powered = self.wait_power_on(bus);
        proof {
            let next = Boot {
                shots: b.shots.push(self.shot(bus.ops())),
                power: (power, self.iop_power),
                ..b
            };
            assert(next.shots.drop_last() =~= b.shots);
            boot_goes_on(a, at, b, next, plain_result(powered));
            b = next;
        }
        match powered {
            Ok(()) => {},
            Err(error) => {
                assert(booted_via(
                    a,
                    self.shot(bus.ops()),
                    at,
                    (state, self.boot_state()),
                    Err(error),
                    b,
                ));
                return Err(error);
            },
        }
        let told = self.send(
            bus,
            &RtkitMessage {
                ep: RTKIT_EP_MGMT,
                msg: mgmt_msg(MGMT_MSG_AP_PWR_STATE, RTKIT_POWER_ON as u64),
            },
        );
        proof {
            let next = Boot { shots: b.shots.push(self.shot(bus.ops())), ..b };
            assert(next.shots.drop_last() =~= b.shots);
            boot_goes_on(a, at, b, next, plain_result(told));
            b = next;
        }
        match told {
            Ok(()) => {},
            Err(error) => {
                assert(booted_via(
                    a,
                    self.shot(bus.ops()),
                    at,
                    (state, self.boot_state()),
                    Err(error),
                    b,
                ));
                return Err(error);
            },
        }
        self.ap_power = RTKIT_POWER_ON;
        assert(booted_via(a, self.shot(bus.ops()), at, (state, self.boot_state()), Ok(0), b));
        Ok(())
    }
}

/// The record of operations together with the traffic of the mailbox.
pub struct LinkShot {
    pub ops: Seq<Op>,
    pub traffic: Seq<Traffic>,
}

/// The outcome of a step that returns nothing.
pub open spec fn plain_result(r: Result<(), RtkitError>) -> Result<u64, RtkitError> {
    match r {
        Ok(_) => Ok(0),
        Err(e) => Err(e),
    }
}

/// The message that came, if one did.
pub open spec fn answer_of(r: Result<u64, RtkitError>) -> u64 {
    match r {
        Ok(msg) => msg,
        Err(_) => 0,
    }
}

/// The clock was looked at.
pub open spec fn clocked(a: LinkShot, now: u64) -> LinkShot {
    LinkShot { ops: a.ops.push(Op::Clock { now }), ..a }
}

/// The coprocessor was started.
pub open spec fn started(a: LinkShot, at: usize) -> LinkShot {
    LinkShot {
        ops: a.ops.push(wr(at, 0x44, ASC_CPU_CONTROL_START)),
        traffic: a.traffic.push(Traffic::Started),
    }
}

/// A message was sent, or the mailbox stayed full.
pub open spec fn posted(
    a: LinkShot,
    b: LinkShot,
    at: usize,
    mail: AscMessage,
    r: Result<u64, RtkitError>,
) -> bool {
    &&& send_done(a.ops, b.ops, at, mail, r is Ok)
    &&& match r {
        Ok(n) => n == 0 && b.traffic == a.traffic.push(Traffic::Sent(mail)),
        Err(e) => e == RtkitError::Mailbox(AscError::SendTimeout) && b.traffic == a.traffic,
    }
}

/// A management message was received within `timeout`.
pub open spec fn mgmt_received(
    a: LinkShot,
    b: LinkShot,
    at: usize,
    timeout: u64,
    mail: AscMessage,
) -> bool {
    &&& recv_done(a.ops, b.ops, at, timeout, mail, None)
    &&& is_mgmt(Traffic::Received(mail))
    &&& b.traffic == a.traffic.push(Traffic::Received(mail))
}

/// One management message that came while another was waited for.
pub struct MgmtLook {
    /// The clock before it was waited for, where it was looked at.
    pub now: u64,
    /// The state behind it.
    pub shot: LinkShot,
    pub mail: AscMessage,
}

/// The state before a message was waited for.
pub open spec fn before_look(first: LinkShot, looks: Seq<MgmtLook>, i: int) -> LinkShot {
    if i <= 0 {
        first
    } else {
        looks[i - 1].shot
    }
}

/// What is left of `timeout`.
pub open spec fn left_of(start: u64, now: u64, timeout: u64) -> u64 {
    (timeout - elapsed_since(start, now)) as u64
}

/// A message came in what was left of the time.
pub open spec fn mgmt_look_ok(
    first: LinkShot,
    looks: Seq<MgmtLook>,
    i: int,
    at: usize,
    start: u64,
    timeout: u64,
) -> bool {
    let k = looks[i];
    &&& elapsed_since(start, k.now) < timeout
    &&& mgmt_received(
        clocked(before_look(first, looks, i), k.now),
        k.shot,
        at,
        left_of(start, k.now, timeout),
        k.mail,
    )
}

/// The messages came one after the other, each in what was left of the time.
pub open spec fn mgmt_looks_ok(
    first: LinkShot,
    looks: Seq<MgmtLook>,
    at: usize,
    start: u64,
    timeout: u64,
) -> bool {
    forall|i: int|
        0 <= i < looks.len() ==> #[trigger] mgmt_look_ok(first, looks, i, at, start, timeout)
}

proof fn mgmt_looks_push(
    first: LinkShot,
    looks: Seq<MgmtLook>,
    at: usize,
    start: u64,
    timeout: u64,
    k: MgmtLook,
)
    requires
        mgmt_looks_ok(first, looks, at, start, timeout),
        mgmt_look_ok(first, looks.push(k), looks.len() as int, at, start, timeout),
    ensures
        mgmt_looks_ok(first, looks.push(k), at, start, timeout),
{
    let next = looks.push(k);
    assert forall|i: int| 0 <= i < next.len() implies #[trigger] mgmt_look_ok(
        first,
        next,
        i,
        at,
        start,
        timeout,
    ) by {
        if i < looks.len() {
            assert(mgmt_look_ok(first, looks, i, at, start, timeout));
        }
    }
}

/// A wait for a management message of a kind: messages of other kinds came
/// until one of it did, until none came in what was left of the time, or until
/// the clock found the time up.
pub open spec fn mgmt_waited_with(
    a: LinkShot,
    b: LinkShot,
    at: usize,
    timeout: u64,
    kind: u64,
    r: Result<u64, RtkitError>,
    start: u64,
    now: u64,
    looks: Seq<MgmtLook>,
) -> bool {
    let first = clocked(a, start);
    let n = looks.len() as int;
    let last = before_look(first, looks, n);
    &&& mgmt_looks_ok(first, looks, at, start, timeout)
    &&& forall|i: int|
        0 <= i < n - 1 ==> mgmt_kind((#[trigger] looks[i]).mail.msg0) != kind
    &&& match r {
        Ok(msg) => {
            &&& n > 0
            &&& looks[n - 1].mail.msg0 == msg
            &&& mgmt_kind(msg) == kind
            &&& b == last
        },
        Err(e) => {
            &&& n > 0 ==> mgmt_kind(looks[n - 1].mail.msg0) != kind
            &&& {
                ||| {
                    &&& e == RtkitError::MgmtTimeout
                    &&& elapsed_since(start, now) >= timeout
                    &&& b == clocked(last, now)
                }
                ||| {
                    &&& elapsed_since(start, now) < timeout
                    &&& receipt_failed(
                        (last.traffic, b.traffic),
                        (clocked(last, now).ops, b.ops),
                        at,
                        left_of(start, now, timeout),
                        e,
                    )
                }
                ||| e == RtkitError::MgmtTimeout && n == u64::MAX && b == last
            }
        },
    }
}

/// A management message of a kind was waited for.
pub open spec fn mgmt_waited(
    a: LinkShot,
    b: LinkShot,
    at: usize,
    timeout: u64,
    kind: u64,
    r: Result<u64, RtkitError>,
) -> bool {
    exists|start: u64, now: u64, looks: Seq<MgmtLook>| #[trigger]
        mgmt_waited_with(a, b, at, timeout, kind, r, start, now, looks)
}

/// A hello was answered, or has no version in common with this side.
pub open spec fn greeted(
    a: LinkShot,
    b: LinkShot,
    at: usize,
    hello: u64,
    r: Result<u64, RtkitError>,
) -> bool {
    if version_ok(hello) {
        posted(a, b, at, hello_ack(hello), r)
    } else {
        r == Err::<u64, RtkitError>(RtkitError::UnsupportedVersion) && b == a
    }
}

/// The state before a part of the endpoint map was waited for.
pub open spec fn before_round(a: LinkShot, rounds: Seq<MapRound>, i: int) -> LinkShot {
    if i <= 0 {
        a
    } else {
        rounds[i - 1].shot
    }
}

/// A part of the endpoint map came and was answered.
pub open spec fn map_round_ok(a: LinkShot, rounds: Seq<MapRound>, i: int, at: usize) -> bool {
    let k = rounds[i];
    &&& mgmt_waited(
        before_round(a, rounds, i),
        k.heard,
        at,
        RTKIT_BOOT_TIMEOUT_US,
        MGMT_MSG_EPMAP,
        Ok(k.map),
    )
    &&& posted(k.heard, k.shot, at, epmap_reply(k.map), Ok(0))
}

/// The parts of the endpoint map came one after the other.
pub open spec fn map_rounds_ok(a: LinkShot, rounds: Seq<MapRound>, at: usize) -> bool {
    forall|i: int| 0 <= i < rounds.len() ==> #[trigger] map_round_ok(a, rounds, i, at)
}

proof fn map_rounds_push(a: LinkShot, rounds: Seq<MapRound>, at: usize, k: MapRound)
    requires
        map_rounds_ok(a, rounds, at),
        map_round_ok(a, rounds.push(k), rounds.len() as int, at),
    ensures
        map_rounds_ok(a, rounds.push(k), at),
{
    let next = rounds.push(k);
    assert forall|i: int| 0 <= i < next.len() implies #[trigger] map_round_ok(
        a,
        next,
        i,
        at,
    ) by {
        if i < rounds.len() {
            assert(map_round_ok(a, rounds, i, at));
        }
    }
}

/// An exchange of the endpoint map: part after part, until one is the last,
/// none comes, or one cannot be answered.
pub open spec fn epmap_exchanged_with(
    a: LinkShot,
    b: LinkShot,
    at: usize,
    bits: (u64, u64),
    r: Result<u64, RtkitError>,
    rounds: Seq<MapRound>,
    heard: LinkShot,
    map: u64,
) -> bool {
    let n = rounds.len() as int;
    let last = before_round(a, rounds, n);
    let wait = RTKIT_BOOT_TIMEOUT_US;
    &&& map_rounds_ok(a, rounds, at)
    &&& forall|i: int|
        0 <= i < n - 1 ==> (#[trigger] rounds[i]).map & MGMT_MSG_EPMAP_DONE == 0
    &&& match r {
        Ok(_) => {
            &&& n > 0
            &&& rounds[n - 1].map & MGMT_MSG_EPMAP_DONE != 0
            &&& b == last
            &&& bits.1 == epmap_bits(bits.0, rounds)
        },
        Err(e) => {
            &&& n > 0 ==> rounds[n - 1].map & MGMT_MSG_EPMAP_DONE == 0
            &&& {
                ||| {
                    &&& mgmt_waited(last, b, at, wait, MGMT_MSG_EPMAP, Err(e))
                    &&& bits.1 == epmap_bits(bits.0, rounds)
                }
                ||| {
                    &&& mgmt_waited(last, heard, at, wait, MGMT_MSG_EPMAP, Ok(map))
                    &&& posted(heard, b, at, epmap_reply(map), Err(e))
                    &&& bits.1 == with_map(epmap_bits(bits.0, rounds), map)
                }
                ||| {
                    &&& e == RtkitError::MgmtTimeout
                    &&& n == u64::MAX
                    &&& b == last
                    &&& bits.1 == epmap_bits(bits.0, rounds)
                }
            }
        },
    }
}

/// The endpoint map was exchanged, or not, for a stated reason.
pub open spec fn epmap_exchanged(
    a: LinkShot,
    b: LinkShot,
    at: usize,
    bits: (u64, u64),
    r: Result<u64, RtkitError>,
) -> bool {
    exists|rounds: Seq<MapRound>, heard: LinkShot, map: u64| #[trigger]
        epmap_exchanged_with(a, b, at, bits, r, rounds, heard, map)
}

/// The system endpoints in the order in which they are started.
pub open spec fn system_endpoints() -> Seq<u8> {
    seq![
        RTKIT_EP_CRASHLOG,
        RTKIT_EP_SYSLOG,
        RTKIT_EP_DEBUG,
        RTKIT_EP_IOREPORT,
        RTKIT_EP_OSLOG,
    ]
}

/// A system endpoint was started.
pub open spec fn system_step(
    shots: Seq<LinkShot>,
    i: int,
    at: usize,
    r: Result<u64, RtkitError>,
) -> bool {
    posted(shots[i], shots[i + 1], at, start_mail(system_endpoints()[i]), r)
}

/// The system endpoints were started, up to the first that failed.
pub open spec fn system_started_with(
    a: LinkShot,
    b: LinkShot,
    at: usize,
    r: Result<u64, RtkitError>,
    shots: Seq<LinkShot>,
) -> bool {
    let n = shots.len() - 1;
    &&& 0 < n <= 5
    &&& shots[0] == a
    &&& shots[n] == b
    &&& forall|i: int| 0 <= i < n - 1 ==> #[trigger] system_step(shots, i, at, Ok(0))
    &&& system_step(shots, n - 1, at, r)
    &&& r is Ok ==> n == 5
}

/// The system endpoints were started, or not, for a stated reason.
pub open spec fn system_started(
    a: LinkShot,
    b: LinkShot,
    at: usize,
    r: Result<u64, RtkitError>,
) -> bool {
    exists|shots: Seq<LinkShot>| #[trigger] system_started_with(a, b, at, r, shots)
}

/// A management message came while power was waited for.
pub open spec fn power_look_ok(a: LinkShot, looks: Seq<MgmtLook>, i: int, at: usize) -> bool {
    mgmt_received(
        before_look(a, looks, i),
        looks[i].shot,
        at,
        RTKIT_BOOT_TIMEOUT_US,
        looks[i].mail,
    )
}

/// Management messages came until one reported power, or until none came.
pub open spec fn power_waited_with(
    a: LinkShot,
    b: LinkShot,
    at: usize,
    power: (u32, u32),
    r: Result<u64, RtkitError>,
    looks: Seq<MgmtLook>,
) -> bool {
    let n = looks.len() as int;
    let last = before_look(a, looks, n);
    &&& power.1 == power_seen(power.0, looks)
    &&& forall|i: int| 0 <= i < n ==> #[trigger] power_look_ok(a, looks, i, at)
    &&& forall|i: int| 0 <= i < n - 1 ==> !reports_on((#[trigger] looks[i]).mail.msg0)
    &&& match r {
        Ok(_) => n > 0 && reports_on(looks[n - 1].mail.msg0) && b == last,
        Err(e) => {
            &&& n > 0 ==> !reports_on(looks[n - 1].mail.msg0)
            &&& {
                ||| receipt_failed(
                    (last.traffic, b.traffic),
                    (last.ops, b.ops),
                    at,
                    RTKIT_BOOT_TIMEOUT_US,
                    e,
                )
                ||| e == RtkitError::MgmtTimeout && n == u64::MAX && b == last
            }
        },
    }
}

/// Power was waited for.
pub open spec fn power_waited(
    a: LinkShot,
    b: LinkShot,
    at: usize,
    power: (u32, u32),
    r: Result<u64, RtkitError>,
) -> bool {
    exists|looks: Seq<MgmtLook>| #[trigger] power_waited_with(a, b, at, power, r, looks)
}

/// The course of a boot.
pub struct Boot {
    /// The state once the coprocessor was started, and behind each step.
    pub shots: Seq<LinkShot>,
    /// The hello.
    pub hello: u64,
    /// The endpoint bitmap before and behind the exchange of the map.
    pub bits: (u64, u64),
    /// The power state of the coprocessor before and behind the wait for it.
    pub power: (u32, u32),
}

/// The steps of a boot in order: the request to power up, the wait for the
/// hello, its answer, the endpoint map, the start of the system endpoints, the
/// wait for power, the last report.
pub open spec fn boot_step(b: Boot, i: int, at: usize, r: Result<u64, RtkitError>) -> bool {
    let from = b.shots[i];
    let to = b.shots[i + 1];
    if i == 0 {
        posted(from, to, at, mgmt_mail(MGMT_MSG_IOP_PWR_STATE, RTKIT_POWER_INIT as u64), r)
    } else if i == 1 {
        mgmt_waited(from, to, at, RTKIT_BOOT_TIMEOUT_US, MGMT_MSG_HELLO, r)
    } else if i == 2 {
        greeted(from, to, at, b.hello, r)
    } else if i == 3 {
        epmap_exchanged(from, to, at, b.bits, r)
    } else if i == 4 {
        system_started(from, to, at, r)
    } else if i == 5 {
        power_waited(from, to, at, b.power, r)
    } else {
        posted(from, to, at, mgmt_mail(MGMT_MSG_AP_PWR_STATE, RTKIT_POWER_ON as u64), r)
    }
}

/// What a step that succeeded returned.
pub open spec fn step_value(b: Boot, i: int) -> Result<u64, RtkitError> {
    if i == 1 {
        Ok(b.hello)
    } else {
        Ok(0)
    }
}

/// The coprocessor was started, and all steps so far succeeded.
pub open spec fn steps_ok(a: LinkShot, at: usize, b: Boot) -> bool {
    &&& b.shots.len() > 0
    &&& b.shots[0] == started(a, at)
    &&& forall|i: int|
        0 <= i < b.shots.len() - 1 ==> #[trigger] boot_step(b, i, at, step_value(b, i))
}

/// The coprocessor was started, and all steps but the last one succeeded.
pub open spec fn booting(a: LinkShot, at: usize, b: Boot) -> bool {
    &&& b.shots.len() > 0
    &&& b.shots[0] == started(a, at)
    &&& forall|i: int|
        0 <= i < b.shots.len() - 2 ==> #[trigger] boot_step(b, i, at, step_value(b, i))
}

/// What a boot changes besides the mailbox.
pub struct BootState {
    pub ep_bitmap: u64,
    pub iop_power: u32,
}

/// A boot took its steps, up to the first that failed.
pub open spec fn booted_via(
    a: LinkShot,
    z: LinkShot,
    at: usize,
    state: (BootState, BootState),
    r: Result<u64, RtkitError>,
    b: Boot,
) -> bool {
    let n = b.shots.len() - 1;
    &&& booting(a, at, b)
    &&& 1 <= n <= 7
    &&& z == b.shots[n]
    &&& match r {
        Ok(_) => n == 7 && boot_step(b, 6, at, Ok(0)),
        Err(e) => boot_step(b, n - 1, at, Err(e)),
    }
    &&& b.bits.0 == state.0.ep_bitmap
    &&& b.power.0 == state.0.iop_power
    &&& state.1.ep_bitmap == (if n >= 4 {
        b.bits.1
    } else {
        state.0.ep_bitmap
    })
    &&& state.1.iop_power == (if n >= 6 {
        b.power.1
    } else {
        state.0.iop_power
    })
}

/// A boot, complete or up to the first step that failed.
pub open spec fn booted(
    a: LinkShot,
    z: LinkShot,
    at: usize,
    state: (BootState, BootState),
    r: Result<u64, RtkitError>,
) -> bool {
    exists|b: Boot| #[trigger] booted_via(a, z, at, state, r, b)
}

/// One more step of a boot leaves those before it as they are.
proof fn boot_goes_on(
    a: LinkShot,
    at: usize,
    b: Boot,
    c: Boot,
    r: Result<u64, RtkitError>,
)
    requires
        steps_ok(a, at, b),
        c.shots.len() == b.shots.len() + 1,
        c.shots.drop_last() == b.shots,
        b.shots.len() >= 3 ==> c.hello == b.hello,
        b.shots.len() >= 5 ==> c.bits == b.bits,
        b.shots.len() >= 7 ==> c.power == b.power,
        boot_step(c, b.shots.len() - 1, at, r),
    ensures
        booting(a, at, c),
        r == step_value(c, b.shots.len() - 1) ==> steps_ok(a, at, c),
{
    let n = b.shots.len() as int;
    assert forall|i: int| 0 <= i < n implies c.shots[i] == b.shots[i] by {
        assert(c.shots.drop_last()[i] == c.shots[i]);
    }
    assert forall|i: int| 0 <= i < n - 1 implies #[trigger] boot_step(
        c,
        i,
        at,
        step_value(c, i),
    ) by {
        assert(boot_step(b, i, at, step_value(b, i)));
    }
}

/// A request for a buffer by a system endpoint.
pub open spec fn asks_buffer(msg: RtkitMessage) -> bool {
    (msg.ep == RTKIT_EP_SYSLOG || msg.ep == RTKIT_EP_CRASHLOG) && msg.msg & 0xff
        == MSG_BUFFER_REQUEST
}

/// A request for a buffer is answered; nothing else is sent.
pub open spec fn answered(
    msg: RtkitMessage,
    at: usize,
    before: Seq<Op>,
    after: Seq<Op>,
    ok: bool,
) -> bool {
    if asks_buffer(msg) {
        send_done(
            before,
            after,
            at,
            AscMessage { msg0: MSG_BUFFER_REQUEST, msg1: msg.ep as u32 },
            ok,
        )
    } else {
        after == before
    }
}

/// What the mailbox registers returned to an attempt to receive.
pub struct Fetch {
    /// The status that announced a message.
    pub first: u32,
    /// The status, read again.
    pub status: u32,
    pub msg0: u64,
    pub msg1: u64,
}

/// The accesses of an attempt to receive a message that was announced.
pub open spec fn fetch_of(f: Fetch, at: usize) -> Seq<Op> {
    seq![rd(at, 0x114, f.first)] + fetch_ops(at, f.status, f.msg0, f.msg1)
}

/// The mailbox was empty.
pub open spec fn found_nothing(before: Seq<Op>, after: Seq<Op>, at: usize) -> bool {
    exists|first: u32|
        after == before.push(#[trigger] rd(at, 0x114, first)) && first & ASC_MBOX_CTRL_EMPTY != 0
}

/// The mailbox announced a message and was then found empty.
pub open spec fn lost_message(before: Seq<Op>, after: Seq<Op>, at: usize) -> bool {
    exists|f: Fetch|
        {
            &&& after == before + #[trigger] fetch_of(f, at)
            &&& f.first & ASC_MBOX_CTRL_EMPTY == 0
            &&& f.status & ASC_MBOX_CTRL_EMPTY != 0
        }
}

/// The message that the registers held was taken out and answered.
pub open spec fn took_message_via(
    msg: RtkitMessage,
    before: Seq<Op>,
    after: Seq<Op>,
    at: usize,
    ok: bool,
    f: Fetch,
) -> bool {
    &&& f.first & ASC_MBOX_CTRL_EMPTY == 0
    &&& f.status & ASC_MBOX_CTRL_EMPTY == 0
    &&& msg == (RtkitMessage { ep: endpoint_of(f.msg1 as u32), msg: f.msg0 })
    &&& answered(msg, at, before + fetch_of(f, at), after, ok)
}

/// A message of another endpoint came where one of the management endpoint
/// was awaited.
pub open spec fn strange_mail(
    traffic: (Seq<Traffic>, Seq<Traffic>),
    ops: (Seq<Op>, Seq<Op>),
    at: usize,
    timeout: u64,
    e: RtkitError,
    mail: AscMessage,
    fetched: Seq<Op>,
) -> bool {
    let msg = RtkitMessage { ep: endpoint_of(mail.msg1), msg: mail.msg0 };
    let ok = e == RtkitError::UnexpectedMessage;
    let received = traffic.0.push(Traffic::Received(mail));
    &&& recv_done(ops.0, fetched, at, timeout, mail, None)
    &&& msg.ep != RTKIT_EP_MGMT
    &&& answered(msg, at, fetched, ops.1, ok)
    &&& ok || (asks_buffer(msg) && e == RtkitError::Mailbox(AscError::SendTimeout))
    &&& traffic.1 == (if ok && asks_buffer(msg) {
        received.push(
            Traffic::Sent(AscMessage { msg0: MSG_BUFFER_REQUEST, msg1: msg.ep as u32 }),
        )
    } else {
        received
    })
}

/// No message came in time.
pub open spec fn nothing_came(
    traffic: (Seq<Traffic>, Seq<Traffic>),
    ops: (Seq<Op>, Seq<Op>),
    at: usize,
    timeout: u64,
    e: RtkitError,
    mail: AscMessage,
) -> bool {
    &&& traffic.1 == traffic.0
    &&& e is Mailbox
    &&& recv_done(ops.0, ops.1, at, timeout, mail, Some(e->Mailbox_0))
}

/// No message came in time, or one of another endpoint.
pub open spec fn receipt_failed(
    traffic: (Seq<Traffic>, Seq<Traffic>),
    ops: (Seq<Op>, Seq<Op>),
    at: usize,
    timeout: u64,
    e: RtkitError,
) -> bool {
    ||| exists|mail: AscMessage| #[trigger] nothing_came(traffic, ops, at, timeout, e, mail)
    ||| exists|mail: AscMessage, fetched: Seq<Op>| #[trigger]
        strange_mail(traffic, ops, at, timeout, e, mail, fetched)
}

/// A message of a system endpoint was dealt with, or left for the caller.
pub open spec fn handled(
    msg: RtkitMessage,
    before: &AppleRtkit,
    after: &AppleRtkit,
    r: Result<bool, RtkitError>,
) -> bool {
    if msg.ep == RTKIT_EP_MGMT {
        &&& r == Ok::<bool, RtkitError>(true)
        &&& after.traffic() == before.traffic()
        &&& after.asc.at() == before.asc.at()
        &&& after.ap_power == before.ap_power
        &&& after.crashed == before.crashed
        &&& after.ep_bitmap == before.ep_bitmap
        &&& after.iop_power == (if mgmt_kind(msg.msg) == MGMT_MSG_IOP_PWR_STATE_ACK {
            power_of(msg.msg)
        } else {
            before.iop_power
        })
    } else if asks_buffer(msg) {
        &&& after.same_state(before)
        &&& if r is Ok {
            r == Ok::<bool, RtkitError>(true) && after.traffic() == before.traffic().push(
                Traffic::Sent(AscMessage { msg0: MSG_BUFFER_REQUEST, msg1: msg.ep as u32 }),
            )
        } else {
            r->Err_0 == RtkitError::Mailbox(AscError::SendTimeout) && after.traffic()
                == before.traffic()
        }
    } else {
        &&& r == Ok::<bool, RtkitError>(false)
        &&& after.same_state(before)
        &&& after.traffic() == before.traffic()
    }
}

/// The context right after a message came in.
pub open spec fn after_receipt(
    msg: RtkitMessage,
    before: &AppleRtkit,
    middle: &AppleRtkit,
    msg1: u32,
) -> bool {
    &&& msg.ep == endpoint_of(msg1)
    &&& middle.same_state(before)
    &&& middle.traffic() == before.traffic().push(
        Traffic::Received(AscMessage { msg0: msg.msg, msg1 }),
    )
}

/// A message came in and was handled; it is left to the caller where `r` is
/// `Ok(true)`.
pub open spec fn dispatched_via(
    msg: RtkitMessage,
    before: &AppleRtkit,
    after: &AppleRtkit,
    r: Result<bool, RtkitError>,
    middle: &AppleRtkit,
    msg1: u32,
) -> bool {
    &&& after_receipt(msg, before, middle, msg1)
    &&& handled(
        msg,
        middle,
        after,
        match r {
            Ok(mine) => Ok(!mine),
            Err(error) => Err(error),
        },
    )
}

/// The message that the registers held came in and was handled.
pub open spec fn dispatched_from(
    msg: RtkitMessage,
    before: &AppleRtkit,
    after: &AppleRtkit,
    r: Result<bool, RtkitError>,
    ops: (Seq<Op>, Seq<Op>),
    at: usize,
) -> bool {
    exists|middle: AppleRtkit, f: Fetch|
        {
            &&& #[trigger] dispatched_via(msg, before, after, r, &middle, f.msg1 as u32)
            &&& took_message_via(msg, ops.0, ops.1, at, r is Ok, f)
        }
}

/// A boot times out only where a message is waited for: the hello, a part of the
/// endpoint map, or the report of power. Every other step has another error.
pub proof fn only_waits_time_out(
    a: LinkShot,
    z: LinkShot,
    at: usize,
    state: (BootState, BootState),
    b: Boot,
)
    requires
        booted_via(a, z, at, state, Err(RtkitError::MgmtTimeout), b),
    ensures
        ({
            let failed = b.shots.len() - 2;
            failed == 1 || failed == 3 || failed == 5
        }),
{
}

/// A wait for a management message ends for want of time without an error of
/// the mailbox only where a message of another kind came, or where there was
/// no time at all.
pub proof fn a_silent_mailbox_is_reported(
    a: LinkShot,
    b: LinkShot,
    at: usize,
    timeout: u64,
    kind: u64,
    start: u64,
    now: u64,
    looks: Seq<MgmtLook>,
)
    requires
        mgmt_waited_with(
            a,
            b,
            at,
            timeout,
            kind,
            Err(RtkitError::MgmtTimeout),
            start,
            now,
            looks,
        ),
    ensures
        looks.len() > 0 || elapsed_since(start, now) >= timeout,
        forall|i: int| 0 <= i < looks.len() ==> mgmt_kind((#[trigger] looks[i]).mail.msg0) != kind,
{
}

/// A management word gives back the type and the payload that it was made of.
pub proof fn management_words_read_back(kind: u64, payload: u64)
    requires
        kind < 0x200,
        payload < 0x1_0000_0000_0000,
    ensures
        mgmt_kind(mgmt_word(kind, payload)) == kind,
        mgmt_word(kind, payload) & 0xffff_ffff_ffff == payload,
{
    assert((((kind << 48) | payload) & 0x01ff_0000_0000_0000) >> 48 == kind && ((kind << 48)
        | payload) & 0xffff_ffff_ffff == payload) by (bit_vector)
        requires
            kind < 0x200,
            payload < 0x1_0000_0000_0000,
    ;
}

/// A version that both sides agree on lies in the ranges of both.
pub proof fn agreed_version_suits_both(hello: u64)
    requires
        version_ok(hello),
    ensures
        RTKIT_MIN_VERSION <= negotiated(hello) <= RTKIT_MAX_VERSION,
        (hello & 0xffff) as u32 <= negotiated(hello) <= ((hello & 0xffff_0000) >> 16) as u32,
{
}

} // verus!
