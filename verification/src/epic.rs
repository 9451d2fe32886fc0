//! EPIC: services and remote calls over an AFK endpoint.

use crate::afk::{
    ack_ops, delivered, payload_read, peeked, rings_set_up, shook_hands, AfkEndpoint, AfkError,
    AfkQueueEntry, AfkRingBuffer, AfkShot,
};
use crate::bus::{Bus, Mmio, Op};
use crate::bytes::{
    copy_range, from_le16, from_le32, from_le64, le16, le32, le64, push_bytes, push_le16, push_le32,
    push_le64, push_zeros, read_le16, read_le32,
};
use crate::asc::{elapsed_since, Traffic};
use crate::rtkit::AppleRtkit;
use crate::text::{begins_with, from_utf8_lossy, starts_with, utf8_lossy};
use crate::ports::mail::EpicMailbox;
use crate::ports::notify::{NotifyHandler, NotifyPort};
use crate::ports::pages::{PagePort, PageRequest, PageSource};
use vstd::prelude::*;
use vstd::string::StringSliceAdditionalSpecFns;

verus! {

pub const EPIC_HDR_VERSION: u8 = 2;

pub const EPIC_SUBHDR_VERSION: u8 = 4;

/// DMA buffer size per EPIC endpoint.
pub const EPIC_BUFFER_SIZE: usize = 0x4000;

/// Most channels of an endpoint.
pub const EPIC_MAX_CHANNELS: usize = 8;

/// Service call magic value.
pub const EPIC_SERVICE_CALL_MAGIC: u32 = 0x6970_6378;

/// Timeout for a command reply in microseconds.
pub const EPIC_REPLY_TIMEOUT_US: u64 = 5_000_000;

pub const TYPE_NOTIFY: u32 = 0;

pub const TYPE_COMMAND: u32 = 3;

pub const TYPE_REPLY: u32 = 4;

pub const TYPE_NOTIFY_ACK: u32 = 8;

pub const CAT_REPORT: u8 = 0x00;

pub const CAT_REPLY: u8 = 0x20;

pub const CAT_COMMAND: u8 = 0x30;

pub const SUBTYPE_ANNOUNCE: u16 = 0x30;

pub const SUBTYPE_STD_SERVICE: u16 = 0xc0;

/// Bytes of both headers of a message.
pub const EPIC_HEADERS_SIZE: usize = 40;

/// Bytes of a command or reply behind the headers.
pub const EPIC_CMD_SIZE: usize = 30;

/// Bytes of a service call header.
pub const EPIC_CALL_SIZE: usize = 64;

/// Bytes of an announced name.
pub const EPIC_NAME_SIZE: usize = 32;

/// Why an EPIC request failed.
#[derive(Clone, Copy, Debug, PartialEq, Eq, Structural)]
pub enum EpicError {
    TxBuffer,
    RxBuffer,
    NoServices,
    CommandTooLarge,
    ReplyTimeout,
    ReplyTooShort,
    /// The coprocessor returned this code.
    CommandFailed(u32),
    ReplyTooLong,
    /// The AFK endpoint failed.
    Transport(AfkError),
}

impl EpicError {
    /// The message as contracts speak of it.
    pub open spec fn text(self) -> Seq<char> {
        match self {
            EpicError::TxBuffer => "apple-epic: failed to allocate TX DMA buffer"@,
            EpicError::RxBuffer => "apple-epic: failed to allocate RX DMA buffer"@,
            EpicError::NoServices => "apple-epic: no services discovered"@,
            EpicError::CommandTooLarge => "apple-epic: command data too large"@,
            EpicError::ReplyTimeout => "apple-epic: timeout waiting for command reply"@,
            EpicError::ReplyTooShort => "apple-epic: reply too short for command struct"@,
            EpicError::CommandFailed(_) => "apple-epic: command returned non-zero retcode"@,
            EpicError::ReplyTooLong => "apple-epic: reply rxlen exceeds buffer size"@,
            EpicError::Transport(error) => error.text(),
        }
    }

    /// The message for the kernel log.
    pub fn message(self) -> (r: &'static str)
        ensures
            r@ == self.text(),
    {
        match self {
            EpicError::TxBuffer => "apple-epic: failed to allocate TX DMA buffer",
            EpicError::RxBuffer => "apple-epic: failed to allocate RX DMA buffer",
            EpicError::NoServices => "apple-epic: no services discovered",
            EpicError::CommandTooLarge => "apple-epic: command data too large",
            EpicError::ReplyTimeout => "apple-epic: timeout waiting for command reply",
            EpicError::ReplyTooShort => "apple-epic: reply too short for command struct",
            EpicError::CommandFailed(_) => "apple-epic: command returned non-zero retcode",
            EpicError::ReplyTooLong => "apple-epic: reply rxlen exceeds buffer size",
            EpicError::Transport(error) => error.message(),
        }
    }
}

/// A run of zero bytes.
pub open spec fn zeros(n: nat) -> Seq<u8> {
    Seq::new(n, |i: int| 0u8)
}

/// The header in front of every message.
pub open spec fn hdr_bytes(seq: u16) -> Seq<u8> {
    seq![2u8] + le16(seq) + zeros(13)
}

/// The header that says what a message is.
pub open spec fn sub_hdr_bytes(category: u8, msg_type: u16, seq: u16, payload_len: u32) -> Seq<u8> {
    le32((24 + payload_len) as u32) + seq![4u8, category] + le16(msg_type) + zeros(8) + le16(seq)
        + zeros(2) + le32(payload_len)
}

/// Both headers of a message.
pub open spec fn header_bytes(
    hdr_seq: u16,
    category: u8,
    msg_type: u16,
    seq: u16,
    payload_len: u32,
) -> Seq<u8> {
    hdr_bytes(hdr_seq) + sub_hdr_bytes(category, msg_type, seq, payload_len)
}

/// Buffer addresses and sizes of a command.
pub open spec fn cmd_bytes(rx_paddr: u64, tx_paddr: u64, txlen: u32) -> Seq<u8> {
    le32(0) + le64(rx_paddr) + le64(tx_paddr) + le32(0x4000) + le32(txlen) + zeros(2)
}

/// The header of a service call.
pub open spec fn call_bytes(group: u16, command: u32, data_len: u32) -> Seq<u8> {
    zeros(2) + le16(group) + le32(command) + le32(data_len) + le32(0x6970_6378) + zeros(48)
}

/// A complete command message. The outer header carries the sequence number
/// behind the one of the command.
#[verifier::opaque]
pub open spec fn command_bytes(
    dma: EpicDmaBuffer,
    seq: u16,
    group: u16,
    command: u32,
    data: Seq<u8>,
) -> Seq<u8> {
    let total = 64 + data.len();
    header_bytes(next_seq_of(seq), 0x30, 0xc0, seq, total as u32) + cmd_bytes(
        dma.rx_paddr,
        dma.tx_paddr,
        total as u32,
    ) + call_bytes(group, command, data.len() as u32) + data
}

/// The sequence number behind another.
pub open spec fn next_seq_of(seq: u16) -> u16 {
    if seq == 0xffff {
        0
    } else {
        (seq + 1) as u16
    }
}

/// An acknowledgement of a message.
pub open spec fn ack_bytes(hdr_seq: u16, payload: Seq<u8>) -> Seq<u8> {
    header_bytes(
        hdr_seq,
        0x20,
        from_le16(payload, 22) as u16,
        from_le16(payload, 32) as u16,
        0,
    )
}

/// Bytes in front of the first zero.
pub open spec fn text_len(s: Seq<u8>, from: int) -> int
    decreases s.len() - from,
{
    if from < 0 || from >= s.len() || s[from] == 0 {
        from
    } else {
        text_len(s, from + 1)
    }
}

/// The name in an announcement, up to the first zero byte.
pub open spec fn announced_name(payload: Seq<u8>) -> Seq<u8> {
    let field = payload.subrange(40, 72);
    field.take(text_len(field, 0))
}

/// Per-endpoint DMA buffer pair for command/reply data exchange.
#[derive(Clone, Copy, Debug, PartialEq, Eq, Structural)]
pub struct EpicDmaBuffer {
    /// Kernel virtual address of the TX buffer.
    pub tx_virt: usize,
    /// Physical address of the TX buffer.
    pub tx_paddr: u64,
    /// Kernel virtual address of the RX buffer.
    pub rx_virt: usize,
    /// Physical address of the RX buffer.
    pub rx_paddr: u64,
}

/// Both buffers are cleared.
pub open spec fn cleared_ops(dma: EpicDmaBuffer) -> Seq<Op> {
    seq![
        Op::WriteBytes { addr: dma.tx_virt, bytes: zeros(0x4000) },
        Op::WriteBytes { addr: dma.rx_virt, bytes: zeros(0x4000) },
    ]
}

/// The request for the pages of one buffer.
pub open spec fn buffer_request(answer: Option<(u64, usize)>) -> PageRequest {
    PageRequest { pages: 4, answer }
}

/// A buffer at the address lies in the address space.
pub open spec fn reachable(found: (u64, usize)) -> bool {
    found.1 + 0x4000 <= usize::MAX
}

/// Both buffers were asked for and cleared, or one could not be had.
pub open spec fn buffers_allocated(
    ops: (Seq<Op>, Seq<Op>),
    asked: (Seq<PageRequest>, Seq<PageRequest>),
    r: Result<EpicDmaBuffer, EpicError>,
    tx: Option<(u64, usize)>,
    rx: Option<(u64, usize)>,
) -> bool {
    &&& asked.1 == (if tx is None {
        asked.0.push(buffer_request(tx))
    } else {
        asked.0 + seq![buffer_request(tx), buffer_request(rx)]
    })
    &&& if tx is None {
        r == Err::<EpicDmaBuffer, EpicError>(EpicError::TxBuffer) && ops.1 == ops.0
    } else if rx is None {
        r == Err::<EpicDmaBuffer, EpicError>(EpicError::RxBuffer) && ops.1 == ops.0
    } else if !reachable(tx->0) {
        r == Err::<EpicDmaBuffer, EpicError>(EpicError::TxBuffer) && ops.1 == ops.0
    } else if !reachable(rx->0) {
        r == Err::<EpicDmaBuffer, EpicError>(EpicError::RxBuffer) && ops.1 == ops.0
    } else {
        let dma = EpicDmaBuffer {
            tx_virt: (tx->0).1,
            tx_paddr: (tx->0).0,
            rx_virt: (rx->0).1,
            rx_paddr: (rx->0).0,
        };
        r == Ok::<EpicDmaBuffer, EpicError>(dma) && ops.1 == ops.0 + cleared_ops(dma)
    }
}

impl EpicDmaBuffer {
    /// Both buffers lie in the address space.
    pub open spec fn wf(self) -> bool {
        self.tx_virt + 0x4000 <= usize::MAX && self.rx_virt + 0x4000 <= usize::MAX
    }

    /// Allocate and clear both buffers.
    pub fn allocate<M: Mmio, P: PageSource>(bus: &mut Bus<M>, pages: &mut PagePort<P>) -> (r: Result<
        Self,
        EpicError,
    >)
        ensures
            r is Ok ==> (r->Ok_0).wf(),
            exists|tx: Option<(u64, usize)>, rx: Option<(u64, usize)>| #[trigger]
                buffers_allocated(
                    (old(bus).ops(), final(bus).ops()),
                    (old(pages).log(), final(pages).log()),
                    r,
                    tx,
                    rx,
                ),
    {
        let ghost start = bus.ops();
        let ghost asked = pages.log();
        let tx = pages.alloc_contiguous_pages(4);
        let (tx_paddr, tx_virt): (u64, usize) = match tx {
            Some(found) => found,
            None => {
                let r = Err(EpicError::TxBuffer);
                assert(buffers_allocated((start, bus.ops()), (asked, pages.log()), r, tx, None));
                return r;
            },
        };
        let rx = pages.alloc_contiguous_pages(4);
        assert(pages.log() =~= asked + seq![buffer_request(tx), buffer_request(rx)]);
        let (rx_paddr, rx_virt): (u64, usize) = match rx {
            Some(found) => found,
            None => {
                let r = Err(EpicError::RxBuffer);
                assert(buffers_allocated((start, bus.ops()), (asked, pages.log()), r, tx, rx));
                return r;
            },
        };
        if tx_virt > usize::MAX - EPIC_BUFFER_SIZE {
            let r = Err(EpicError::TxBuffer);
            assert(buffers_allocated((start, bus.ops()), (asked, pages.log()), r, tx, rx));
            return r;
        }
        if rx_virt > usize::MAX - EPIC_BUFFER_SIZE {
            let r = Err(EpicError::RxBuffer);
            assert(buffers_allocated((start, bus.ops()), (asked, pages.log()), r, tx, rx));
            return r;
        }
        bus.zero_bytes(tx_virt, EPIC_BUFFER_SIZE);
        bus.zero_bytes(rx_virt, EPIC_BUFFER_SIZE);
        let dma = EpicDmaBuffer { tx_virt, tx_paddr, rx_virt, rx_paddr };
        proof {
            assert(bus.ops() =~= start + cleared_ops(dma));
            assert(buffers_allocated((start, bus.ops()), (asked, pages.log()), Ok(dma), tx, rx));
        }
        Ok(dma)
    }

    /// The physical addresses of both buffers and the pages of each.
    pub fn release(self) -> (r: (u64, u64, usize))
        ensures
            r == (self.tx_paddr, self.rx_paddr, 4usize),
    {
        (self.tx_paddr, self.rx_paddr, (EPIC_BUFFER_SIZE + 4095) / 4096)
    }
}

/// A discovered EPIC service on a specific channel.
pub struct EpicService {
    /// Service name.
    pub name: String,
    /// Channel number within the AFK endpoint.
    pub channel: u32,
    /// Sequence number for outgoing messages.
    pub seq: u16,
}

/// A service as contracts speak of it.
pub struct ServiceView {
    pub name: Seq<char>,
    pub channel: u32,
}

/// A notification that went to the handler.
pub struct NotificationView {
    pub channel: u32,
    pub subtype: u16,
    pub data: Seq<u8>,
    /// The accesses that lay before it.
    pub after: nat,
}

/// A received message.
pub struct EpicMessage {
    pub channel: u32,
    pub msg_type: u32,
    pub payload: Vec<u8>,
}

/// A received message as contracts speak of it.
pub struct MessageView {
    pub channel: u32,
    pub msg_type: u32,
    pub payload: Seq<u8>,
}

impl EpicMessage {
    pub open spec fn view(&self) -> MessageView {
        MessageView {
            channel: self.channel,
            msg_type: self.msg_type,
            payload: self.payload@,
        }
    }
}

/// What passed through an endpoint.
pub enum EpicMail {
    /// A message came in.
    Received(MessageView),
    /// A message was handed to the transport, which took it or not.
    Sent { channel: u32, msg_type: u32, data: Seq<u8>, taken: bool },
}

/// What an endpoint knows.
pub struct EpicView {
    pub services: Seq<ServiceView>,
    pub notifications: Seq<NotificationView>,
    pub handler: bool,
}

/// The services as contracts speak of them.
pub open spec fn service_views(services: Seq<EpicService>) -> Seq<ServiceView> {
    Seq::new(
        services.len(),
        |i: int| ServiceView { name: services[i].name@, channel: services[i].channel },
    )
}

/// A channel already has a service.
pub open spec fn has_channel(services: Seq<ServiceView>, channel: u32) -> bool {
    exists|i: int| 0 <= i < services.len() && (#[trigger] services[i]).channel == channel
}

/// The services once one was announced; a channel keeps its first service.
pub open spec fn announced(services: Seq<ServiceView>, channel: u32, name: Seq<char>) -> Seq<
    ServiceView,
> {
    if has_channel(services, channel) {
        services
    } else {
        services.push(ServiceView { name, channel })
    }
}

/// What an endpoint knows behind a notification: announcements add a service,
/// everything else goes to the handler where there is one and there is data.
pub open spec fn notified(v: EpicView, channel: u32, payload: Seq<u8>, after: nat) -> EpicView {
    if payload.len() < 40 {
        v
    } else if payload[21] == 0 && from_le16(payload, 22) == 0x30 {
        if payload.len() < 72 {
            v
        } else {
            EpicView {
                services: announced(v.services, channel, utf8_lossy(announced_name(payload))),
                ..v
            }
        }
    } else if v.handler && payload.len() > 40 {
        EpicView {
            notifications: v.notifications.push(
                NotificationView {
                    channel,
                    subtype: from_le16(payload, 22) as u16,
                    data: payload.skip(40),
                    after,
                },
            ),
            ..v
        }
    } else {
        v
    }
}

/// A reply to a command on a channel.
pub open spec fn is_reply(m: MessageView, channel: u32) -> bool {
    m.channel == channel && m.msg_type == 4
}

/// What a receiver found in the ring.
pub struct Receipt {
    pub looked: Seq<Op>,
    pub read: Seq<Op>,
    pub entry: AfkQueueEntry,
    pub payload: Option<Seq<u8>>,
    pub rptr: u32,
    pub ack_rptr: u32,
    pub ack_magic: u32,
    pub ack_size: u32,
}

/// A message was taken out of the ring: looked at, read and acknowledged. A
/// payload that does not lie in the ring counts as empty.
pub open spec fn received_with(
    rx: AfkRingBuffer,
    before: Seq<Op>,
    after: Seq<Op>,
    m: MessageView,
    w: Receipt,
) -> bool {
    &&& peeked(rx, before, w.looked, Some(w.entry))
    &&& payload_read(rx, w.entry.size, w.looked, w.read, w.payload, w.rptr)
    &&& after == w.read + ack_ops(rx, w.ack_rptr, w.ack_magic, w.ack_size)
    &&& m.channel == w.entry.channel
    &&& m.msg_type == w.entry.msg_type
    &&& m.payload == (match w.payload {
        Some(bytes) => bytes,
        None => Seq::empty(),
    })
}

/// A message was taken out of the ring.
pub open spec fn received(
    rx: AfkRingBuffer,
    before: Seq<Op>,
    after: Seq<Op>,
    m: MessageView,
) -> bool {
    exists|w: Receipt| #[trigger] received_with(rx, before, after, m, w)
}

/// The ring was found empty; one that is not in use is not looked at.
pub open spec fn found_empty(rx: AfkRingBuffer, before: Seq<Op>, after: Seq<Op>) -> bool {
    if rx.ready {
        peeked(rx, before, after, None)
    } else {
        after == before
    }
}

/// An endpoint at one point of its work.
pub struct EpicShot {
    pub ops: Seq<Op>,
    /// The AFK endpoint below.
    pub link: AfkEndpoint,
    pub mail: Seq<EpicMail>,
    pub view: EpicView,
}

impl EpicShot {
    /// The clock was looked at.
    pub open spec fn clocked(self, now: u64) -> EpicShot {
        EpicShot { ops: self.ops.push(Op::Clock { now }), ..self }
    }
}

/// A message was taken out of the ring.
pub open spec fn took(a: EpicShot, b: EpicShot, m: MessageView) -> bool {
    &&& received(a.link.rx, a.ops, b.ops, m)
    &&& b.link == a.link
    &&& b.mail == a.mail.push(EpicMail::Received(m))
    &&& b.view == a.view
}

/// The ring was found empty.
pub open spec fn took_nothing(a: EpicShot, b: EpicShot) -> bool {
    found_empty(a.link.rx, a.ops, b.ops) && b == (EpicShot { ops: b.ops, ..a })
}

/// A message was handed to the transport.
pub open spec fn gave(
    a: EpicShot,
    b: EpicShot,
    channel: u32,
    msg_type: u32,
    data: Seq<u8>,
    r: Result<(), AfkError>,
) -> bool {
    &&& delivered(&a.link, &b.link, (a.ops, b.ops), channel, msg_type, data, r)
    &&& b.mail == a.mail.push(EpicMail::Sent { channel, msg_type, data, taken: r is Ok })
    &&& b.view == a.view
}

/// A message was dealt with: a notification is taken in, a reply that nobody
/// waits for is acknowledged, anything else is dropped.
pub open spec fn dealt_with(
    a: EpicShot,
    b: EpicShot,
    m: MessageView,
    seq: u16,
    acks: bool,
    taken: Result<(), AfkError>,
) -> bool {
    if m.msg_type == 0 {
        b == (EpicShot { view: notified(a.view, m.channel, m.payload, a.ops.len()), ..a })
    } else if acks && m.msg_type == 4 && m.payload.len() >= 40 {
        gave(a, b, m.channel, 8, ack_bytes(seq, m.payload), taken)
    } else {
        b == a
    }
}

/// One message that came and was dealt with.
pub struct EpicStep {
    pub m: MessageView,
    /// The endpoint once it had come.
    pub got: EpicShot,
    /// What the transport did with its acknowledgement.
    pub taken: Result<(), AfkError>,
    /// The endpoint once it was dealt with.
    pub shot: EpicShot,
}

/// The endpoint before a message came.
pub open spec fn before_step(a: EpicShot, steps: Seq<EpicStep>, i: int) -> EpicShot {
    if i <= 0 {
        a
    } else {
        steps[i - 1].shot
    }
}

/// A message came and was dealt with.
pub open spec fn step_ok(
    a: EpicShot,
    steps: Seq<EpicStep>,
    i: int,
    seq: u16,
    acks: bool,
) -> bool {
    let k = steps[i];
    &&& took(before_step(a, steps, i), k.got, k.m)
    &&& dealt_with(k.got, k.shot, k.m, seq, acks, k.taken)
}

/// Messages came and were dealt with, one after the other.
pub open spec fn steps_ok(a: EpicShot, steps: Seq<EpicStep>, seq: u16, acks: bool) -> bool {
    forall|i: int| 0 <= i < steps.len() ==> #[trigger] step_ok(a, steps, i, seq, acks)
}

proof fn steps_push(a: EpicShot, steps: Seq<EpicStep>, seq: u16, acks: bool, k: EpicStep)
    requires
        steps_ok(a, steps, seq, acks),
        step_ok(a, steps.push(k), steps.len() as int, seq, acks),
    ensures
        steps_ok(a, steps.push(k), seq, acks),
{
    let more = steps.push(k);
    assert forall|i: int| 0 <= i < more.len() implies #[trigger] step_ok(
        a,
        more,
        i,
        seq,
        acks,
    ) by {
        if i < steps.len() {
            assert(step_ok(a, steps, i, seq, acks));
        }
    }
}

/// Behind the messages the ring was found empty (or their number is
/// exhausted).
pub open spec fn drained(a: EpicShot, b: EpicShot, steps: Seq<EpicStep>) -> bool {
    let last = before_step(a, steps, steps.len() as int);
    ||| took_nothing(last, b)
    ||| steps.len() == u64::MAX && b == last
}

/// All messages in the ring were taken out and dealt with.
pub open spec fn polled_with(a: EpicShot, b: EpicShot, seq: u16, steps: Seq<EpicStep>) -> bool {
    steps_ok(a, steps, seq, true) && drained(a, b, steps)
}

/// Messages were polled for.
pub open spec fn polled(a: EpicShot, b: EpicShot, seq: u16) -> bool {
    exists|steps: Seq<EpicStep>| #[trigger] polled_with(a, b, seq, steps)
}

/// One round of a wait for services.
pub struct PollRound {
    /// The clock before it.
    pub now: u64,
    /// The endpoint behind it.
    pub shot: EpicShot,
}

/// The endpoint before a round.
pub open spec fn before_poll(first: EpicShot, rounds: Seq<PollRound>, i: int) -> EpicShot {
    if i <= 0 {
        first
    } else {
        rounds[i - 1].shot
    }
}

/// Services were missing, there was time, and messages were polled for.
pub open spec fn poll_round_ok(
    first: EpicShot,
    rounds: Seq<PollRound>,
    i: int,
    seq: u16,
    min: usize,
    start: u64,
    timeout: u64,
) -> bool {
    let before = before_poll(first, rounds, i);
    &&& before.view.services.len() < min
    &&& elapsed_since(start, rounds[i].now) < timeout
    &&& polled(before.clocked(rounds[i].now), rounds[i].shot, seq)
}

/// A wait for services: messages were polled for until enough services were
/// known or the clock found the time up. Some are enough in the end.
pub open spec fn services_awaited_with(
    a: EpicShot,
    b: EpicShot,
    seq: u16,
    min: usize,
    timeout: u64,
    r: Option<EpicError>,
    start: u64,
    now: u64,
    rounds: Seq<PollRound>,
) -> bool {
    let first = a.clocked(start);
    let n = rounds.len() as int;
    let last = before_poll(first, rounds, n);
    &&& forall|i: int|
        0 <= i < n ==> #[trigger] poll_round_ok(first, rounds, i, seq, min, start, timeout)
    &&& if last.view.services.len() >= min {
        r is None && b == last
    } else {
        &&& {
            ||| elapsed_since(start, now) >= timeout && b == last.clocked(now)
            ||| n == u64::MAX && b == last
        }
        &&& r == (if b.view.services.len() > 0 {
            None
        } else {
            Some(EpicError::NoServices)
        })
    }
}

/// Services were waited for.
pub open spec fn services_awaited(
    a: EpicShot,
    b: EpicShot,
    seq: u16,
    min: usize,
    timeout: u64,
    r: Option<EpicError>,
) -> bool {
    exists|start: u64, now: u64, rounds: Seq<PollRound>| #[trigger]
        services_awaited_with(a, b, seq, min, timeout, r, start, now, rounds)
}

/// How the reply to a command reads.
pub open spec fn reply_result(payload: Seq<u8>, answer: Seq<u8>) -> Result<Seq<u8>, EpicError> {
    if payload.len() < 70 {
        Err(EpicError::ReplyTooShort)
    } else if from_le32(payload, 40) != 0 {
        Err(EpicError::CommandFailed(from_le32(payload, 40) as u32))
    } else if from_le32(payload, 60) > 0x4000 {
        Err(EpicError::ReplyTooLong)
    } else {
        Ok(answer)
    }
}

/// A reply was read, with its data taken from the RX buffer.
pub open spec fn parsed_with(
    dma: EpicDmaBuffer,
    payload: Seq<u8>,
    before: Seq<Op>,
    after: Seq<Op>,
    r: Result<Seq<u8>, EpicError>,
    answer: Seq<u8>,
) -> bool {
    &&& r == reply_result(payload, answer)
    &&& r is Ok ==> answer.len() == from_le32(payload, 60) && after == before.push(
        Op::ReadBytes { addr: dma.rx_virt, bytes: answer },
    )
    &&& r is Err ==> after == before
}

/// The bytes of a result.
pub open spec fn answer_view(r: Result<Vec<u8>, EpicError>) -> Result<Seq<u8>, EpicError> {
    match r {
        Ok(bytes) => Ok(bytes@),
        Err(e) => Err(e),
    }
}

/// One round of a wait for a reply.
pub struct ListenRound {
    /// The clock before it.
    pub now: u64,
    /// The messages that came.
    pub steps: Seq<EpicStep>,
    /// The endpoint behind it.
    pub shot: EpicShot,
}

/// The endpoint before a round.
pub open spec fn before_listen(first: EpicShot, rounds: Seq<ListenRound>, i: int) -> EpicShot {
    if i <= 0 {
        first
    } else {
        rounds[i - 1].shot
    }
}

/// None of the messages is a reply on the channel.
pub open spec fn no_reply(steps: Seq<EpicStep>, channel: u32) -> bool {
    forall|i: int| 0 <= i < steps.len() ==> !is_reply((#[trigger] steps[i]).m, channel)
}

/// There was time, and all messages in the ring were taken out and dealt
/// with, none of them the reply.
pub open spec fn listen_round_ok(
    first: EpicShot,
    rounds: Seq<ListenRound>,
    i: int,
    seq: u16,
    channel: u32,
    start: u64,
) -> bool {
    let k = rounds[i];
    let a = before_listen(first, rounds, i).clocked(k.now);
    &&& elapsed_since(start, k.now) < EPIC_REPLY_TIMEOUT_US
    &&& steps_ok(a, k.steps, seq, false)
    &&& no_reply(k.steps, channel)
    &&& drained(a, k.shot, k.steps)
}

/// The course of a wait for a reply.
pub struct ReplyWait {
    /// The clock when it began.
    pub start: u64,
    /// The rounds that brought no reply.
    pub rounds: Seq<ListenRound>,
    /// The clock before the last round.
    pub now: u64,
    /// The messages of the last round up to the reply.
    pub steps: Seq<EpicStep>,
    /// The data of the reply.
    pub answer: Seq<u8>,
}

/// A wait for a reply: round after round, until one brings it or the clock
/// finds the time up.
pub open spec fn waited_with(
    a: EpicShot,
    b: EpicShot,
    dma: EpicDmaBuffer,
    seq: u16,
    channel: u32,
    r: Result<Seq<u8>, EpicError>,
    w: ReplyWait,
) -> bool {
    let first = a.clocked(w.start);
    let n = w.rounds.len() as int;
    let last = before_listen(first, w.rounds, n);
    &&& forall|i: int|
        0 <= i < n ==> #[trigger] listen_round_ok(first, w.rounds, i, seq, channel, w.start)
    &&& {
        ||| {
            let taken = w.steps.last().shot;
            &&& elapsed_since(w.start, w.now) < EPIC_REPLY_TIMEOUT_US
            &&& steps_ok(last.clocked(w.now), w.steps, seq, false)
            &&& w.steps.len() > 0
            &&& no_reply(w.steps.drop_last(), channel)
            &&& is_reply(w.steps.last().m, channel)
            &&& parsed_with(dma, w.steps.last().m.payload, taken.ops, b.ops, r, w.answer)
            &&& b == (EpicShot { ops: b.ops, ..taken })
        }
        ||| {
            &&& r == Err::<Seq<u8>, EpicError>(EpicError::ReplyTimeout)
            &&& {
                ||| elapsed_since(w.start, w.now) >= EPIC_REPLY_TIMEOUT_US && b
                    == last.clocked(w.now)
                ||| n == u64::MAX && b == last
            }
        }
    }
}

/// The accesses that put a service call into the TX buffer.
pub open spec fn stage_ops(dma: EpicDmaBuffer, group: u16, command: u32, data: Seq<u8>) -> Seq<Op> {
    let head = Op::WriteBytes {
        addr: dma.tx_virt,
        bytes: call_bytes(group, command, data.len() as u32),
    };
    if data.len() > 0 {
        seq![head, Op::WriteBytes { addr: (dma.tx_virt + 64) as usize, bytes: data }]
    } else {
        seq![head]
    }
}

/// No channel has two services.
pub open spec fn one_per_channel(services: Seq<ServiceView>) -> bool {
    forall|i: int, j: int|
        0 <= i < j < services.len() ==> (#[trigger] services[i]).channel != (
        #[trigger] services[j]).channel
}

/// Every service that was known keeps its place, its name and its channel, and
/// no channel has a second one.
pub open spec fn services_kept(known: Seq<ServiceView>, later: Seq<ServiceView>) -> bool {
    &&& known.len() <= later.len()
    &&& later.take(known.len() as int) == known
    &&& one_per_channel(later)
}

proof fn services_kept_on(a: Seq<ServiceView>, b: Seq<ServiceView>, c: Seq<ServiceView>)
    requires
        services_kept(a, b),
        services_kept(b, c),
    ensures
        services_kept(a, c),
{
    assert(c.take(a.len() as int) =~= b.take(a.len() as int));
}

/// A service, once discovered, keeps its place, its name and its channel, and
/// no channel ever gets a second one, whatever messages come.
pub proof fn services_are_stable(a: EpicShot, steps: Seq<EpicStep>, seq: u16, acks: bool)
    requires
        steps_ok(a, steps, seq, acks),
        one_per_channel(a.view.services),
    ensures
        services_kept(
            a.view.services,
            before_step(a, steps, steps.len() as int).view.services,
        ),
    decreases steps.len(),
{
    let n = a.view.services.len() as int;
    if steps.len() == 0 {
        assert(a.view.services.take(n) =~= a.view.services);
    } else {
        let less = steps.drop_last();
        assert forall|i: int| 0 <= i < less.len() implies #[trigger] step_ok(
            a,
            less,
            i,
            seq,
            acks,
        ) by {
            assert(step_ok(a, steps, i, seq, acks));
        }
        services_are_stable(a, less, seq, acks);
        let last = steps.len() - 1;
        assert(step_ok(a, steps, last, seq, acks));
        let before = before_step(a, less, last);
        assert(before == before_step(a, steps, last));
        assert(steps[last].shot.view.services.take(n) =~= before.view.services.take(n));
    }
}

/// Polling keeps all services.
pub proof fn polling_keeps_services(a: EpicShot, b: EpicShot, seq: u16)
    requires
        polled(a, b, seq),
        one_per_channel(a.view.services),
    ensures
        services_kept(a.view.services, b.view.services),
{
    let steps = choose|steps: Seq<EpicStep>| #[trigger] polled_with(a, b, seq, steps);
    services_are_stable(a, steps, seq, true);
}

proof fn rounds_keep_services(
    first: EpicShot,
    rounds: Seq<PollRound>,
    n: int,
    seq: u16,
    min: usize,
    start: u64,
    timeout: u64,
)
    requires
        0 <= n <= rounds.len(),
        forall|i: int|
            0 <= i < n ==> #[trigger] poll_round_ok(first, rounds, i, seq, min, start, timeout),
        one_per_channel(first.view.services),
    ensures
        services_kept(first.view.services, before_poll(first, rounds, n).view.services),
    decreases n,
{
    if n == 0 {
        let known = first.view.services;
        assert(known.take(known.len() as int) =~= known);
    } else {
        rounds_keep_services(first, rounds, n - 1, seq, min, start, timeout);
        assert(poll_round_ok(first, rounds, n - 1, seq, min, start, timeout));
        let before = before_poll(first, rounds, n - 1);
        polling_keeps_services(before.clocked(rounds[n - 1].now), rounds[n - 1].shot, seq);
        services_kept_on(
            first.view.services,
            before.view.services,
            rounds[n - 1].shot.view.services,
        );
    }
}

/// A wait for services keeps those that are known, and succeeds where some are
/// known in the end.
pub proof fn waiting_keeps_services(
    a: EpicShot,
    b: EpicShot,
    seq: u16,
    min: usize,
    timeout: u64,
    r: Option<EpicError>,
)
    requires
        services_awaited(a, b, seq, min, timeout, r),
        one_per_channel(a.view.services),
    ensures
        services_kept(a.view.services, b.view.services),
        r is None <==> b.view.services.len() >= min || b.view.services.len() > 0,
{
    let (start, now, rounds) = choose|start: u64, now: u64, rounds: Seq<PollRound>| #[trigger]
        services_awaited_with(a, b, seq, min, timeout, r, start, now, rounds);
    let n = rounds.len() as int;
    rounds_keep_services(a.clocked(start), rounds, n, seq, min, start, timeout);
}

proof fn listening_keeps_services(
    first: EpicShot,
    rounds: Seq<ListenRound>,
    n: int,
    seq: u16,
    channel: u32,
    start: u64,
)
    requires
        0 <= n <= rounds.len(),
        forall|i: int|
            0 <= i < n ==> #[trigger] listen_round_ok(first, rounds, i, seq, channel, start),
        one_per_channel(first.view.services),
    ensures
        services_kept(first.view.services, before_listen(first, rounds, n).view.services),
    decreases n,
{
    if n == 0 {
        let known = first.view.services;
        assert(known.take(known.len() as int) =~= known);
    } else {
        listening_keeps_services(first, rounds, n - 1, seq, channel, start);
        assert(listen_round_ok(first, rounds, n - 1, seq, channel, start));
        let k = rounds[n - 1];
        let before = before_listen(first, rounds, n - 1);
        services_are_stable(before.clocked(k.now), k.steps, seq, false);
        services_kept_on(first.view.services, before.view.services, k.shot.view.services);
    }
}

/// A remote call keeps all services.
pub proof fn calling_keeps_services(
    a: EpicShot,
    b: EpicShot,
    dma: EpicDmaBuffer,
    seq: u16,
    q: ServiceCall,
    r: Result<Seq<u8>, EpicError>,
)
    requires
        called(a, b, dma, seq, q, r),
        one_per_channel(a.view.services),
    ensures
        services_kept(a.view.services, b.view.services),
{
    let known = a.view.services;
    assert(known.take(known.len() as int) =~= known);
    if q.data.len() <= 0x3fc0 {
        let c = choose|c: CallSteps| #[trigger] called_with(a, b, dma, seq, q, r, c);
        if c.taken is Ok {
            let w = c.wait;
            let n = w.rounds.len() as int;
            let first = c.middle.clocked(w.start);
            let then = next_seq_of(seq);
            listening_keeps_services(first, w.rounds, n, then, q.channel, w.start);
            let last = before_listen(first, w.rounds, n);
            if b.view != last.view {
                services_are_stable(last.clocked(w.now), w.steps, then, false);
                services_kept_on(known, last.view.services, b.view.services);
            }
        }
    }
}

/// EPIC endpoint: service discovery and command/reply messaging on top of an
/// AFK endpoint.
pub struct EpicEndpoint<N: NotifyHandler> {
    pub mailbox: EpicMailbox,
    pub dma: EpicDmaBuffer,
    /// Outgoing EPIC-level sequence number.
    pub seq: u16,
    /// Discovered services, at most one per channel.
    pub services: Vec<EpicService>,
    /// Who is told of notifications.
    pub handler: Option<NotifyPort<N>>,
}

/// The buffers of a new endpoint.
pub open spec fn dma_of<N: NotifyHandler>(r: Result<EpicEndpoint<N>, EpicError>) -> Result<
    EpicDmaBuffer,
    EpicError,
> {
    match r {
        Ok(epic) => Ok(epic.dma),
        Err(e) => Err(e),
    }
}

/// The steps of setting up an endpoint.
pub struct EpicStart {
    /// The AFK endpoint before and after its handshake.
    pub first: AfkShot,
    pub s: AfkShot,
    pub shaken: Result<(), AfkError>,
    /// What was allocated for the buffers.
    pub tx: Option<(u64, usize)>,
    pub rx: Option<(u64, usize)>,
}

/// The AFK endpoint was started, then both buffers were allocated, up to the
/// first step that failed.
pub open spec fn set_up_with<N: NotifyHandler>(
    traffic: Seq<Traffic>,
    ops: (Seq<Op>, Seq<Op>),
    asked: (Seq<PageRequest>, Seq<PageRequest>),
    ep: u8,
    at: usize,
    r: Result<EpicEndpoint<N>, EpicError>,
    w: EpicStart,
) -> bool {
    &&& w.first.traffic == traffic
    &&& w.first.ops == ops.0
    &&& w.first.asked == asked.0
    &&& w.first.rings.shared is None
    &&& shook_hands(w.first, w.s, ep, at, w.shaken)
    &&& match w.shaken {
        Ok(_) => {
            &&& buffers_allocated((w.s.ops, ops.1), (w.s.asked, asked.1), dma_of(r), w.tx, w.rx)
            &&& r is Ok ==> (r->Ok_0).link().shot(w.s.ops, w.s.asked) == w.s
        },
        Err(e) => {
            &&& r == Err::<EpicEndpoint<N>, EpicError>(EpicError::Transport(e))
            &&& ops.1 == w.s.ops
            &&& asked.1 == w.s.asked
        },
    }
}

impl<N: NotifyHandler> EpicEndpoint<N> {
    pub open spec fn view(&self) -> EpicView {
        EpicView {
            services: service_views(self.services@),
            notifications: match self.handler {
                Some(port) => port.log(),
                None => Seq::empty(),
            },
            handler: self.handler is Some,
        }
    }

    /// The endpoint at this point of its work, given the operations so far.
    pub open spec fn shot(&self, ops: Seq<Op>) -> EpicShot {
        EpicShot { ops, link: self.link(), mail: self.mail(), view: self@ }
    }

    /// Everything that passed through the endpoint.
    pub open spec fn mail(&self) -> Seq<EpicMail> {
        self.mailbox.mail()
    }

    /// The AFK endpoint below.
    pub open spec fn link(&self) -> AfkEndpoint {
        self.mailbox.link()
    }

    /// Rings and buffers lie in the address space.
    pub open spec fn wf(&self) -> bool {
        self.link().wf() && self.dma.wf()
    }

    /// Nothing was sent, received or discovered yet.
    pub open spec fn is_fresh(&self) -> bool {
        self.seq == 0 && self@ == empty_view() && self.mail().len() == 0
    }

    /// Only knowledge, mail and the transport changed.
    pub open spec fn same_shape(&self, other: &EpicEndpoint<N>) -> bool {
        &&& self.dma == other.dma
        &&& self.seq == other.seq
        &&& self@.handler == other@.handler
        &&& self.link().same_rings(&other.link())
    }

    /// Create a new EPIC endpoint over a coprocessor: starts the AFK endpoint
    /// first.
    pub fn new<M: Mmio, P: PageSource>(
        bus: &mut Bus<M>,
        pages: &mut PagePort<P>,
        rtkit: AppleRtkit,
        endpoint: u8,
    ) -> (r: Result<Self, EpicError>)
        requires
            rtkit.mapped(),
        ensures
            r is Ok ==> {
                &&& (r->Ok_0).wf()
                &&& (r->Ok_0).link().started
                &&& (r->Ok_0).link().ep == endpoint
                &&& rings_set_up((r->Ok_0).link().rings())
                &&& (r->Ok_0).is_fresh()
            },
            exists|w: EpicStart| #[trigger]
                set_up_with(
                    rtkit.traffic(),
                    (old(bus).ops(), final(bus).ops()),
                    (old(pages).log(), final(pages).log()),
                    endpoint,
                    rtkit.asc.at(),
                    r,
                    w,
                ),
    {
        let mut afk = AfkEndpoint::new(rtkit, endpoint);
        let ghost traffic = afk.traffic();
        let ghost at = afk.rtkit.asc.at();
        let ghost o0 = bus.ops();
        let ghost p0 = pages.log();
        let ghost first = afk.shot(o0, p0);
        let shaken = afk.start(bus, pages);
        let ghost s = afk.shot(bus.ops(), pages.log());
        match shaken {
            Ok(()) => {},
            Err(error) => {
                let r = Err(EpicError::Transport(error));
                proof {
                    let w = EpicStart { first, s, shaken, tx: None, rx: None };
                    assert(set_up_with(
                        traffic,
                        (o0, bus.ops()),
                        (p0, pages.log()),
                        endpoint,
                        at,
                        r,
                        w,
                    ));
                }
                return r;
            },
        }
        let r = Self::from_afk(bus, pages, afk);
        proof {
            let (tx, rx) = choose|tx: Option<(u64, usize)>, rx: Option<(u64, usize)>| #[trigger]
                buffers_allocated(
                    (s.ops, bus.ops()),
                    (s.asked, pages.log()),
                    dma_of(r),
                    tx,
                    rx,
                );
            let w = EpicStart { first, s, shaken, tx, rx };
            assert(set_up_with(
                traffic,
                (o0, bus.ops()),
                (p0, pages.log()),
                endpoint,
                at,
                r,
                w,
            ));
        }
        r
    }

    /// Create a new EPIC endpoint over a started AFK endpoint.
    pub fn from_afk<M: Mmio, P: PageSource>(bus: &mut Bus<M>, pages: &mut PagePort<P>, afk: AfkEndpoint) -> (r:
        Result<Self, EpicError>)
        requires
            afk.wf(),
        ensures
            r is Ok ==> (r->Ok_0).wf() && (r->Ok_0).link() == afk && (r->Ok_0).is_fresh(),
            exists|tx: Option<(u64, usize)>, rx: Option<(u64, usize)>| #[trigger]
                buffers_allocated(
                    (old(bus).ops(), final(bus).ops()),
                    (old(pages).log(), final(pages).log()),
                    dma_of(r),
                    tx,
                    rx,
                ),
    {
        match EpicDmaBuffer::allocate(bus, pages) {
            Ok(dma) => {
                let epic = EpicEndpoint {
                    mailbox: EpicMailbox::new(afk),
                    dma,
                    seq: 0,
                    services: Vec::new(),
                    handler: None,
                };
                assert(epic@.services =~= empty_view().services);
                Ok(epic)
            },
            Err(e) => Err(e),
        }
    }

    /// Have a handler told of notifications from now on, in place of an
    /// earlier one.
    pub fn set_notify_handler(&mut self, handler: N)
        ensures
            final(self)@ == (EpicView { handler: true, notifications: Seq::empty(), ..old(self)@ }),
            final(self).handler is Some,
            (final(self).handler->0).behind() == handler,
            final(self).mail() == old(self).mail(),
            final(self).seq == old(self).seq,
            final(self).dma == old(self).dma,
            final(self).link() == old(self).link(),
    {
        self.handler = Some(NotifyPort::new(handler));
    }

    /// Take one message out of the ring.
    fn recv_message<M: Mmio>(&mut self, bus: &mut Bus<M>) -> (r: Option<EpicMessage>)
        requires
            old(self).wf(),
        ensures
            final(self).wf(),
            final(self).same_shape(old(self)),
            match r {
                Some(m) => took(
                    old(self).shot(old(bus).ops()),
                    final(self).shot(final(bus).ops()),
                    m@,
                ),
                None => took_nothing(
                    old(self).shot(old(bus).ops()),
                    final(self).shot(final(bus).ops()),
                ),
            },
    {
        self.mailbox.recv_message(bus)
    }

    /// Hand a message to the transport.
    fn send_message<M: Mmio>(
        &mut self,
        bus: &mut Bus<M>,
        channel: u32,
        msg_type: u32,
        data: &Vec<u8>,
    ) -> (r: Result<(), AfkError>)
        requires
            old(self).wf(),
        ensures
            final(self).wf(),
            final(self).same_shape(old(self)),
            gave(
                old(self).shot(old(bus).ops()),
                final(self).shot(final(bus).ops()),
                channel,
                msg_type,
                data@,
                r,
            ),
    {
        self.mailbox.send_message(bus, channel, msg_type, data)
    }

    /// Poll for incoming messages and dispatch them: announcements and
    /// notifications are taken in, replies are acknowledged.
    pub fn poll<M: Mmio>(&mut self, bus: &mut Bus<M>)
        requires
            old(self).wf(),
        ensures
            final(self).wf(),
            final(self).same_shape(old(self)),
            polled(
                old(self).shot(old(bus).ops()),
                final(self).shot(final(bus).ops()),
                old(self).seq,
            ),
    {
        let ghost a = self.shot(bus.ops());
        let ghost seq = self.seq;
        let mut rounds: u64 = 0;
        let ghost mut steps: Seq<EpicStep> = Seq::empty();
        while rounds < u64::MAX
            invariant
                a == old(self).shot(old(bus).ops()),
                seq == old(self).seq,
                self.wf(),
                self.same_shape(old(self)),
                steps.len() == rounds,
                self.shot(bus.ops()) == before_step(a, steps, rounds as int),
                steps_ok(a, steps, seq, true),
            decreases u64::MAX - rounds,
        {
            let message = match self.recv_message(bus) {
                Some(message) => message,
                None => {
                    assert(polled_with(a, self.shot(bus.ops()), seq, steps));
                    return;
                },
            };
            let ghost m = message@;
            let ghost got = self.shot(bus.ops());
            let ghost mut taken: Result<(), AfkError> = Ok(());
            if message.msg_type == TYPE_NOTIFY {
                self.handle_notify(bus, message.channel, message.payload.as_slice());
            } else if message.msg_type == TYPE_REPLY {
                let sent = self.handle_notify_ack(
                    bus,
                    message.channel,
                    message.payload.as_slice(),
                );
                proof {
                    taken = sent;
                }
            }
            proof {
                let k = EpicStep { m, got, taken, shot: self.shot(bus.ops()) };
                assert(dealt_with(got, k.shot, m, seq, true, taken));
                steps_push(a, steps, seq, true, k);
                steps = steps.push(k);
            }
            rounds = rounds + 1;
        }
        assert(polled_with(a, self.shot(bus.ops()), seq, steps));
    }

    /// Wait for service announcements until at least `min_services` are
    /// known or the time is over. Some services are enough in the end.
    pub fn wait_for_services<M: Mmio>(
        &mut self,
        bus: &mut Bus<M>,
        min_services: usize,
        timeout_us: u64,
    ) -> (r: Result<(), EpicError>)
        requires
            old(self).wf(),
        ensures
            final(self).wf(),
            final(self).same_shape(old(self)),
            services_awaited(
                old(self).shot(old(bus).ops()),
                final(self).shot(final(bus).ops()),
                old(self).seq,
                min_services,
                timeout_us,
                refusal(r),
            ),
    {
        let ghost a = self.shot(bus.ops());
        let ghost seq = self.seq;
        let start: u64 = bus.current_time();
        let ghost first = a.clocked(start);
        let mut count: u64 = 0;
        let ghost mut rounds: Seq<PollRound> = Seq::empty();
        while count < u64::MAX
            invariant
                a == old(self).shot(old(bus).ops()),
                first == a.clocked(start),
                seq == old(self).seq,
                self.wf(),
                self.same_shape(old(self)),
                rounds.len() == count,
                self.shot(bus.ops()) == before_poll(first, rounds, count as int),
                forall|i: int|
                    0 <= i < rounds.len() ==> #[trigger] poll_round_ok(
                        first,
                        rounds,
                        i,
                        seq,
                        min_services,
                        start,
                        timeout_us,
                    ),
            decreases u64::MAX - count,
        {
            let ghost last = self.shot(bus.ops());
            if self.services.len() >= min_services {
                assert(services_awaited_with(
                    a,
                    last,
                    seq,
                    min_services,
                    timeout_us,
                    None,
                    start,
                    0,
                    rounds,
                ));
                return Ok(());
            }
            let now: u64 = bus.current_time();
            assert(self.shot(bus.ops()) == last.clocked(now));
            let elapsed: u64 = if now >= start {
                now - start
            } else {
                0
            };
            if elapsed >= timeout_us {
                let r = if self.services.len() > 0 {
                    Ok(())
                } else {
                    Err(EpicError::NoServices)
                };
                assert(services_awaited_with(
                    a,
                    self.shot(bus.ops()),
                    seq,
                    min_services,
                    timeout_us,
                    refusal(r),
                    start,
                    now,
                    rounds,
                ));
                return r;
            }
            self.poll(bus);
            proof {
                let more = rounds.push(PollRound { now, shot: self.shot(bus.ops()) });
                assert forall|i: int| 0 <= i < more.len() implies #[trigger] poll_round_ok(
                    first,
                    more,
                    i,
                    seq,
                    min_services,
                    start,
                    timeout_us,
                ) by {
                    if i < rounds.len() {
                        assert(poll_round_ok(
                            first,
                            rounds,
                            i,
                            seq,
                            min_services,
                            start,
                            timeout_us,
                        ));
                    }
                }
                rounds = more;
            }
            count = count + 1;
        }
        let r = if self.services.len() > 0 {
            Ok(())
        } else {
            Err(EpicError::NoServices)
        };
        proof {
            assert(poll_round_ok(first, rounds, 0, seq, min_services, start, timeout_us));
            assert(services_awaited_with(
                a,
                self.shot(bus.ops()),
                seq,
                min_services,
                timeout_us,
                refusal(r),
                start,
                0,
                rounds,
            ));
        }
        r
    }

    /// Find a discovered service whose name begins with the given text.
    pub fn find_service(&self, name_prefix: &str) -> (r: Option<&EpicService>)
        ensures
            match first_named(self.services@, name_prefix.spec_bytes(), 0) {
                Some(i) => r == Some(&self.services@[i]),
                None => r is None,
            },
    {
        let mut i: usize = 0;
        while i < self.services.len()
            invariant
                i <= self.services@.len(),
                first_named(self.services@, name_prefix.spec_bytes(), 0) == first_named(
                    self.services@,
                    name_prefix.spec_bytes(),
                    i as int,
                ),
            decreases self.services@.len() - i,
        {
            if starts_with(self.services[i].name.as_str(), name_prefix) {
                return Some(&self.services[i]);
            }
            i = i + 1;
        }
        None
    }

    /// Find a discovered service by channel number.
    pub fn find_service_by_channel(&self, channel: u32) -> (r: Option<&EpicService>)
        ensures
            match first_on(self.services@, channel, 0) {
                Some(i) => r == Some(&self.services@[i]),
                None => r is None,
            },
    {
        let mut i: usize = 0;
        while i < self.services.len()
            invariant
                i <= self.services@.len(),
                first_on(self.services@, channel, 0) == first_on(
                    self.services@,
                    channel,
                    i as int,
                ),
            decreases self.services@.len() - i,
        {
            if self.services[i].channel == channel {
                return Some(&self.services[i]);
            }
            i = i + 1;
        }
        None
    }

    /// Get the list of discovered service names.
    pub fn service_names(&self) -> (r: Vec<&str>)
        ensures
            r@.len() == self@.services.len(),
            forall|i: int| 0 <= i < r@.len() ==> (#[trigger] r@[i])@ == self@.services[i].name,
    {
        let mut names: Vec<&str> = Vec::new();
        let mut i: usize = 0;
        while i < self.services.len()
            invariant
                i <= self.services@.len(),
                names@.len() == i,
                forall|k: int|
                    0 <= k < i ==> (#[trigger] names@[k])@ == self.services@[k].name@,
            decreases self.services@.len() - i,
        {
            names.push(self.services[i].name.as_str());
            i = i + 1;
        }
        names
    }

    /// Send a standard service call and wait for the reply.
    pub fn call<M: Mmio>(
        &mut self,
        bus: &mut Bus<M>,
        service: &EpicService,
        group: u16,
        command: u32,
        data: &[u8],
    ) -> (r: Result<Vec<u8>, EpicError>)
        requires
            old(self).wf(),
        ensures
            final(self).wf(),
            final(self).dma == old(self).dma,
            final(self).seq == seq_after(old(self).seq, data@),
            called(
                old(self).shot(old(bus).ops()),
                final(self).shot(final(bus).ops()),
                old(self).dma,
                old(self).seq,
                ServiceCall { channel: service.channel, group, command, data: data@ },
                answer_view(r),
            ),
    {
        self.call_by_channel(bus, service.channel, group, command, data)
    }

    /// Send a standard service call on a channel and wait for the reply.
    pub fn call_by_channel<M: Mmio>(
        &mut self,
        bus: &mut Bus<M>,
        channel: u32,
        group: u16,
        command: u32,
        data: &[u8],
    ) -> (r: Result<Vec<u8>, EpicError>)
        requires
            old(self).wf(),
        ensures
            final(self).wf(),
            final(self).dma == old(self).dma,
            final(self).seq == seq_after(old(self).seq, data@),
            called(
                old(self).shot(old(bus).ops()),
                final(self).shot(final(bus).ops()),
                old(self).dma,
                old(self).seq,
                ServiceCall { channel, group, command, data: data@ },
                answer_view(r),
            ),
    {
        let ghost a = self.shot(bus.ops());
        let ghost q = ServiceCall { channel, group, command, data: data@ };
        let taken = self.send_command(bus, channel, group, command, data);
        let ghost middle = self.shot(bus.ops());
        match taken {
            Ok(()) => {},
            Err(e) => {
                let r = Err(e);
                proof {
                    let wait = ReplyWait {
                        start: 0,
                        rounds: Seq::empty(),
                        now: 0,
                        steps: Seq::empty(),
                        answer: Seq::empty(),
                    };
                    let c = CallSteps { middle, taken, wait };
                    if data@.len() <= 0x3fc0 {
                        assert(called_with(
                            a,
                            middle,
                            self.dma,
                            old(self).seq,
                            q,
                            answer_view(r),
                            c,
                        ));
                    }
                }
                return r;
            },
        }
        let r = self.wait_reply(bus, channel);
        proof {
            let b = self.shot(bus.ops());
            let wait = choose|w: ReplyWait| #[trigger]
                waited_with(middle, b, self.dma, self.seq, channel, answer_view(r), w);
            let c = CallSteps { middle, taken, wait };
            assert(called_with(a, b, self.dma, old(self).seq, q, answer_view(r), c));
        }
        r
    }

    /// Send a standard service call without waiting for a reply.
    pub fn send_command<M: Mmio>(
        &mut self,
        bus: &mut Bus<M>,
        channel: u32,
        group: u16,
        command: u32,
        data: &[u8],
    ) -> (r: Result<(), EpicError>)
        requires
            old(self).wf(),
        ensures
            final(self).wf(),
            final(self).dma == old(self).dma,
            final(self).seq == seq_after(old(self).seq, data@),
            data@.len() > 0x3fc0 ==> {
                &&& r == Err::<(), _>(EpicError::CommandTooLarge)
                &&& *final(self) == *old(self)
                &&& final(bus).ops() == old(bus).ops()
            },
            data@.len() <= 0x3fc0 ==> command_sent(
                old(self).shot(old(bus).ops()),
                final(self).shot(final(bus).ops()),
                old(self).dma,
                old(self).seq,
                ServiceCall { channel, group, command, data: data@ },
                r,
            ),
    {
        let len: usize = data.len();
        if len > EPIC_BUFFER_SIZE - EPIC_CALL_SIZE {
            return Err(EpicError::CommandTooLarge);
        }
        let ghost a = self.shot(bus.ops());
        let ghost q = ServiceCall { channel, group, command, data: data@ };
        self.stage(bus, group, command, data);
        let ghost staged = self.shot(bus.ops());
        let seq: u16 = self.next_seq();
        let msg = self.command_message(seq, group, command, data);
        assert(self.shot(bus.ops()) == staged);
        let sent = self.send_message(bus, channel, TYPE_COMMAND, &msg);
        let r = match sent {
            Ok(()) => Ok(()),
            Err(error) => Err(EpicError::Transport(error)),
        };
        proof {
            match sent {
                Ok(unit) => {
                    assert(transport_result(r) == Ok::<(), AfkError>(unit));
                },
                Err(error) => {
                    assert(transport_result(r) == Err::<(), AfkError>(error));
                },
            }
            assert(transport_result(r) == sent);
            assert(command_sent(
                a,
                self.shot(bus.ops()),
                old(self).dma,
                old(self).seq,
                q,
                r,
            ));
        }
        r
    }

    /// Wait for a reply on the specified channel.
    fn wait_reply<M: Mmio>(&mut self, bus: &mut Bus<M>, channel: u32) -> (r: Result<
        Vec<u8>,
        EpicError,
    >)
        requires
            old(self).wf(),
        ensures
            final(self).wf(),
            final(self).same_shape(old(self)),
            exists|w: ReplyWait| #[trigger]
                waited_with(
                    old(self).shot(old(bus).ops()),
                    final(self).shot(final(bus).ops()),
                    old(self).dma,
                    old(self).seq,
                    channel,
                    answer_view(r),
                    w,
                ),
    {
        let ghost a = self.shot(bus.ops());
        let ghost seq = self.seq;
        let ghost dma = self.dma;
        let start: u64 = bus.current_time();
        let ghost first = a.clocked(start);
        let mut count: u64 = 0;
        let ghost mut rounds: Seq<ListenRound> = Seq::empty();
        while count < u64::MAX
            invariant
                a == old(self).shot(old(bus).ops()),
                first == a.clocked(start),
                seq == old(self).seq,
                dma == old(self).dma,
                self.wf(),
                self.same_shape(old(self)),
                rounds.len() == count,
                self.shot(bus.ops()) == before_listen(first, rounds, count as int),
                forall|i: int|
                    0 <= i < rounds.len() ==> #[trigger] listen_round_ok(
                        first,
                        rounds,
                        i,
                        seq,
                        channel,
                        start,
                    ),
            decreases u64::MAX - count,
        {
            let ghost last = self.shot(bus.ops());
            let now: u64 = bus.current_time();
            let ghost c = last.clocked(now);
            assert(self.shot(bus.ops()) == c);
            let elapsed: u64 = if now >= start {
                now - start
            } else {
                0
            };
            if elapsed >= EPIC_REPLY_TIMEOUT_US {
                let r = Err(EpicError::ReplyTimeout);
                proof {
                    let w = ReplyWait {
                        start,
                        rounds,
                        now,
                        steps: Seq::empty(),
                        answer: Seq::empty(),
                    };
                    assert(waited_with(a, c, dma, seq, channel, answer_view(r), w));
                }
                return r;
            }
            let mut more = true;
            let mut taken: u64 = 0;
            let ghost mut steps: Seq<EpicStep> = Seq::empty();
            while more && taken < u64::MAX
                invariant
                    a == old(self).shot(old(bus).ops()),
                    first == a.clocked(start),
                    seq == old(self).seq,
                    dma == old(self).dma,
                    c == last.clocked(now),
                    last == before_listen(first, rounds, count as int),
                    rounds.len() == count,
                    elapsed_since(start, now) < EPIC_REPLY_TIMEOUT_US,
                    forall|i: int|
                        0 <= i < rounds.len() ==> #[trigger] listen_round_ok(
                            first,
                            rounds,
                            i,
                            seq,
                            channel,
                            start,
                        ),
                    self.wf(),
                    self.same_shape(old(self)),
                    steps_ok(c, steps, seq, false),
                    no_reply(steps, channel),
                    if more {
                        steps.len() == taken && self.shot(bus.ops()) == before_step(
                            c,
                            steps,
                            taken as int,
                        )
                    } else {
                        drained(c, self.shot(bus.ops()), steps)
                    },
                decreases u64::MAX - taken,
            {
                match self.recv_message(bus) {
                    Some(message) => {
                        let ghost got = self.shot(bus.ops());
                        let ghost m = message@;
                        if message.channel == channel && message.msg_type == TYPE_REPLY {
                            let ghost k = EpicStep { m, got, taken: Ok(()), shot: got };
                            let r = self.parse_reply(bus, message.payload.as_slice());
                            proof {
                                steps_push(c, steps, seq, false, k);
                                let all = steps.push(k);
                                assert(all.drop_last() =~= steps);
                                let answer = choose|answer: Seq<u8>| #[trigger]
                                    reply_result(m.payload, answer) == answer_view(r)
                                        && parsed_with(
                                        dma,
                                        m.payload,
                                        got.ops,
                                        bus.ops(),
                                        answer_view(r),
                                        answer,
                                    );
                                let w = ReplyWait { start, rounds, now, steps: all, answer };
                                let b = self.shot(bus.ops());
                                assert(waited_with(a, b, dma, seq, channel, answer_view(r), w));
                            }
                            return r;
                        }
                        if message.msg_type == TYPE_NOTIFY {
                            self.handle_notify(bus, message.channel, message.payload.as_slice());
                        }
                        proof {
                            let shot = self.shot(bus.ops());
                            let k = EpicStep { m, got, taken: Ok(()), shot };
                            assert(dealt_with(got, shot, m, seq, false, k.taken));
                            steps_push(c, steps, seq, false, k);
                            steps = steps.push(k);
                        }
                    },
                    None => {
                        more = false;
                    },
                }
                taken = taken + 1;
            }
            proof {
                assert(drained(c, self.shot(bus.ops()), steps));
                let all = rounds.push(ListenRound { now, steps, shot: self.shot(bus.ops()) });
                assert forall|i: int| 0 <= i < all.len() implies #[trigger] listen_round_ok(
                    first,
                    all,
                    i,
                    seq,
                    channel,
                    start,
                ) by {
                    if i < rounds.len() {
                        assert(listen_round_ok(first, rounds, i, seq, channel, start));
                    }
                }
                rounds = all;
            }
            count = count + 1;
        }
        let r = Err(EpicError::ReplyTimeout);
        proof {
            let w = ReplyWait {
                start,
                rounds,
                now: 0,
                steps: Seq::empty(),
                answer: Seq::empty(),
            };
            assert(waited_with(a, self.shot(bus.ops()), dma, seq, channel, answer_view(r), w));
        }
        r
    }

    /// Get the underlying AFK endpoint.
    pub fn afk(&self) -> (r: &AfkEndpoint)
        ensures
            *r == self.link(),
    {
        self.mailbox.afk()
    }

    fn next_seq(&mut self) -> (r: u16)
        ensures
            r == old(self).seq,
            final(self).seq == next_seq_of(old(self).seq),
            final(self).link() == old(self).link(),
            final(self).dma == old(self).dma,
            final(self).services == old(self).services,
            final(self).handler == old(self).handler,
            final(self).mail() == old(self).mail(),
    {
        let seq: u16 = self.seq;
        self.seq = if seq == 0xffff {
            0
        } else {
            seq + 1
        };
        seq
    }

    /// The headers of a message.
    fn epic_headers(&self, category: u8, msg_type: u16, seq: u16, payload_len: u32) -> (r: Vec<u8>)
        requires
            payload_len <= 0x4000,
        ensures
            r@ == header_bytes(self.seq, category, msg_type, seq, payload_len),
            r@.len() == 40,
    {
        let mut buf: Vec<u8> = Vec::new();
        buf.push(EPIC_HDR_VERSION);
        push_le16(&mut buf, self.seq);
        push_zeros(&mut buf, 13);
        assert(buf@ =~= hdr_bytes(self.seq));
        push_le32(&mut buf, 24 + payload_len);
        buf.push(EPIC_SUBHDR_VERSION);
        buf.push(category);
        push_le16(&mut buf, msg_type);
        push_zeros(&mut buf, 8);
        push_le16(&mut buf, seq);
        push_zeros(&mut buf, 2);
        push_le32(&mut buf, payload_len);
        assert(buf@ =~= header_bytes(self.seq, category, msg_type, seq, payload_len));
        buf
    }

    /// Put a service call into the TX buffer.
    fn stage<M: Mmio>(&self, bus: &mut Bus<M>, group: u16, command: u32, data: &[u8])
        requires
            self.dma.wf(),
            data@.len() <= 0x3fc0,
        ensures
            final(bus).ops() == old(bus).ops() + stage_ops(self.dma, group, command, data@),
    {
        let ghost before = bus.ops();
        let len: usize = data.len();
        let call = service_call(group, command, len as u32);
        bus.write_bytes(self.dma.tx_virt, call.as_slice());
        if len > 0 {
            bus.write_bytes(self.dma.tx_virt + EPIC_CALL_SIZE, data);
        }
        assert(bus.ops() =~= before + stage_ops(self.dma, group, command, data@));
    }

    /// A complete command message.
    fn command_message(&self, seq: u16, group: u16, command: u32, data: &[u8]) -> (r: Vec<u8>)
        requires
            data@.len() <= 0x3fc0,
            self.seq == next_seq_of(seq),
        ensures
            r@ == command_bytes(self.dma, seq, group, command, data@),
            r@.len() <= 0x8000,
    {
        let total: u32 = 64 + data.len() as u32;
        let mut msg = self.epic_headers(CAT_COMMAND, SUBTYPE_STD_SERVICE, seq, total);
        let ghost head = msg@;
        let cmd = command_fields(self.dma.rx_paddr, self.dma.tx_paddr, total);
        push_bytes(&mut msg, cmd.as_slice());
        let call = service_call(group, command, data.len() as u32);
        push_bytes(&mut msg, call.as_slice());
        push_bytes(&mut msg, data);
        proof {
            reveal(command_bytes);
        }
        msg
    }

    /// Take in a notification: a service that announces itself is remembered,
    /// everything else goes to the handler.
    pub fn handle_notify<M: Mmio>(&mut self, bus: &Bus<M>, channel: u32, payload: &[u8])
        ensures
            final(self)@ == notified(old(self)@, channel, payload@, bus.ops().len()),
            final(self).seq == old(self).seq,
            final(self).dma == old(self).dma,
            final(self).link() == old(self).link(),
            final(self).mail() == old(self).mail(),
    {
        if payload.len() < EPIC_HEADERS_SIZE {
            return;
        }
        let category: u8 = payload[21];
        let msg_type: u16 = read_le16(payload, 22);
        if category == CAT_REPORT && msg_type == SUBTYPE_ANNOUNCE {
            self.handle_announce(channel, payload);
        } else if payload.len() > EPIC_HEADERS_SIZE {
            match &mut self.handler {
                Some(port) => {
                    let data = copy_range(payload, EPIC_HEADERS_SIZE, payload.len());
                    assert(data@ =~= payload@.skip(40));
                    port.notify(bus, channel, msg_type, data.as_slice());
                },
                None => {},
            }
        }
    }

    fn handle_announce(&mut self, channel: u32, payload: &[u8])
        requires
            payload@.len() >= 40,
        ensures
            final(self)@ == (if payload@.len() < 72 {
                old(self)@
            } else {
                EpicView {
                    services: announced(
                        old(self)@.services,
                        channel,
                        utf8_lossy(announced_name(payload@)),
                    ),
                    ..old(self)@
                }
            }),
            final(self).seq == old(self).seq,
            final(self).dma == old(self).dma,
            final(self).link() == old(self).link(),
            final(self).mail() == old(self).mail(),
    {
        if payload.len() < EPIC_HEADERS_SIZE + EPIC_NAME_SIZE {
            return;
        }
        let field = copy_range(payload, EPIC_HEADERS_SIZE, EPIC_HEADERS_SIZE + EPIC_NAME_SIZE);
        let mut n: usize = 0;
        while n < field.len() && field[n] != 0
            invariant
                n <= field@.len(),
                text_len(field@, 0) == text_len(field@, n as int),
            decreases field@.len() - n,
        {
            n = n + 1;
        }
        let name_bytes = copy_range(field.as_slice(), 0, n);
        assert(name_bytes@ =~= announced_name(payload@));
        let name = from_utf8_lossy(name_bytes.as_slice());
        self.record_service(channel, name);
    }

    /// Remember a service that was announced under a name, unless its
    /// channel has one.
    pub fn record_service(&mut self, channel: u32, name: String)
        ensures
            final(self)@ == (EpicView {
                services: announced(old(self)@.services, channel, name@),
                ..old(self)@
            }),
            final(self).seq == old(self).seq,
            final(self).dma == old(self).dma,
            final(self).link() == old(self).link(),
            final(self).mail() == old(self).mail(),
    {
        let mut i: usize = 0;
        while i < self.services.len()
            invariant
                i <= self.services@.len(),
                *self == *old(self),
                forall|k: int| 0 <= k < i ==> (#[trigger] self@.services[k]).channel != channel,
            decreases self.services@.len() - i,
        {
            if self.services[i].channel == channel {
                assert(self@.services[i as int].channel == channel);
                assert(has_channel(self@.services, channel));
                return;
            }
            i = i + 1;
        }
        assert(!has_channel(self@.services, channel));
        self.services.push(EpicService { name, channel, seq: 0 });
        assert(self@.services =~= announced(old(self)@.services, channel, name@));
    }

    /// Acknowledge a message.
    fn handle_notify_ack<M: Mmio>(&mut self, bus: &mut Bus<M>, channel: u32, payload: &[u8]) -> (r:
        Result<(), AfkError>)
        requires
            old(self).wf(),
        ensures
            final(self).wf(),
            final(self).same_shape(old(self)),
            if payload@.len() < 40 {
                final(self).shot(final(bus).ops()) == old(self).shot(old(bus).ops())
            } else {
                gave(
                    old(self).shot(old(bus).ops()),
                    final(self).shot(final(bus).ops()),
                    channel,
                    8,
                    ack_bytes(old(self).seq, payload@),
                    r,
                )
            },
    {
        if payload.len() < EPIC_HEADERS_SIZE {
            return Ok(());
        }
        let msg_type: u16 = read_le16(payload, 22);
        let seq: u16 = read_le16(payload, 32);
        let ack = self.epic_headers(CAT_REPLY, msg_type, seq, 0);
        self.send_message(bus, channel, TYPE_NOTIFY_ACK, &ack)
    }

    /// Parse a reply message and extract the response payload.
    pub fn parse_reply<M: Mmio>(&self, bus: &mut Bus<M>, payload: &[u8]) -> (r: Result<
        Vec<u8>,
        EpicError,
    >)
        requires
            self.dma.wf(),
        ensures
            exists|answer: Seq<u8>| #[trigger]
                reply_result(payload@, answer) == answer_view(r) && parsed_with(
                    self.dma,
                    payload@,
                    old(bus).ops(),
                    final(bus).ops(),
                    answer_view(r),
                    answer,
                ),
    {
        let ghost none = Seq::<u8>::empty();
        if payload.len() < EPIC_HEADERS_SIZE + EPIC_CMD_SIZE {
            let r = Err(EpicError::ReplyTooShort);
            assert(reply_result(payload@, none) == answer_view(r));
            return r;
        }
        let retcode: u32 = read_le32(payload, 40);
        if retcode != 0 {
            let r = Err(EpicError::CommandFailed(retcode));
            assert(reply_result(payload@, none) == answer_view(r));
            return r;
        }
        let rx_len: u32 = read_le32(payload, 60);
        if rx_len > EPIC_BUFFER_SIZE as u32 {
            let r = Err(EpicError::ReplyTooLong);
            assert(reply_result(payload@, none) == answer_view(r));
            return r;
        }
        let answer = bus.read_bytes(self.dma.rx_virt, rx_len as usize);
        let r = Ok(answer);
        assert(reply_result(payload@, answer@) == answer_view(r));
        r
    }
}

/// The header of a service call.
fn service_call(group: u16, command: u32, data_len: u32) -> (r: Vec<u8>)
    ensures
        r@ == call_bytes(group, command, data_len),
        r@.len() == 64,
{
    let mut call: Vec<u8> = Vec::new();
    push_zeros(&mut call, 2);
    push_le16(&mut call, group);
    push_le32(&mut call, command);
    push_le32(&mut call, data_len);
    push_le32(&mut call, EPIC_SERVICE_CALL_MAGIC);
    push_zeros(&mut call, 48);
    assert(call@ =~= call_bytes(group, command, data_len));
    call
}

/// Buffer addresses and sizes of a command.
fn command_fields(rx_paddr: u64, tx_paddr: u64, txlen: u32) -> (r: Vec<u8>)
    ensures
        r@ == cmd_bytes(rx_paddr, tx_paddr, txlen),
        r@.len() == 30,
{
    let mut cmd: Vec<u8> = Vec::new();
    push_le32(&mut cmd, 0);
    push_le64(&mut cmd, rx_paddr);
    push_le64(&mut cmd, tx_paddr);
    push_le32(&mut cmd, EPIC_BUFFER_SIZE as u32);
    push_le32(&mut cmd, txlen);
    push_zeros(&mut cmd, 2);
    assert(cmd@ =~= cmd_bytes(rx_paddr, tx_paddr, txlen));
    cmd
}

/// Nothing is known yet and nobody listens.
pub open spec fn empty_view() -> EpicView {
    EpicView { services: Seq::empty(), notifications: Seq::empty(), handler: false }
}

/// Position of the first service from `from` on whose name begins with the
/// given bytes.
pub open spec fn first_named(services: Seq<EpicService>, prefix: Seq<u8>, from: int) -> Option<int>
    decreases services.len() - from,
{
    if from < 0 || from >= services.len() {
        None
    } else if begins_with(vstd::utf8::encode_utf8(services[from].name@), prefix) {
        Some(from)
    } else {
        first_named(services, prefix, from + 1)
    }
}

/// Position of the first service from `from` on with the given channel.
pub open spec fn first_on(services: Seq<EpicService>, channel: u32, from: int) -> Option<int>
    decreases services.len() - from,
{
    if from < 0 || from >= services.len() {
        None
    } else if services[from].channel == channel {
        Some(from)
    } else {
        first_on(services, channel, from + 1)
    }
}

/// Why a request was refused, if it was.
pub open spec fn refusal(r: Result<(), EpicError>) -> Option<EpicError> {
    match r {
        Ok(_) => None,
        Err(e) => Some(e),
    }
}

/// A standard service call.
pub struct ServiceCall {
    pub channel: u32,
    pub group: u16,
    pub command: u32,
    pub data: Seq<u8>,
}

/// The sequence number behind a call: one that is too long takes none.
pub open spec fn seq_after(seq: u16, data: Seq<u8>) -> u16 {
    if data.len() > 0x3fc0 {
        seq
    } else {
        next_seq_of(seq)
    }
}

/// What the transport returned.
pub open spec fn transport_result(r: Result<(), EpicError>) -> Result<(), AfkError> {
    match r {
        Ok(()) => Ok(()),
        Err(e) => Err(e->Transport_0),
    }
}

/// A command was put into the TX buffer and handed to the transport.
pub open spec fn command_sent(
    a: EpicShot,
    b: EpicShot,
    dma: EpicDmaBuffer,
    seq: u16,
    q: ServiceCall,
    r: Result<(), EpicError>,
) -> bool {
    let staged = EpicShot { ops: a.ops + stage_ops(dma, q.group, q.command, q.data), ..a };
    let message = command_bytes(dma, seq, q.group, q.command, q.data);
    &&& gave(staged, b, q.channel, 3, message, transport_result(r))
    &&& r is Err ==> r->Err_0 is Transport
}

/// The steps of a remote call.
pub struct CallSteps {
    /// The endpoint when the command was handed over.
    pub middle: EpicShot,
    /// Whether the transport took the command.
    pub taken: Result<(), EpicError>,
    pub wait: ReplyWait,
}

/// A remote call with its steps: the command handed to the transport, then the
/// wait for its reply.
pub open spec fn called_with(
    a: EpicShot,
    b: EpicShot,
    dma: EpicDmaBuffer,
    seq: u16,
    q: ServiceCall,
    r: Result<Seq<u8>, EpicError>,
    c: CallSteps,
) -> bool {
    &&& command_sent(a, c.middle, dma, seq, q, c.taken)
    &&& match c.taken {
        Ok(_) => waited_with(c.middle, b, dma, next_seq_of(seq), q.channel, r, c.wait),
        Err(e) => r == Err::<Seq<u8>, EpicError>(e) && b == c.middle,
    }
}

/// A remote call. It fails before anything is sent where the data is too
/// long, and without waiting where the transport does not take the command.
pub open spec fn called(
    a: EpicShot,
    b: EpicShot,
    dma: EpicDmaBuffer,
    seq: u16,
    q: ServiceCall,
    r: Result<Seq<u8>, EpicError>,
) -> bool {
    if q.data.len() > 0x3fc0 {
        r == Err::<Seq<u8>, _>(EpicError::CommandTooLarge) && b == a
    } else {
        exists|c: CallSteps| #[trigger] called_with(a, b, dma, seq, q, r, c)
    }
}

/// Where the fields of the headers lie.
pub proof fn headers_read_back(
    hdr_seq: u16,
    category: u8,
    msg_type: u16,
    seq: u16,
    payload_len: u32,
    rest: Seq<u8>,
)
    requires
        payload_len <= 0x4000,
    ensures
        header_bytes(hdr_seq, category, msg_type, seq, payload_len).len() == 40,
        ({
            let m = header_bytes(hdr_seq, category, msg_type, seq, payload_len) + rest;
            &&& m[0] == 2
            &&& from_le16(m, 1) == hdr_seq
            &&& from_le32(m, 16) == 24 + payload_len
            &&& m[20] == 4
            &&& m[21] == category
            &&& from_le16(m, 22) == msg_type
            &&& from_le16(m, 32) == seq
            &&& from_le32(m, 36) == payload_len
        }),
{
    let h = hdr_bytes(hdr_seq);
    let m = header_bytes(hdr_seq, category, msg_type, seq, payload_len) + rest;
    assert(h.len() == 16);
    assert(m.subrange(1, 3) =~= le16(hdr_seq));
    assert(m.subrange(16, 20) =~= le32((24 + payload_len) as u32));
    assert(m.subrange(22, 24) =~= le16(msg_type));
    assert(m.subrange(32, 34) =~= le16(seq));
    assert(m.subrange(36, 40) =~= le32(payload_len));
    crate::bytes::le32_round_trip((24 + payload_len) as u32);
    crate::bytes::le32_round_trip(payload_len);
    assert(from_le16(m, 1) == from_le16(m.subrange(1, 3), 0));
    assert(from_le32(m, 16) == from_le32(m.subrange(16, 20), 0));
    assert(from_le16(m, 22) == from_le16(m.subrange(22, 24), 0));
    assert(from_le16(m, 32) == from_le16(m.subrange(32, 34), 0));
    assert(from_le32(m, 36) == from_le32(m.subrange(36, 40), 0));
}

/// An acknowledgement is a reply with the type and the sequence number of the
/// message that it answers.
pub proof fn acknowledgement_names_its_message(hdr_seq: u16, payload: Seq<u8>)
    requires
        payload.len() >= 40,
    ensures
        ack_bytes(hdr_seq, payload).len() == 40,
        ack_bytes(hdr_seq, payload)[21] == CAT_REPLY,
        from_le16(ack_bytes(hdr_seq, payload), 22) == from_le16(payload, 22),
        from_le16(ack_bytes(hdr_seq, payload), 32) == from_le16(payload, 32),
{
    headers_read_back(
        hdr_seq,
        0x20,
        from_le16(payload, 22) as u16,
        from_le16(payload, 32) as u16,
        0,
        Seq::empty(),
    );
    assert(ack_bytes(hdr_seq, payload) + Seq::<u8>::empty() =~= ack_bytes(hdr_seq, payload));
}

/// A command message names both buffers with their sizes, and carries the
/// call that also lies in the TX buffer.
pub proof fn command_message_reads_back(
    dma: EpicDmaBuffer,
    seq: u16,
    group: u16,
    command: u32,
    data: Seq<u8>,
)
    requires
        data.len() <= 0x3fc0,
    ensures
        ({
            let m = command_bytes(dma, seq, group, command, data);
            &&& m.len() == 134 + data.len()
            &&& m[21] == CAT_COMMAND
            &&& from_le16(m, 22) == SUBTYPE_STD_SERVICE
            &&& from_le16(m, 32) == seq
            &&& from_le32(m, 36) == 64 + data.len()
            &&& from_le32(m, 40) == 0
            &&& from_le64(m, 44) == dma.rx_paddr
            &&& from_le64(m, 52) == dma.tx_paddr
            &&& from_le32(m, 60) == EPIC_BUFFER_SIZE
            &&& from_le32(m, 64) == 64 + data.len()
            &&& m.subrange(70, 134) == call_bytes(group, command, data.len() as u32)
            &&& m.skip(134) == data
        }),
{
    reveal(command_bytes);
    let total = (64 + data.len()) as u32;
    let head = header_bytes(next_seq_of(seq), 0x30, 0xc0, seq, total);
    let cmd = cmd_bytes(dma.rx_paddr, dma.tx_paddr, total);
    let call = call_bytes(group, command, data.len() as u32);
    let m = command_bytes(dma, seq, group, command, data);
    headers_read_back(next_seq_of(seq), 0x30, 0xc0, seq, total, cmd + call + data);
    assert(m =~= head + (cmd + call + data));
    assert(cmd.len() == 30 && call.len() == 64);
    crate::bytes::le32_round_trip(0);
    crate::bytes::le32_round_trip(0x4000);
    crate::bytes::le32_round_trip(total);
    crate::bytes::le64_round_trip(dma.rx_paddr);
    crate::bytes::le64_round_trip(dma.tx_paddr);
    assert(m.subrange(40, 44) =~= le32(0));
    assert(m.subrange(44, 52) =~= le64(dma.rx_paddr));
    assert(m.subrange(52, 60) =~= le64(dma.tx_paddr));
    assert(m.subrange(60, 64) =~= le32(0x4000));
    assert(m.subrange(64, 68) =~= le32(total));
    assert(from_le32(m, 40) == from_le32(m.subrange(40, 44), 0));
    assert(from_le64(m, 44) == from_le64(m.subrange(44, 52), 0));
    assert(from_le64(m, 52) == from_le64(m.subrange(52, 60), 0));
    assert(from_le32(m, 60) == from_le32(m.subrange(60, 64), 0));
    assert(from_le32(m, 64) == from_le32(m.subrange(64, 68), 0));
    assert(m.subrange(70, 134) =~= call);
    assert(m.skip(134) =~= data);
}

} // verus!
