//! AFK: message rings in memory shared with a coprocessor.

use crate::arith::{aligned_up, aligned_up_is_least_multiple};
use crate::asc::{elapsed_since, send_done, AscError, AscMessage, Traffic};
use crate::bus::{append_assoc, rd, reg, wr, Bus, Mmio, Op};
use crate::bytes::le32;
use crate::memory::{
    bytes_at, bytes_stored, faithful, memory_after, memory_append, memory_push, sees, stored,
    word_at, word_stored, Memory,
};
use crate::rtkit::{
    asks_buffer, clocked, dispatched_from, dispatched_via, endpoint_of, found_nothing,
    lost_message, start_mail, took_message_via, AppleRtkit, Fetch, LinkShot, RtkitError,
    RtkitMessage, MSG_BUFFER_REQUEST, RTKIT_EP_MGMT,
};
use crate::ports::pages::{PagePort, PageRequest, PageSource};
use vstd::prelude::*;

verus! {

/// Magic value of a queue entry.
pub const QE_MAGIC: u32 = 0x2050_4F49;

/// Bytes of the header in front of a ring's data area.
pub const RING_HEADER_SIZE: usize = 0xc0;

pub const RBEP_INIT: u64 = 0x80;

pub const RBEP_INIT_ACK: u64 = 0xa0;

pub const RBEP_GETBUF: u64 = 0x89;

pub const RBEP_GETBUF_ACK: u64 = 0xa1;

pub const RBEP_INIT_TX: u64 = 0x8a;

pub const RBEP_INIT_RX: u64 = 0x8b;

pub const RBEP_START: u64 = 0xa3;

pub const RBEP_START_ACK: u64 = 0x86;

pub const RBEP_SEND: u64 = 0xa2;

pub const RBEP_SHUTDOWN: u64 = 0xc0;

pub const RBEP_SHUTDOWN_ACK: u64 = 0xc1;

/// AFK handshake timeout in microseconds.
pub const AFK_TIMEOUT_US: u64 = 5_000_000;

/// Poll delay in microseconds.
pub const AFK_POLL_DELAY_US: u64 = 1;

/// Queue entry header in the ring buffer: 16 bytes in front of the payload,
/// padded to block alignment.
#[derive(Clone, Copy, Debug, PartialEq, Eq, Structural)]
pub struct AfkQueueEntry {
    /// Magic value, must be `QE_MAGIC`.
    pub magic: u32,
    /// Payload size in bytes.
    pub size: u32,
    /// Channel number.
    pub channel: u32,
    /// Message type.
    pub msg_type: u32,
}

/// Bytes of a queue entry header.
pub const HEADER_SIZE: usize = 16;

/// Why an AFK request failed.
#[derive(Clone, Copy, Debug, PartialEq, Eq, Structural)]
pub enum AfkError {
    TxNotReady,
    TxFull,
    /// A ring pointer in shared memory lies outside the ring.
    PointerOutOfRange,
    Timeout,
    InitTimeout,
    NoSharedBuffer,
    AllocFailed,
    TagMismatch,
    OutOfBounds,
    SizeMismatch,
    NotInitialized,
    /// The RTKit transport failed.
    Transport(RtkitError),
}

/// Type of a ring buffer protocol message.
pub open spec fn rbep_kind(msg: u64) -> u64 {
    (msg & 0xffff_0000_0000_0000) >> 48
}

/// A ring buffer protocol message.
pub open spec fn rbep_word(kind: u64, payload: u64) -> u64 {
    (kind << 48) | payload
}

fn rbep_type(msg: u64) -> (r: u64)
    ensures
        r == rbep_kind(msg),
{
    (msg & 0xffff_0000_0000_0000) >> 48
}

fn rbep_msg(kind: u64, payload: u64) -> (r: u64)
    ensures
        r == rbep_word(kind, payload),
{
    (kind << 48) | payload
}

/// An entry with `len` payload bytes at `start` crosses the end of the ring.
pub open spec fn crosses(start: int, len: int, bufsz: int) -> bool {
    start + 16 + len > bufsz
}

/// Where the entry after one with `len` payload bytes at `start` goes.
pub open spec fn next_pointer(start: int, len: int, bufsz: int) -> int {
    let end = aligned_up(start + 16 + len, 64);
    if end >= bufsz {
        0
    } else {
        end
    }
}

/// Whether `needed` bytes can be written at `w` without reaching the entries
/// that are still unread from `r` on: above `w`, or from the start of the ring.
pub open spec fn room(w: int, r: int, needed: int, bufsz: int) -> bool {
    if w < r {
        needed < r - w
    } else {
        needed < bufsz - w || (needed == bufsz - w && r != 0) || needed < r
    }
}

/// Check whether `needed` bytes can be written at the current position.
pub fn has_space(wptr: u32, rptr: u32, needed: usize, bufsz: usize) -> (r: bool)
    requires
        wptr >= rptr ==> wptr <= bufsz,
    ensures
        r == room(wptr as int, rptr as int, needed as int, bufsz as int),
{
    let w: usize = wptr as usize;
    let r: usize = rptr as usize;
    if w < r {
        needed < r - w
    } else {
        let space_above: usize = bufsz - w;
        let fits_above = needed < space_above || (needed == space_above && r != 0);
        if fits_above {
            true
        } else {
            needed < r
        }
    }
}

/// The header at the write pointer, and the entry that holds a message, lie
/// inside the ring.
pub open spec fn copies_fit(w: int, len: int, bufsz: int) -> bool {
    w + 16 <= bufsz && entry_start(w, len, bufsz) + 16 + len <= bufsz
}

/// Start of the entry that holds a message: at the write pointer, or at the
/// start of the ring where it would cross the end.
pub open spec fn entry_start(w: int, len: int, bufsz: int) -> int {
    if crosses(w, len, bufsz) {
        0
    } else {
        w
    }
}

/// One ring buffer direction (TX or RX).
#[derive(Clone, Copy, Debug, PartialEq, Eq, Structural)]
pub struct AfkRingBuffer {
    /// Address of the shared ring buffer header.
    pub hdr: usize,
    /// Data area size in bytes.
    pub bufsz: u32,
    /// Whether this ring buffer has been initialized.
    pub ready: bool,
}

impl AfkRingBuffer {
    /// Address of the data area.
    pub open spec fn data(self) -> usize {
        reg(self.hdr, 0xc0)
    }

    /// A ring in use lies in the address space.
    pub open spec fn wf(self) -> bool {
        self.ready ==> self.hdr + 0xc0 + self.bufsz <= usize::MAX
    }
}

/// The four words of an entry header.
pub open spec fn header_ops(at: usize, entry: AfkQueueEntry) -> Seq<Op> {
    seq![
        wr(at, 0, entry.magic),
        wr(at, 4, entry.size),
        wr(at, 8, entry.channel),
        wr(at, 12, entry.msg_type),
    ]
}

/// The reads of both ring pointers.
pub open spec fn pointer_ops(rb: AfkRingBuffer, r: u32, w: u32) -> Seq<Op> {
    seq![rd(rb.hdr, 0x40, r), rd(rb.hdr, 0x80, w)]
}

/// A message written into the ring and its write pointer published.
pub open spec fn enqueue_ops(rb: AfkRingBuffer, w: u32, entry: AfkQueueEntry, data: Seq<u8>) -> Seq<
    Op,
> {
    let len = data.len() as int;
    let start = entry_start(w as int, len, rb.bufsz as int);
    header_ops(reg(rb.data(), w as int), entry) + (if crosses(
        w as int,
        len,
        rb.bufsz as int,
    ) {
        header_ops(rb.data(), entry)
    } else {
        Seq::empty()
    }) + seq![
        Op::WriteBytes { addr: reg(rb.data(), start + 16), bytes: data },
        Op::Fence,
        wr(rb.hdr, 0x80, next_pointer(start, len, rb.bufsz as int) as u32),
    ]
}

/// How a send ends before the coprocessor is notified. The pointers lie in
/// shared memory and can hold anything: those with which the copies, or the
/// space above the write pointer, would leave the ring are reported.
pub open spec fn enqueue_result(rb: AfkRingBuffer, r: u32, w: u32, len: int) -> Result<(), AfkError> {
    let bufsz = rb.bufsz as int;
    if r <= w && bufsz < w {
        Err(AfkError::PointerOutOfRange)
    } else if !room(w as int, r as int, aligned_up(16 + len, 64), bufsz) {
        Err(AfkError::TxFull)
    } else if !copies_fit(w as int, len, bufsz) {
        Err(AfkError::PointerOutOfRange)
    } else {
        Ok(())
    }
}

/// A message that fits does so wholly inside the ring, and its successor
/// starts at a block boundary inside the ring.
pub proof fn enqueued_entry_fits(w: int, r: int, len: int, bufsz: int)
    requires
        0 <= w,
        0 <= r,
        0 <= len,
        bufsz > 0,
        w + 16 <= bufsz,
        r <= bufsz,
        room(w, r, aligned_up(16 + len, 64), bufsz),
    ensures
        copies_fit(w, len, bufsz),
        0 <= next_pointer(entry_start(w, len, bufsz), len, bufsz) < bufsz,
        next_pointer(entry_start(w, len, bufsz), len, bufsz) % 64 == 0,
{
    aligned_up_is_least_multiple(16 + len, 64);
    aligned_up_is_least_multiple(entry_start(w, len, bufsz) + 16 + len, 64);
}

/// A send never makes a full ring look empty: where both pointers lie at
/// blocks of the ring and a message fits, the write pointer lands at a block
/// of the ring again, and not on the read pointer.
pub proof fn full_ring_never_looks_empty(rb: AfkRingBuffer, r: u32, w: u32, len: int)
    requires
        0 <= len,
        rb.bufsz % 64 == 0,
        w % 64 == 0,
        w < rb.bufsz,
        r < rb.bufsz,
    ensures
        enqueue_result(rb, r, w, len) is Ok <==> room(
            w as int,
            r as int,
            aligned_up(16 + len, 64),
            rb.bufsz as int,
        ),
        enqueue_result(rb, r, w, len) is Err ==> enqueue_result(rb, r, w, len) == Err::<(), _>(
            AfkError::TxFull,
        ),
        enqueue_result(rb, r, w, len) is Ok ==> ({
            let next = next_pointer(
                entry_start(w as int, len, rb.bufsz as int),
                len,
                rb.bufsz as int,
            );
            0 <= next < rb.bufsz && next % 64 == 0 && next != r
        }),
{
    let bufsz = rb.bufsz as int;
    let start = entry_start(w as int, len, bufsz);
    aligned_up_is_least_multiple(16 + len, 64);
    aligned_up_is_least_multiple(start + 16 + len, 64);
    if room(w as int, r as int, aligned_up(16 + len, 64), bufsz) {
        enqueued_entry_fits(w as int, r as int, len, bufsz);
    }
}

fn write_header<M: Mmio>(bus: &mut Bus<M>, at: usize, entry: &AfkQueueEntry)
    requires
        at + 16 <= usize::MAX,
    ensures
        final(bus).ops() == old(bus).ops() + header_ops(at, *entry),
{
    let ghost start = bus.ops();
    bus.write32(at, entry.magic);
    bus.write32(at + 4, entry.size);
    bus.write32(at + 8, entry.channel);
    bus.write32(at + 12, entry.msg_type);
    assert(bus.ops() =~= start + header_ops(at, *entry));
}

/// Decides whether a message can be sent, given the pointers found in a ring.
pub fn check_room(rb: &AfkRingBuffer, rptr: u32, wptr: u32, len: usize) -> (r: Result<
    (),
    AfkError,
>)
    ensures
        r is Ok <==> enqueue_result(*rb, rptr, wptr, len as int) is Ok,
        r matches Err(e) ==> enqueue_result(*rb, rptr, wptr, len as int) == Err::<(), _>(e),
{
    proof {
        aligned_up_is_least_multiple(16 + len, 64);
    }
    if rptr <= wptr && rb.bufsz < wptr {
        return Err(AfkError::PointerOutOfRange);
    }
    if len > 0xffff_ffff {
        return Err(AfkError::TxFull);
    }
    let advance: u64 = align64(16 + len as u64);
    if advance > 0xffff_ffff || !has_space(wptr, rptr, advance as usize, rb.bufsz as usize) {
        return Err(AfkError::TxFull);
    }
    let behind: u64 = wptr as u64 + 16;
    let whole: u64 = 16 + len as u64;
    let bufsz: u64 = rb.bufsz as u64;
    if behind > bufsz || (behind + len as u64 > bufsz && whole > bufsz) {
        return Err(AfkError::PointerOutOfRange);
    }
    Ok(())
}

/// Writes a message into a ring, given the pointers found there.
fn enqueue<M: Mmio>(
    bus: &mut Bus<M>,
    rb: &AfkRingBuffer,
    rptr: u32,
    wptr: u32,
    channel: u32,
    msg_type: u32,
    data: &[u8],
) -> (r: u32)
    requires
        rb.ready,
        rb.wf(),
        enqueue_result(*rb, rptr, wptr, data@.len() as int) is Ok,
    ensures
        final(bus).ops() == old(bus).ops() + enqueue_ops(
            *rb,
            wptr,
            AfkQueueEntry { magic: QE_MAGIC, size: data@.len() as u32, channel, msg_type },
            data@,
        ),
        r == next_pointer(
            entry_start(wptr as int, data@.len() as int, rb.bufsz as int),
            data@.len() as int,
            rb.bufsz as int,
        ),
{
    let ghost start = bus.ops();
    let len: usize = data.len();
    let bufsz: usize = rb.bufsz as usize;
    let w: usize = wptr as usize;
    proof {
        aligned_up_is_least_multiple(16 + len, 64);
        aligned_up_is_least_multiple(
            entry_start(wptr as int, len as int, bufsz as int) + 16 + len,
            64,
        );
    }
    let buf: usize = rb.hdr + RING_HEADER_SIZE;
    let entry = AfkQueueEntry { magic: QE_MAGIC, size: len as u32, channel, msg_type };
    write_header(bus, buf + w, &entry);
    let ghost mut done = header_ops(reg(rb.data(), w as int), entry);
    let mut at: usize = w;
    if len > bufsz - (w + HEADER_SIZE) {
        write_header(bus, buf, &entry);
        at = 0;
        proof {
            append_assoc(start, done, header_ops(rb.data(), entry));
            done = done + header_ops(rb.data(), entry);
        }
    } else {
        proof {
            assert(done + Seq::<Op>::empty() =~= done);
        }
    }
    bus.write_bytes(buf + at + HEADER_SIZE, data);
    proof {
        aligned_up_is_least_multiple(at + 16 + len, 64);
    }
    let end: u64 = align64(at as u64 + 16 + len as u64);
    let new_wptr: u32 = if end >= rb.bufsz as u64 {
        0
    } else {
        end as u32
    };
    bus.barrier();
    bus.write32(rb.hdr + 0x80, new_wptr);
    proof {
        let tail = seq![
            Op::WriteBytes { addr: reg(rb.data(), at + 16), bytes: data@ },
            Op::Fence,
            wr(rb.hdr, 0x80, new_wptr),
        ];
        assert(bus.ops() =~= (start + done) + tail);
        append_assoc(start, done, tail);
        assert(enqueue_ops(*rb, wptr, entry, data@) == done + tail);
    }
    new_wptr
}

fn align64(value: u64) -> (r: u64)
    requires
        value <= 0xffff_ffff_ffff_0000,
    ensures
        r == aligned_up(value as int, 64),
{
    ((value + 63) / 64) * 64
}

/// What a receiver found in shared memory.
pub struct RxOutcome {
    /// The read pointer.
    pub rptr: u32,
    /// Magic and size of the entry there.
    pub magic: u32,
    pub size: u32,
    /// Magic at the start of the ring.
    pub wrapped: u32,
    /// The read pointer, read again.
    pub again: u32,
    /// The entry header.
    pub entry: AfkQueueEntry,
}

/// The reads of an entry header.
pub open spec fn entry_reads(at: usize, e: AfkQueueEntry) -> Seq<Op> {
    seq![rd(at, 0, e.magic), rd(at, 4, e.size), rd(at, 8, e.channel), rd(at, 12, e.msg_type)]
}

/// The entry is read where the read pointer says, when it is read again.
pub open spec fn final_reads(rb: AfkRingBuffer, o: RxOutcome) -> Seq<Op> {
    seq![rd(rb.hdr, 0x40, o.again)] + (if o.again + 16 <= rb.bufsz {
        entry_reads(reg(rb.data(), o.again as int), o.entry)
    } else {
        Seq::empty()
    })
}

/// The accesses of a peek at the next message. An entry that would cross the
/// end of the ring sends the read pointer back to the start.
pub open spec fn peek_ops(rb: AfkRingBuffer, o: RxOutcome) -> Seq<Op> {
    let first = seq![rd(rb.hdr, 0x40, o.rptr)];
    let at = reg(rb.data(), o.rptr as int);
    if o.rptr + 16 > rb.bufsz {
        first
    } else if o.magic != QE_MAGIC {
        first + seq![rd(at, 0, o.magic)]
    } else {
        let sized = first + seq![rd(at, 0, o.magic), rd(at, 4, o.size)];
        if !crosses(o.rptr as int, o.size as int, rb.bufsz as int) {
            sized + final_reads(rb, o)
        } else {
            let back = sized + seq![wr(rb.hdr, 0x40, 0), rd(rb.data(), 0, o.wrapped)];
            if o.wrapped != QE_MAGIC {
                back
            } else {
                back + final_reads(rb, o)
            }
        }
    }
}

/// What a peek returns.
pub open spec fn peek_result(rb: AfkRingBuffer, o: RxOutcome) -> Option<AfkQueueEntry> {
    if o.rptr + 16 > rb.bufsz || o.magic != QE_MAGIC {
        None
    } else if crosses(o.rptr as int, o.size as int, rb.bufsz as int) && o.wrapped != QE_MAGIC {
        None
    } else if o.again + 16 > rb.bufsz {
        None
    } else {
        Some(o.entry)
    }
}

/// A peek with the given outcome.
pub open spec fn peeked_with(
    rb: AfkRingBuffer,
    before: Seq<Op>,
    after: Seq<Op>,
    r: Option<AfkQueueEntry>,
    o: RxOutcome,
) -> bool {
    after == before + peek_ops(rb, o) && r == peek_result(rb, o)
}

/// A peek at the next message.
pub open spec fn peeked(
    rb: AfkRingBuffer,
    before: Seq<Op>,
    after: Seq<Op>,
    r: Option<AfkQueueEntry>,
) -> bool {
    exists|o: RxOutcome| #[trigger] peeked_with(rb, before, after, r, o)
}

/// Where the payload of an entry lies.
pub open spec fn payload_start(rptr: u32, size: u32, bufsz: u32) -> int {
    entry_start(rptr as int, size as int, bufsz as int) + 16
}

/// The payload of an entry was read: from behind its header, where all of it
/// lies inside the ring.
pub open spec fn payload_read(
    rb: AfkRingBuffer,
    size: u32,
    before: Seq<Op>,
    after: Seq<Op>,
    r: Option<Seq<u8>>,
    rptr: u32,
) -> bool {
    let at = payload_start(rptr, size, rb.bufsz);
    if at + size <= rb.bufsz {
        &&& r is Some
        &&& (r->0).len() == size
        &&& after == before + seq![
            rd(rb.hdr, 0x40, rptr),
            Op::ReadBytes { addr: reg(rb.data(), at), bytes: r->0 },
        ]
    } else {
        &&& r is None
        &&& after == before + seq![rd(rb.hdr, 0x40, rptr)]
    }
}

/// A received message is acknowledged: the read pointer moves behind it.
pub open spec fn ack_ops(rb: AfkRingBuffer, rptr: u32, magic: u32, size: u32) -> Seq<Op> {
    let at = reg(rb.data(), rptr as int);
    if rptr + 16 > rb.bufsz {
        seq![rd(rb.hdr, 0x40, rptr)]
    } else if magic != QE_MAGIC {
        seq![rd(rb.hdr, 0x40, rptr), rd(at, 0, magic)]
    } else {
        seq![
            rd(rb.hdr, 0x40, rptr),
            rd(at, 0, magic),
            Op::Fence,
            rd(at, 4, size),
            wr(rb.hdr, 0x40, next_pointer(rptr as int, size as int, rb.bufsz as int) as u32),
        ]
    }
}

fn read_entry<M: Mmio>(bus: &mut Bus<M>, at: usize) -> (e: AfkQueueEntry)
    requires
        at + 16 <= usize::MAX,
    ensures
        final(bus).ops() == old(bus).ops() + entry_reads(at, e),
{
    let ghost start = bus.ops();
    let magic: u32 = bus.read32(at);
    let size: u32 = bus.read32(at + 4);
    let channel: u32 = bus.read32(at + 8);
    let msg_type: u32 = bus.read32(at + 12);
    let e = AfkQueueEntry { magic, size, channel, msg_type };
    assert(bus.ops() =~= start + entry_reads(at, e));
    e
}

/// Peek at the next message of a ring in use.
fn peek<M: Mmio>(bus: &mut Bus<M>, rb: &AfkRingBuffer) -> (r: Option<AfkQueueEntry>)
    requires
        rb.ready,
        rb.wf(),
    ensures
        peeked(*rb, old(bus).ops(), final(bus).ops(), r),
{
    let ghost start = bus.ops();
    let buf: usize = rb.hdr + RING_HEADER_SIZE;
    let bufsz: u64 = rb.bufsz as u64;
    let rptr: u32 = bus.read32(rb.hdr + 0x40);
    let ghost mut o = RxOutcome {
        rptr,
        magic: 0,
        size: 0,
        wrapped: 0,
        again: 0,
        entry: AfkQueueEntry { magic: 0, size: 0, channel: 0, msg_type: 0 },
    };
    if rptr as u64 + 16 > bufsz {
        assert(bus.ops() =~= start + peek_ops(*rb, o));
        assert(peeked_with(*rb, start, bus.ops(), None, o));
        return None;
    }
    let magic: u32 = bus.read32(buf + rptr as usize);
    proof {
        o = RxOutcome { magic, ..o };
    }
    if magic != QE_MAGIC {
        assert(bus.ops() =~= start + peek_ops(*rb, o));
        assert(peeked_with(*rb, start, bus.ops(), None, o));
        return None;
    }
    let size: u32 = bus.read32(buf + rptr as usize + 4);
    proof {
        o = RxOutcome { size, ..o };
    }
    if rptr as u64 + 16 + size as u64 > bufsz {
        bus.write32(rb.hdr + 0x40, 0);
        let wrapped: u32 = bus.read32(buf);
        proof {
            o = RxOutcome { wrapped, ..o };
        }
        if wrapped != QE_MAGIC {
            assert(bus.ops() =~= start + peek_ops(*rb, o));
            assert(peeked_with(*rb, start, bus.ops(), None, o));
            return None;
        }
    }
    let ghost mid = bus.ops();
    let again: u32 = bus.read32(rb.hdr + 0x40);
    proof {
        o = RxOutcome { again, ..o };
    }
    if again as u64 + 16 > bufsz {
        assert(bus.ops() =~= start + peek_ops(*rb, o));
        assert(peeked_with(*rb, start, bus.ops(), None, o));
        return None;
    }
    let entry = read_entry(bus, buf + again as usize);
    proof {
        o = RxOutcome { entry, ..o };
        assert(bus.ops() =~= mid + final_reads(*rb, o));
        assert(bus.ops() =~= start + peek_ops(*rb, o));
        assert(peeked_with(*rb, start, bus.ops(), Some(entry), o));
    }
    Some(entry)
}

/// Read the payload of an entry of a ring in use.
fn read_payload<M: Mmio>(bus: &mut Bus<M>, rb: &AfkRingBuffer, size: u32) -> (r: (
    Option<Vec<u8>>,
    Ghost<u32>,
))
    requires
        rb.ready,
        rb.wf(),
    ensures
        payload_read(
            *rb,
            size,
            old(bus).ops(),
            final(bus).ops(),
            bytes_of(r.0),
            r.1@,
        ),
{
    let ghost start = bus.ops();
    let buf: usize = rb.hdr + RING_HEADER_SIZE;
    let bufsz: u64 = rb.bufsz as u64;
    let rptr: u32 = bus.read32(rb.hdr + 0x40);
    let at: u64 = if rptr as u64 + 16 + size as u64 > bufsz {
        16
    } else {
        rptr as u64 + 16
    };
    if at + size as u64 > bufsz {
        assert(bus.ops() =~= start + seq![rd(rb.hdr, 0x40, rptr)]);
        return (None, Ghost(rptr));
    }
    let bytes = bus.read_bytes(buf + at as usize, size as usize);
    assert(bus.ops() =~= start + seq![
        rd(rb.hdr, 0x40, rptr),
        Op::ReadBytes { addr: reg(rb.data(), at as int), bytes: bytes@ },
    ]);
    (Some(bytes), Ghost(rptr))
}

/// The bytes of an optional payload.
pub open spec fn bytes_of(payload: Option<Vec<u8>>) -> Option<Seq<u8>> {
    match payload {
        Some(bytes) => Some(bytes@),
        None => None,
    }
}

/// Move the read pointer of a ring in use behind the current entry.
fn acknowledge<M: Mmio>(bus: &mut Bus<M>, rb: &AfkRingBuffer)
    requires
        rb.ready,
        rb.wf(),
    ensures
        exists|rptr: u32, magic: u32, size: u32|
            final(bus).ops() == old(bus).ops() + #[trigger] ack_ops(*rb, rptr, magic, size),
{
    let ghost start = bus.ops();
    let buf: usize = rb.hdr + RING_HEADER_SIZE;
    let rptr: u32 = bus.read32(rb.hdr + 0x40);
    if rptr as u64 + 16 > rb.bufsz as u64 {
        assert(bus.ops() =~= start + ack_ops(*rb, rptr, 0, 0));
        return;
    }
    let magic: u32 = bus.read32(buf + rptr as usize);
    if magic != QE_MAGIC {
        assert(bus.ops() =~= start + ack_ops(*rb, rptr, magic, 0));
        return;
    }
    bus.barrier();
    let size: u32 = bus.read32(buf + rptr as usize + 4);
    proof {
        aligned_up_is_least_multiple(rptr + 16 + size, 64);
    }
    let end: u64 = align64(rptr as u64 + 16 + size as u64);
    let new_rptr: u32 = if end >= rb.bufsz as u64 {
        0
    } else {
        end as u32
    };
    bus.write32(rb.hdr + 0x40, new_rptr);
    assert(bus.ops() =~= start + ack_ops(*rb, rptr, magic, size));
}


/// Shared DMA buffer backing the TX and RX ring buffers.
#[derive(Clone, Copy, Debug, PartialEq, Eq, Structural)]
pub struct AfkSharedBuffer {
    /// Kernel virtual address.
    pub virt: usize,
    /// Physical address, handed to the coprocessor.
    pub paddr: u64,
    /// Total buffer size in bytes.
    pub size: usize,
    /// Tag the coprocessor names the buffer by.
    pub tag: u32,
}

impl AfkSharedBuffer {
    /// The buffer lies in the address space.
    pub open spec fn wf(self) -> bool {
        self.virt + self.size <= usize::MAX && self.size <= 0x40_0000
    }
}

/// The ring a setup message asks for, given the data size found in its
/// header.
pub open spec fn ring_setup(shared: AfkSharedBuffer, msg: u64, hdr_bufsz: u32) -> Result<
    AfkRingBuffer,
    AfkError,
> {
    let base = (((msg & 0xffff_0000_0000) >> 32) * 64) as int;
    let total = (((msg & 0xffff_0000) >> 16) * 64) as int;
    if (msg & 0xffff) as u32 != shared.tag {
        Err(AfkError::TagMismatch)
    } else if base + total > shared.size {
        Err(AfkError::OutOfBounds)
    } else if hdr_bufsz + 0xc0 != total {
        Err(AfkError::SizeMismatch)
    } else {
        Ok(AfkRingBuffer { hdr: reg(shared.virt, base), bufsz: hdr_bufsz, ready: true })
    }
}

/// The data size is read where the message fits the buffer.
pub open spec fn setup_reads(shared: AfkSharedBuffer, msg: u64, hdr_bufsz: u32) -> Seq<Op> {
    let base = (((msg & 0xffff_0000_0000) >> 32) * 64) as int;
    let total = (((msg & 0xffff_0000) >> 16) * 64) as int;
    if (msg & 0xffff) as u32 == shared.tag && base + total <= shared.size {
        seq![rd(shared.virt, base, hdr_bufsz)]
    } else {
        Seq::empty()
    }
}

/// A ring in use was set up by a message.
pub open spec fn ring_from(rb: AfkRingBuffer, shared: AfkSharedBuffer, msg: u64) -> bool {
    ring_setup(shared, msg, rb.bufsz) == Ok::<AfkRingBuffer, AfkError>(rb)
}

/// Initialize one ring buffer from a setup message.
fn init_ring_buffer<M: Mmio>(bus: &mut Bus<M>, shared: &AfkSharedBuffer, msg: u64) -> (r: Result<
    AfkRingBuffer,
    AfkError,
>)
    requires
        shared.wf(),
    ensures
        exists|found: u32|
            r == #[trigger] ring_setup(*shared, msg, found) && final(bus).ops() == old(bus).ops()
                + setup_reads(*shared, msg, found),
        r is Ok ==> (r->Ok_0).wf() && (r->Ok_0).ready && ring_from(r->Ok_0, *shared, msg),
{
    let blocks: u64 = (msg & 0xffff_0000_0000) >> 32;
    let len: u64 = (msg & 0xffff_0000) >> 16;
    assert((msg & 0xffff_0000_0000u64) >> 32u64 <= 0xffff && (msg & 0xffff_0000u64) >> 16u64
        <= 0xffff) by (bit_vector);
    let tag: u32 = (msg & 0xffff) as u32;
    let ghost start = bus.ops();
    if tag != shared.tag {
        assert(start =~= start + setup_reads(*shared, msg, 0));
        assert(ring_setup(*shared, msg, 0) == Err::<AfkRingBuffer, _>(AfkError::TagMismatch));
        return Err(AfkError::TagMismatch);
    }
    let base: usize = (blocks * 64) as usize;
    let total: usize = (len * 64) as usize;
    if base + total > shared.size {
        assert(start =~= start + setup_reads(*shared, msg, 0));
        assert(ring_setup(*shared, msg, 0) == Err::<AfkRingBuffer, _>(AfkError::OutOfBounds));
        return Err(AfkError::OutOfBounds);
    }
    let hdr: usize = shared.virt + base;
    let hdr_bufsz: u32 = bus.read32(hdr);
    assert(bus.ops() =~= start + setup_reads(*shared, msg, hdr_bufsz));
    if hdr_bufsz as u64 + 0xc0 != total as u64 {
        assert(ring_setup(*shared, msg, hdr_bufsz) == Err::<AfkRingBuffer, _>(
            AfkError::SizeMismatch,
        ));
        return Err(AfkError::SizeMismatch);
    }
    let rb = AfkRingBuffer { hdr, bufsz: hdr_bufsz, ready: true };
    assert(ring_setup(*shared, msg, hdr_bufsz) == Ok::<AfkRingBuffer, AfkError>(rb));
    Ok(rb)
}

/// AFK endpoint state: a pair of rings within a single shared buffer.
pub struct AfkEndpoint {
    pub rtkit: AppleRtkit,
    pub ep: u8,
    pub shared: Option<AfkSharedBuffer>,
    pub tx: AfkRingBuffer,
    pub rx: AfkRingBuffer,
    pub started: bool,
}

/// A message of this endpoint.
pub open spec fn rbep_mail(ep: u8, kind: u64, payload: u64) -> AscMessage {
    AscMessage { msg0: rbep_word(kind, payload), msg1: ep as u32 }
}

/// The endpoint is not one of those whose messages the transport handles.
pub open spec fn application_endpoint(ep: u8) -> bool {
    ep != 0 && ep != 1 && ep != 2
}

impl AfkEndpoint {
    /// Everything that passed through the mailbox.
    pub open spec fn traffic(&self) -> Seq<Traffic> {
        self.rtkit.traffic()
    }

    /// Registers and rings lie in the address space.
    pub open spec fn wf(&self) -> bool {
        &&& self.rtkit.mapped()
        &&& self.tx.wf()
        &&& self.rx.wf()
        &&& self.shared is Some ==> (self.shared->0).wf()
    }

    /// The buffer and the rings.
    pub open spec fn rings(&self) -> Rings {
        Rings { shared: self.shared, tx: self.tx, rx: self.rx }
    }

    /// The record of operations together with the traffic.
    pub open spec fn link(&self, ops: Seq<Op>) -> LinkShot {
        LinkShot { ops, traffic: self.traffic() }
    }

    /// Everything that a handshake changes, given the operations and the
    /// requests for pages so far.
    pub open spec fn shot(&self, ops: Seq<Op>, asked: Seq<PageRequest>) -> AfkShot {
        AfkShot { traffic: self.traffic(), ops, asked, rings: self.rings() }
    }

    /// Apart from the transport nothing changed.
    pub open spec fn same_rings(&self, other: &AfkEndpoint) -> bool {
        &&& self.ep == other.ep
        &&& self.shared == other.shared
        &&& self.tx == other.tx
        &&& self.rx == other.rx
        &&& self.started == other.started
        &&& self.rtkit.asc.at() == other.rtkit.asc.at()
    }

    /// Create a new AFK endpoint (not started).
    pub fn new(rtkit: AppleRtkit, ep: u8) -> (r: Self)
        ensures
            r.rtkit == rtkit,
            r.ep == ep,
            r.shared is None,
            !r.tx.ready,
            !r.rx.ready,
            !r.started,
            rtkit.mapped() ==> r.wf(),
    {
        AfkEndpoint {
            rtkit,
            ep,
            shared: None,
            tx: AfkRingBuffer { hdr: 0, bufsz: 0, ready: false },
            rx: AfkRingBuffer { hdr: 0, bufsz: 0, ready: false },
            started: false,
        }
    }

    /// Whether the endpoint has been fully started.
    pub fn is_started(&self) -> (r: bool)
        ensures
            r == self.started,
    {
        self.started
    }

    /// Get the underlying RTKit instance.
    pub fn rtkit(&self) -> (r: &AppleRtkit)
        ensures
            *r == self.rtkit,
    {
        &self.rtkit
    }

    /// Get the RTKit endpoint number.
    pub fn endpoint(&self) -> (r: u8)
        ensures
            r == self.ep,
    {
        self.ep
    }

    fn send_rbep<M: Mmio>(&mut self, bus: &mut Bus<M>, kind: u64, payload: u64) -> (r: Result<
        (),
        AfkError,
    >)
        requires
            old(self).wf(),
        ensures
            final(self).wf(),
            final(self).same_rings(old(self)),
            final(self).rtkit.same_state(&old(self).rtkit),
            r is Ok ==> final(self).traffic() == old(self).traffic().push(
                Traffic::Sent(rbep_mail(old(self).ep, kind, payload)),
            ),
            r is Err ==> final(self).traffic() == old(self).traffic() && r->Err_0
                == AfkError::Transport(RtkitError::Mailbox(AscError::SendTimeout)),
            send_done(
                old(bus).ops(),
                final(bus).ops(),
                old(self).rtkit.asc.at(),
                rbep_mail(old(self).ep, kind, payload),
                r is Ok,
            ),
    {
        match self.rtkit.send(bus, &RtkitMessage { ep: self.ep, msg: rbep_msg(kind, payload) }) {
            Ok(()) => Ok(()),
            Err(error) => Err(AfkError::Transport(error)),
        }
    }

    /// Receive one message while waiting; `Some` is one for a user of the
    /// transport.
    fn recv_one<M: Mmio>(&mut self, bus: &mut Bus<M>) -> (r: Option<RtkitMessage>)
        requires
            old(self).wf(),
        ensures
            final(self).wf(),
            final(self).same_rings(old(self)),
            looked(
                old(self).link(old(bus).ops()),
                final(self).link(final(bus).ops()),
                old(self).rtkit.asc.at(),
                r,
            ),
    {
        let ghost before = self.rtkit;
        let ghost a = self.link(bus.ops());
        let ghost at = self.rtkit.asc.at();
        let mut msg = RtkitMessage { ep: 0, msg: 0 };
        let got = self.rtkit.recv(bus, &mut msg);
        let r = match got {
            Ok(true) => Some(msg),
            _ => None,
        };
        proof {
            let b = self.link(bus.ops());
            if dispatched_from(msg, &before, &self.rtkit, got, (a.ops, b.ops), at) {
                let (middle, f) = choose|middle: AppleRtkit, f: Fetch|
                    {
                        &&& #[trigger] dispatched_via(
                            msg,
                            &before,
                            &self.rtkit,
                            got,
                            &middle,
                            f.msg1 as u32,
                        )
                        &&& took_message_via(msg, a.ops, b.ops, at, got is Ok, f)
                    };
                assert(fetched(a, b, at, r, f, got is Ok));
            }
        }
        r
    }

    fn wait_rbep_type<M: Mmio>(&mut self, bus: &mut Bus<M>, expected: u64) -> (r: Result<
        u64,
        AfkError,
    >)
        requires
            old(self).wf(),
        ensures
            final(self).wf(),
            final(self).same_rings(old(self)),
            waited(
                old(self).link(old(bus).ops()),
                final(self).link(final(bus).ops()),
                old(self).ep,
                old(self).rtkit.asc.at(),
                expected,
                r,
            ),
    {
        let ghost a = self.link(bus.ops());
        let ghost ep = self.ep;
        let ghost at = self.rtkit.asc.at();
        let start: u64 = bus.current_time();
        let ghost first = clocked(a, start);
        let mut polls: u64 = 0;
        let ghost mut looks: Seq<Look> = Seq::empty();
        while polls < u64::MAX
            invariant
                a == old(self).link(old(bus).ops()),
                first == clocked(a, start),
                ep == old(self).ep,
                at == old(self).rtkit.asc.at(),
                self.wf(),
                self.same_rings(old(self)),
                looks.len() == polls,
                self.link(bus.ops()) == before_look(first, looks, polls as int),
                looks_ok(first, looks, at, start),
                forall|i: int|
                    0 <= i < looks.len() ==> !brings((#[trigger] looks[i]).got, ep, expected),
            decreases u64::MAX - polls,
        {
            let ghost last = self.link(bus.ops());
            let now: u64 = bus.current_time();
            assert(self.link(bus.ops()) == clocked(last, now));
            let elapsed: u64 = if now >= start {
                now - start
            } else {
                0
            };
            if elapsed >= AFK_TIMEOUT_US {
                proof {
                    let r = Err(AfkError::Timeout);
                    let b = self.link(bus.ops());
                    assert(waited_with(a, b, ep, at, expected, r, start, now, looks));
                }
                return Err(AfkError::Timeout);
            }
            let received = self.recv_one(bus);
            let ghost seen = self.link(bus.ops());
            match received {
                Some(msg) => {
                    let ghost more = looks.push(Look { now, seen, got: received, shot: seen });
                    proof {
                        looks_push(first, looks, at, start, more.last());
                    }
                    if msg.ep == self.ep && rbep_type(msg.msg) == expected {
                        proof {
                            let r = Ok(msg.msg);
                            assert(waited_with(a, seen, ep, at, expected, r, start, now, more));
                        }
                        return Ok(msg.msg);
                    }
                    proof {
                        looks = more;
                    }
                },
                None => {
                    bus.udelay(AFK_POLL_DELAY_US);
                    proof {
                        let shot = self.link(bus.ops());
                        assert(shot == paused(seen));
                        let more = looks.push(Look { now, seen, got: received, shot });
                        looks_push(first, looks, at, start, more.last());
                        looks = more;
                    }
                },
            }
            polls = polls + 1;
        }
        proof {
            let r = Err(AfkError::Timeout);
            assert(waited_with(a, self.link(bus.ops()), ep, at, expected, r, start, 0, looks));
        }
        Err(AfkError::Timeout)
    }

    /// Handle GETBUF: allocate a shared buffer, zero it and reply with its
    /// address.
    fn handle_getbuf<M: Mmio, P: PageSource>(
        &mut self,
        bus: &mut Bus<M>,
        pages: &mut PagePort<P>,
    ) -> (r: Result<(), AfkError>)
        requires
            old(self).wf(),
        ensures
            final(self).wf(),
            final(self).ep == old(self).ep,
            final(self).started == old(self).started,
            final(self).rtkit.asc.at() == old(self).rtkit.asc.at(),
            r is Ok ==> final(self).shared is Some,
            buffer_handed(
                old(self).shot(old(bus).ops(), old(pages).log()),
                final(self).shot(final(bus).ops(), final(pages).log()),
                old(self).ep,
                old(self).rtkit.asc.at(),
                plain(r),
            ),
    {
        let ghost s0 = self.shot(bus.ops(), pages.log());
        let ghost ep = self.ep;
        let ghost at = self.rtkit.asc.at();
        let request = self.wait_rbep_type(bus, RBEP_GETBUF);
        let ghost s1 = self.shot(bus.ops(), pages.log());
        let msg: u64 = match request {
            Ok(msg) => msg,
            Err(error) => {
                assert(buffer_handed_via(s0, s1, ep, at, Err(error), s1, request, None));
                return Err(error);
            },
        };
        let blocks: u64 = (msg & 0xffff_0000) >> 16;
        assert((msg & 0xffff_0000u64) >> 16u64 <= 0xffff) by (bit_vector);
        let tag: u32 = (msg & 0xffff) as u32;
        let size: usize = (blocks * 64) as usize;
        let count: usize = (size + 4095) / 4096;
        let answer = pages.alloc_contiguous_pages(count);
        let (paddr, virt): (u64, usize) = match answer {
            Some(found) => found,
            None => {
                proof {
                    let s2 = self.shot(bus.ops(), pages.log());
                    let r = Err(AfkError::AllocFailed);
                    assert(buffer_handed_via(s0, s2, ep, at, r, s1, request, answer));
                }
                return Err(AfkError::AllocFailed);
            },
        };
        if virt > usize::MAX - size {
            proof {
                let s2 = self.shot(bus.ops(), pages.log());
                let r = Err(AfkError::AllocFailed);
                assert(buffer_handed_via(s0, s2, ep, at, r, s1, request, answer));
            }
            return Err(AfkError::AllocFailed);
        }
        bus.zero_bytes(virt, size);
        let shared = AfkSharedBuffer { virt, paddr, size, tag };
        self.shared = Some(shared);
        let r = self.send_rbep(bus, RBEP_GETBUF_ACK, paddr & 0x0000_ffff_ffff_ffff);
        proof {
            let s2 = self.shot(bus.ops(), pages.log());
            assert(buffer_handed_via(s0, s2, ep, at, plain(r), s1, request, answer));
        }
        r
    }

    /// Wait for a setup message for each direction and set up the rings.
    fn wait_init_ringbuffers<M: Mmio>(&mut self, bus: &mut Bus<M>) -> (r: Result<(), AfkError>)
        requires
            old(self).wf(),
        ensures
            final(self).wf(),
            final(self).ep == old(self).ep,
            final(self).shared == old(self).shared,
            final(self).started == old(self).started,
            final(self).rtkit.asc.at() == old(self).rtkit.asc.at(),
            r is Ok ==> rings_set_up(final(self).rings()),
            rings_awaited(
                old(self).link(old(bus).ops()),
                final(self).link(final(bus).ops()),
                (old(self).rings(), final(self).rings()),
                old(self).ep,
                old(self).rtkit.asc.at(),
                plain(r),
            ),
    {
        let ghost a = self.link(bus.ops());
        let ghost ep = self.ep;
        let ghost at = self.rtkit.asc.at();
        let ghost rings = self.rings();
        let mut tx_done = false;
        let mut rx_done = false;
        let ghost mut tx_msg: u64 = 0;
        let ghost mut rx_msg: u64 = 0;
        let ghost mut rounds: Seq<SetupRound> = Seq::empty();
        let mut count: u64 = 0;
        while (!tx_done || !rx_done) && count < u64::MAX
            invariant
                a == old(self).link(old(bus).ops()),
                ep == old(self).ep,
                at == old(self).rtkit.asc.at(),
                rings == old(self).rings(),
                self.wf(),
                self.ep == ep,
                self.shared == old(self).shared,
                self.started == old(self).started,
                self.rtkit.asc.at() == at,
                rounds.len() == count,
                self.link(bus.ops()) == before_setup(a, rounds, count as int),
                setups_ok(a, rounds, ep, at, self.shared),
                tx_done == told(rounds, RBEP_INIT_TX),
                rx_done == told(rounds, RBEP_INIT_RX),
                count > 0 ==> !told_both(rounds.drop_last()),
                tx_done ==> set_up_by(self.tx, self.shared, RBEP_INIT_TX, tx_msg),
                rx_done ==> set_up_by(self.rx, self.shared, RBEP_INIT_RX, rx_msg),
                self.tx == ring_after(rings.tx, rounds, self.shared, RBEP_INIT_TX),
                self.rx == ring_after(rings.rx, rounds, self.shared, RBEP_INIT_RX),
            decreases u64::MAX - count,
        {
            let ghost b = self.link(bus.ops());
            let start: u64 = bus.current_time();
            let ghost first = clocked(b, start);
            let ghost mut w = SetupRound {
                start,
                now: 0,
                looks: Seq::empty(),
                msg: 0,
                found: 0,
                shot: b,
            };
            let mut got: Option<u64> = None;
            let mut polls: u64 = 0;
            while got.is_none() && polls < u64::MAX
                invariant
                    a == old(self).link(old(bus).ops()),
                    first == clocked(b, start),
                    b == before_setup(a, rounds, count as int),
                    ep == old(self).ep,
                    at == old(self).rtkit.asc.at(),
                    rings == old(self).rings(),
                    self.wf(),
                    self.ep == ep,
                    self.shared == old(self).shared,
                    self.started == old(self).started,
                    self.rtkit.asc.at() == at,
                    rounds.len() == count,
                    setups_ok(a, rounds, ep, at, self.shared),
                    !told_both(rounds),
                    self.tx == ring_after(rings.tx, rounds, self.shared, RBEP_INIT_TX),
                    self.rx == ring_after(rings.rx, rounds, self.shared, RBEP_INIT_RX),
                    tx_done ==> set_up_by(self.tx, self.shared, RBEP_INIT_TX, tx_msg),
                    rx_done ==> set_up_by(self.rx, self.shared, RBEP_INIT_RX, rx_msg),
                    w.start == start,
                    w.looks.len() == polls,
                    self.link(bus.ops()) == before_look(first, w.looks, polls as int),
                    looks_ok(first, w.looks, at, start),
                    match got {
                        None => forall|i: int|
                            0 <= i < w.looks.len() ==> !from_endpoint(
                                (#[trigger] w.looks[i]).got,
                                ep,
                            ),
                        Some(msg) => message_came(b, w, ep, at) && msg == w.msg,
                    },
                decreases u64::MAX - polls,
            {
                let ghost last = self.link(bus.ops());
                let now: u64 = bus.current_time();
                assert(self.link(bus.ops()) == clocked(last, now));
                let elapsed: u64 = if now >= start {
                    now - start
                } else {
                    0
                };
                if elapsed >= AFK_TIMEOUT_US {
                    proof {
                        w = SetupRound { now, ..w };
                        let z = self.link(bus.ops());
                        let r = Err(AfkError::InitTimeout);
                        let both = (rings, self.rings());
                        assert(rings_awaited_with(a, z, both, ep, at, r, rounds, w));
                    }
                    return Err(AfkError::InitTimeout);
                }
                let received = self.recv_one(bus);
                let ghost seen = self.link(bus.ops());
                match received {
                    Some(msg) => {
                        let ghost k = Look { now, seen, got: received, shot: seen };
                        proof {
                            looks_push(first, w.looks, at, start, k);
                            w = SetupRound { looks: w.looks.push(k), ..w };
                        }
                        if msg.ep == self.ep {
                            got = Some(msg.msg);
                            proof {
                                w = SetupRound { msg: msg.msg, ..w };
                            }
                        }
                    },
                    None => {
                        bus.udelay(AFK_POLL_DELAY_US);
                        proof {
                            let shot = self.link(bus.ops());
                            assert(shot == paused(seen));
                            let k = Look { now, seen, got: received, shot };
                            looks_push(first, w.looks, at, start, k);
                            w = SetupRound { looks: w.looks.push(k), ..w };
                        }
                    },
                }
                polls = polls + 1;
            }
            let msg: u64 = match got {
                Some(msg) => msg,
                None => {
                    proof {
                        let z = self.link(bus.ops());
                        let r = Err(AfkError::InitTimeout);
                        let both = (rings, self.rings());
                        assert(rings_awaited_with(a, z, both, ep, at, r, rounds, w));
                    }
                    return Err(AfkError::InitTimeout);
                },
            };
            let ghost came = self.link(bus.ops());
            let kind: u64 = rbep_type(msg);
            if kind == RBEP_INIT_TX || kind == RBEP_INIT_RX {
                let shared = match self.shared {
                    Some(shared) => shared,
                    None => {
                        proof {
                            let r = Err(AfkError::NoSharedBuffer);
                            let both = (rings, self.rings());
                            assert(rings_awaited_with(a, came, both, ep, at, r, rounds, w));
                        }
                        return Err(AfkError::NoSharedBuffer);
                    },
                };
                let setup = init_ring_buffer(bus, &shared, msg);
                let ghost found = choose|found: u32|
                    setup == #[trigger] ring_setup(shared, msg, found) && bus.ops() == came.ops
                        + setup_reads(shared, msg, found);
                proof {
                    w = SetupRound { found, ..w };
                }
                let rb = match setup {
                    Ok(rb) => rb,
                    Err(error) => {
                        proof {
                            let z = self.link(bus.ops());
                            let both = (rings, self.rings());
                            assert(rings_awaited_with(
                                a,
                                z,
                                both,
                                ep,
                                at,
                                Err(error),
                                rounds,
                                w,
                            ));
                        }
                        return Err(error);
                    },
                };
                if kind == RBEP_INIT_TX {
                    self.tx = rb;
                    tx_done = true;
                    proof {
                        tx_msg = msg;
                    }
                } else {
                    self.rx = rb;
                    rx_done = true;
                    proof {
                        rx_msg = msg;
                    }
                }
            }
            proof {
                w = SetupRound { shot: self.link(bus.ops()), ..w };
                let more = rounds.push(w);
                assert(more.drop_last() =~= rounds);
                assert forall|i: int| 0 <= i < more.len() implies #[trigger] setup_ok(
                    a,
                    more,
                    i,
                    ep,
                    at,
                    self.shared,
                ) by {
                    if i < rounds.len() {
                        assert(setup_ok(a, rounds, i, ep, at, self.shared));
                    }
                }
                rounds = more;
            }
            count = count + 1;
        }
        let ghost w = SetupRound {
            start: 0,
            now: 0,
            looks: Seq::empty(),
            msg: 0,
            found: 0,
            shot: a,
        };
        let ghost z = self.link(bus.ops());
        let ghost both = (rings, self.rings());
        if !tx_done || !rx_done {
            proof {
                let r = Err(AfkError::NotInitialized);
                assert(rings_awaited_with(a, z, both, ep, at, r, rounds, w));
            }
            return Err(AfkError::NotInitialized);
        }
        proof {
            assert(rings_from(self.rings(), tx_msg, rx_msg));
            assert(rings_awaited_with(a, z, both, ep, at, Ok(0), rounds, w));
        }
        Ok(())
    }

    /// Perform the full initialization handshake: start the endpoint, INIT,
    /// GETBUF, ring setup, START.
    pub fn start<M: Mmio, P: PageSource>(
        &mut self,
        bus: &mut Bus<M>,
        pages: &mut PagePort<P>,
    ) -> (r: Result<(), AfkError>)
        requires
            old(self).wf(),
        ensures
            final(self).wf(),
            final(self).ep == old(self).ep,
            final(self).started == (old(self).started || r is Ok),
            r is Ok ==> rings_set_up(final(self).rings()),
            shook_hands(
                old(self).shot(old(bus).ops(), old(pages).log()),
                final(self).shot(final(bus).ops(), final(pages).log()),
                old(self).ep,
                old(self).rtkit.asc.at(),
                r,
            ),
    {
        let ghost ep = self.ep;
        let ghost at = self.rtkit.asc.at();
        let ghost a = self.shot(bus.ops(), pages.log());
        let ghost mut h = Handshake { steps: 0, shots: seq![a], results: Seq::empty() };
        let asked = self.rtkit.start_ep(bus, self.ep);
        let ghost b = self.shot(bus.ops(), pages.log());
        let ghost outcome = transport_result(asked);
        assert(step_taken(h.step(b, outcome), h.steps, ep, at));
        match asked {
            Ok(()) => {},
            Err(error) => {
                let e = AfkError::Transport(error);
                assert(shook_hands_via(a, b, ep, at, Err(e), h, b, outcome));
                return Err(e);
            },
        }
        proof {
            step_leads_on(a, ep, at, h, b, outcome);
            h = h.step(b, outcome);
        }
        let asked = self.send_rbep(bus, RBEP_INIT, 0);
        let ghost b = self.shot(bus.ops(), pages.log());
        let ghost outcome = plain(asked);
        assert(step_taken(h.step(b, outcome), h.steps, ep, at));
        match asked {
            Ok(()) => {},
            Err(error) => {
                assert(shook_hands_via(a, b, ep, at, Err(error), h, b, outcome));
                return Err(error);
            },
        }
        proof {
            step_leads_on(a, ep, at, h, b, outcome);
            h = h.step(b, outcome);
        }
        let heard = self.wait_rbep_type(bus, RBEP_INIT_ACK);
        let ghost b = self.shot(bus.ops(), pages.log());
        assert(step_taken(h.step(b, heard), h.steps, ep, at));
        match heard {
            Ok(_) => {},
            Err(error) => {
                assert(shook_hands_via(a, b, ep, at, Err(error), h, b, heard));
                return Err(error);
            },
        }
        proof {
            step_leads_on(a, ep, at, h, b, heard);
            h = h.step(b, heard);
        }
        let handed = self.handle_getbuf(bus, pages);
        let ghost b = self.shot(bus.ops(), pages.log());
        let ghost outcome = plain(handed);
        assert(step_taken(h.step(b, outcome), h.steps, ep, at));
        match handed {
            Ok(()) => {},
            Err(error) => {
                assert(shook_hands_via(a, b, ep, at, Err(error), h, b, outcome));
                return Err(error);
            },
        }
        proof {
            step_leads_on(a, ep, at, h, b, outcome);
            h = h.step(b, outcome);
        }
        let set_up = self.wait_init_ringbuffers(bus);
        let ghost b = self.shot(bus.ops(), pages.log());
        let ghost outcome = plain(set_up);
        assert(step_taken(h.step(b, outcome), h.steps, ep, at));
        match set_up {
            Ok(()) => {},
            Err(error) => {
                assert(shook_hands_via(a, b, ep, at, Err(error), h, b, outcome));
                return Err(error);
            },
        }
        assert(rings_set_up(self.rings()));
        let ghost rings = self.rings();
        proof {
            step_leads_on(a, ep, at, h, b, outcome);
            h = h.step(b, outcome);
        }
        let asked = self.send_rbep(bus, RBEP_START, 0);
        let ghost b = self.shot(bus.ops(), pages.log());
        let ghost outcome = plain(asked);
        assert(step_taken(h.step(b, outcome), h.steps, ep, at));
        match asked {
            Ok(()) => {},
            Err(error) => {
                assert(shook_hands_via(a, b, ep, at, Err(error), h, b, outcome));
                return Err(error);
            },
        }
        proof {
            step_leads_on(a, ep, at, h, b, outcome);
            h = h.step(b, outcome);
        }
        let heard = self.wait_rbep_type(bus, RBEP_START_ACK);
        let ghost b = self.shot(bus.ops(), pages.log());
        assert(step_taken(h.step(b, heard), h.steps, ep, at));
        match heard {
            Ok(_) => {},
            Err(error) => {
                assert(shook_hands_via(a, b, ep, at, Err(error), h, b, heard));
                return Err(error);
            },
        }
        self.started = true;
        proof {
            assert(self.rings() == rings);
            assert(shook_hands_via(a, b, ep, at, Ok(()), h, b, heard));
        }
        Ok(())
    }

    /// Enqueue a message into the TX ring buffer and notify the coprocessor.
    pub fn send<M: Mmio>(&mut self, bus: &mut Bus<M>, channel: u32, msg_type: u32, data: &[u8]) -> (r:
        Result<(), AfkError>)
        requires
            old(self).wf(),
        ensures
            final(self).wf(),
            delivered(
                old(self),
                final(self),
                (old(bus).ops(), final(bus).ops()),
                channel,
                msg_type,
                data@,
                r,
            ),
    {
        if !self.tx.ready {
            return Err(AfkError::TxNotReady);
        }
        let ghost before = bus.ops();
        let ghost me = *self;
        let rb = self.tx;
        let rptr: u32 = bus.read32(rb.hdr + 0x40);
        let wptr: u32 = bus.read32(rb.hdr + 0x80);
        assert(bus.ops() =~= before + pointer_ops(rb, rptr, wptr));
        let ghost mid = bus.ops();
        if let Err(error) = check_room(&rb, rptr, wptr, data.len()) {
            assert(sent_entry_with(
                &me,
                self,
                before,
                bus.ops(),
                channel,
                msg_type,
                data@,
                Err(error),
                rptr,
                wptr,
            ));
            return Err(error);
        }
        let new_wptr: u32 = enqueue(bus, &rb, rptr, wptr, channel, msg_type, data);
        let ghost written = bus.ops();
        match self.send_rbep(bus, RBEP_SEND, new_wptr as u64) {
            Ok(()) => {
                assert(sent_entry_with(
                    &me,
                    self,
                    before,
                    bus.ops(),
                    channel,
                    msg_type,
                    data@,
                    Ok(()),
                    rptr,
                    wptr,
                ));
                Ok(())
            },
            Err(error) => {
                assert(sent_entry_with(
                    &me,
                    self,
                    before,
                    bus.ops(),
                    channel,
                    msg_type,
                    data@,
                    Err(error),
                    rptr,
                    wptr,
                ));
                Err(error)
            },
        }
    }

    /// Peek at the next message in the RX ring buffer.
    pub fn recv<M: Mmio>(&mut self, bus: &mut Bus<M>) -> (r: Option<AfkQueueEntry>)
        requires
            old(self).wf(),
        ensures
            *final(self) == *old(self),
            !old(self).rx.ready ==> r is None && final(bus).ops() == old(bus).ops(),
            old(self).rx.ready ==> peeked(old(self).rx, old(bus).ops(), final(bus).ops(), r),
    {
        if !self.rx.ready {
            return None;
        }
        peek(bus, &self.rx)
    }

    /// Get the payload data for a received queue entry; `None` where it does
    /// not lie inside the ring.
    pub fn recv_payload<M: Mmio>(&self, bus: &mut Bus<M>, entry: &AfkQueueEntry) -> (r: Option<
        Vec<u8>,
    >)
        requires
            self.wf(),
            self.rx.ready,
        ensures
            exists|rptr: u32| #[trigger]
                payload_read(
                    self.rx,
                    entry.size,
                    old(bus).ops(),
                    final(bus).ops(),
                    bytes_of(r),
                    rptr,
                ),
    {
        let (r, rptr) = read_payload(bus, &self.rx, entry.size);
        r
    }

    /// Acknowledge a received message and advance the RX read pointer.
    pub fn recv_ack<M: Mmio>(&mut self, bus: &mut Bus<M>)
        requires
            old(self).wf(),
            old(self).rx.ready,
        ensures
            *final(self) == *old(self),
            exists|rptr: u32, magic: u32, size: u32|
                final(bus).ops() == old(bus).ops() + #[trigger] ack_ops(
                    old(self).rx,
                    rptr,
                    magic,
                    size,
                ),
    {
        acknowledge(bus, &self.rx);
    }

    /// Shutdown the AFK endpoint.
    pub fn shutdown<M: Mmio>(&mut self, bus: &mut Bus<M>) -> (r: Result<(), AfkError>)
        requires
            old(self).wf(),
        ensures
            final(self).wf(),
            final(self).ep == old(self).ep,
            !old(self).started ==> r is Ok && *final(self) == *old(self) && final(bus).ops() == old(
                bus,
            ).ops(),
            final(self).rings() == old(self).rings(),
            final(self).started == (old(self).started && r is Err),
            old(self).started ==> exists|posted: LinkShot, heard: Result<u64, AfkError>| #[trigger]
                shut_down(
                    old(self).link(old(bus).ops()),
                    final(self).link(final(bus).ops()),
                    old(self).ep,
                    old(self).rtkit.asc.at(),
                    r,
                    posted,
                    heard,
                ),
    {
        let ghost a = self.link(bus.ops());
        let ghost at = self.rtkit.asc.at();
        if !self.started {
            return Ok(());
        }
        let asked = self.send_rbep(bus, RBEP_SHUTDOWN, 0);
        let ghost posted = self.link(bus.ops());
        match asked {
            Ok(()) => {},
            Err(error) => {
                assert(shut_down(a, posted, self.ep, at, Err(error), posted, Ok(0)));
                return Err(error);
            },
        }
        let heard = self.wait_rbep_type(bus, RBEP_SHUTDOWN_ACK);
        self.started = false;
        assert(shut_down(a, self.link(bus.ops()), self.ep, at, Ok(()), posted, heard));
        Ok(())
    }
}

impl AfkEndpoint {
    /// Give the shared buffer back, as its physical address and its pages.
    pub fn release(self) -> (r: Option<(u64, usize)>)
        requires
            self.wf(),
        ensures
            match self.shared {
                Some(shared) => r is Some && (r->0).0 == shared.paddr && (r->0).1 == (shared.size
                    + 4095) / 4096,
                None => r is None,
            },
    {
        match self.shared {
            Some(shared) => Some((shared.paddr, (shared.size + 4095) / 4096)),
            None => None,
        }
    }
}

/// A shutdown was sent, and its answer awaited whether it comes or not.
pub open spec fn shut_down(
    a: LinkShot,
    b: LinkShot,
    ep: u8,
    at: usize,
    r: Result<(), AfkError>,
    posted: LinkShot,
    heard: Result<u64, AfkError>,
) -> bool {
    let mail = rbep_mail(ep, RBEP_SHUTDOWN, 0);
    &&& send_done(a.ops, posted.ops, at, mail, r is Ok)
    &&& match r {
        Ok(_) => {
            &&& posted.traffic == a.traffic.push(Traffic::Sent(mail))
            &&& waited(posted, b, ep, at, RBEP_SHUTDOWN_ACK, heard)
        },
        Err(e) => {
            &&& e == AfkError::Transport(RtkitError::Mailbox(AscError::SendTimeout))
            &&& posted.traffic == a.traffic
            &&& b == posted
        },
    }
}

/// Everything that an endpoint's handshake changes.
pub struct AfkShot {
    pub traffic: Seq<Traffic>,
    pub ops: Seq<Op>,
    /// The requests for pages.
    pub asked: Seq<PageRequest>,
    pub rings: Rings,
}

impl AfkShot {
    /// The record of operations together with the traffic.
    pub open spec fn link(self) -> LinkShot {
        LinkShot { ops: self.ops, traffic: self.traffic }
    }
}

/// The message that the registers held was taken out and dealt with by the
/// transport, or is for one of its users.
pub open spec fn fetched(
    a: LinkShot,
    b: LinkShot,
    at: usize,
    got: Option<RtkitMessage>,
    f: Fetch,
    ok: bool,
) -> bool {
    let mail = AscMessage { msg0: f.msg0, msg1: f.msg1 as u32 };
    let msg = RtkitMessage { ep: endpoint_of(mail.msg1), msg: mail.msg0 };
    let received = a.traffic.push(Traffic::Received(mail));
    &&& took_message_via(msg, a.ops, b.ops, at, ok, f)
    &&& !ok ==> asks_buffer(msg)
    &&& b.traffic == (if ok && asks_buffer(msg) {
        received.push(
            Traffic::Sent(AscMessage { msg0: MSG_BUFFER_REQUEST, msg1: msg.ep as u32 }),
        )
    } else {
        received
    })
    &&& got == (if msg.ep == RTKIT_EP_MGMT || asks_buffer(msg) {
        None
    } else {
        Some(msg)
    })
}

/// The mailbox was looked into, and what was found in it is `got`, if it is
/// for a user of the transport.
pub open spec fn looked(a: LinkShot, b: LinkShot, at: usize, got: Option<RtkitMessage>) -> bool {
    ||| {
        &&& got is None
        &&& b.traffic == a.traffic
        &&& found_nothing(a.ops, b.ops, at) || lost_message(a.ops, b.ops, at)
    }
    ||| exists|f: Fetch, ok: bool| #[trigger] fetched(a, b, at, got, f, ok)
}

/// A pause between two looks.
pub open spec fn paused(a: LinkShot) -> LinkShot {
    LinkShot { ops: a.ops.push(Op::Delay { us: AFK_POLL_DELAY_US }), ..a }
}

/// One look into the mailbox while waiting.
pub struct Look {
    /// The clock before it.
    pub now: u64,
    /// The state behind it.
    pub seen: LinkShot,
    /// What it brought.
    pub got: Option<RtkitMessage>,
    /// The state behind the pause that follows where it brought nothing.
    pub shot: LinkShot,
}

/// The state before a look.
pub open spec fn before_look(first: LinkShot, looks: Seq<Look>, i: int) -> LinkShot {
    if i <= 0 {
        first
    } else {
        looks[i - 1].shot
    }
}

/// There was time for a look, and it was taken.
pub open spec fn look_ok(
    first: LinkShot,
    looks: Seq<Look>,
    i: int,
    at: usize,
    start: u64,
) -> bool {
    let k = looks[i];
    &&& elapsed_since(start, k.now) < AFK_TIMEOUT_US
    &&& looked(clocked(before_look(first, looks, i), k.now), k.seen, at, k.got)
    &&& k.shot == (if k.got is None {
        paused(k.seen)
    } else {
        k.seen
    })
}

/// Looks were taken one after the other, as long as there was time.
pub open spec fn looks_ok(first: LinkShot, looks: Seq<Look>, at: usize, start: u64) -> bool {
    forall|i: int| 0 <= i < looks.len() ==> #[trigger] look_ok(first, looks, i, at, start)
}

proof fn looks_push(first: LinkShot, looks: Seq<Look>, at: usize, start: u64, k: Look)
    requires
        looks_ok(first, looks, at, start),
        look_ok(first, looks.push(k), looks.len() as int, at, start),
    ensures
        looks_ok(first, looks.push(k), at, start),
{
    let more = looks.push(k);
    assert forall|i: int| 0 <= i < more.len() implies #[trigger] look_ok(
        first,
        more,
        i,
        at,
        start,
    ) by {
        if i < looks.len() {
            assert(look_ok(first, looks, i, at, start));
        }
    }
}

/// A look brought a message of the endpoint.
pub open spec fn from_endpoint(got: Option<RtkitMessage>, ep: u8) -> bool {
    got is Some && (got->0).ep == ep
}

/// A look brought a message of a type from the endpoint.
pub open spec fn brings(got: Option<RtkitMessage>, ep: u8, kind: u64) -> bool {
    from_endpoint(got, ep) && rbep_kind((got->0).msg) == kind
}

/// Traffic that is a message from the endpoint.
pub open spec fn mail_from(t: Traffic, ep: u8) -> bool {
    t is Received && endpoint_of(t->Received_0.msg1) == ep
}

/// Whatever comes in from an endpoint that is not the transport's own is
/// brought by the look that takes it out, and nothing else is.
pub proof fn looks_bring_the_endpoints_mail(
    a: LinkShot,
    b: LinkShot,
    at: usize,
    got: Option<RtkitMessage>,
    ep: u8,
)
    requires
        looked(a, b, at, got),
        application_endpoint(ep),
    ensures
        a.traffic.len() <= b.traffic.len(),
        b.traffic.take(a.traffic.len() as int) == a.traffic,
        from_endpoint(got, ep) ==> exists|i: int|
            a.traffic.len() <= i < b.traffic.len() && mail_from(#[trigger] b.traffic[i], ep),
        forall|i: int|
            a.traffic.len() <= i < b.traffic.len() && mail_from(#[trigger] b.traffic[i], ep)
                ==> got == Some(RtkitMessage { ep, msg: b.traffic[i]->Received_0.msg0 }),
{
    let n = a.traffic.len() as int;
    if exists|f: Fetch, ok: bool| #[trigger] fetched(a, b, at, got, f, ok) {
        assert(b.traffic.take(n) =~= a.traffic);
        assert(b.traffic[n] is Received);
    } else {
        assert(b.traffic.take(n) =~= a.traffic);
    }
}

/// A message of a type came from the endpoint between two points.
pub open spec fn came(a: LinkShot, b: LinkShot, ep: u8, kind: u64) -> bool {
    exists|i: int|
        {
            &&& a.traffic.len() <= i < b.traffic.len()
            &&& mail_from(#[trigger] b.traffic[i], ep)
            &&& rbep_kind(b.traffic[i]->Received_0.msg0) == kind
        }
}

/// The traffic of one point is the beginning of that of a later one.
pub open spec fn leads_to(a: LinkShot, b: LinkShot) -> bool {
    a.traffic.len() <= b.traffic.len() && b.traffic.take(a.traffic.len() as int) == a.traffic
}

proof fn leads_further(a: LinkShot, b: LinkShot, c: LinkShot, ep: u8, kind: u64)
    requires
        leads_to(a, b),
        leads_to(b, c),
    ensures
        leads_to(a, c),
        came(a, c, ep, kind) <==> came(a, b, ep, kind) || came(b, c, ep, kind),
{
    assert(c.traffic.take(a.traffic.len() as int) =~= b.traffic.take(a.traffic.len() as int));
    assert forall|i: int| 0 <= i < b.traffic.len() implies #[trigger] c.traffic[i]
        == b.traffic[i] by {
        assert(c.traffic.take(b.traffic.len() as int)[i] == c.traffic[i]);
    }
    if came(a, b, ep, kind) {
        let i = choose|i: int|
            {
                &&& a.traffic.len() <= i < b.traffic.len()
                &&& mail_from(#[trigger] b.traffic[i], ep)
                &&& rbep_kind(b.traffic[i]->Received_0.msg0) == kind
            };
        assert(mail_from(c.traffic[i], ep));
    }
    if came(a, c, ep, kind) {
        let i = choose|i: int|
            {
                &&& a.traffic.len() <= i < c.traffic.len()
                &&& mail_from(#[trigger] c.traffic[i], ep)
                &&& rbep_kind(c.traffic[i]->Received_0.msg0) == kind
            };
        if i < b.traffic.len() {
            assert(mail_from(b.traffic[i], ep));
        }
    }
}

/// A message of a type came exactly where one of the looks brought it.
proof fn looks_account(
    first: LinkShot,
    looks: Seq<Look>,
    n: int,
    at: usize,
    start: u64,
    ep: u8,
    kind: u64,
)
    requires
        looks_ok(first, looks, at, start),
        0 <= n <= looks.len(),
        application_endpoint(ep),
    ensures
        leads_to(first, before_look(first, looks, n)),
        came(first, before_look(first, looks, n), ep, kind) <==> exists|k: int|
            0 <= k < n && brings((#[trigger] looks[k]).got, ep, kind),
    decreases n,
{
    let last = before_look(first, looks, n);
    if n == 0 {
        assert(first.traffic.take(first.traffic.len() as int) =~= first.traffic);
    } else {
        looks_account(first, looks, n - 1, at, start, ep, kind);
        assert(look_ok(first, looks, n - 1, at, start));
        let k = looks[n - 1];
        let before = before_look(first, looks, n - 1);
        looks_bring_the_endpoints_mail(clocked(before, k.now), k.seen, at, k.got, ep);
        leads_further(first, before, last, ep, kind);
        assert(came(before, last, ep, kind) <==> brings(k.got, ep, kind));
    }
}

/// A wait succeeds exactly where a message of the awaited type came from the
/// endpoint while it lasted.
pub proof fn what_comes_is_found(
    a: LinkShot,
    b: LinkShot,
    ep: u8,
    at: usize,
    kind: u64,
    r: Result<u64, AfkError>,
)
    requires
        waited(a, b, ep, at, kind, r),
        application_endpoint(ep),
    ensures
        r is Ok <==> came(a, b, ep, kind),
{
    let (start, now, looks) = choose|start: u64, now: u64, looks: Seq<Look>| #[trigger]
        waited_with(a, b, ep, at, kind, r, start, now, looks);
    let first = clocked(a, start);
    let n = looks.len() as int;
    looks_account(first, looks, n, at, start, ep, kind);
    assert(came(a, b, ep, kind) <==> came(first, before_look(first, looks, n), ep, kind));
    if r is Ok {
        assert(brings(looks[n - 1].got, ep, kind));
    }
}

/// A wait for a message of a type: look after look, until one brings it or the
/// clock finds the time up.
pub open spec fn waited_with(
    a: LinkShot,
    b: LinkShot,
    ep: u8,
    at: usize,
    kind: u64,
    r: Result<u64, AfkError>,
    start: u64,
    now: u64,
    looks: Seq<Look>,
) -> bool {
    let first = clocked(a, start);
    let n = looks.len() as int;
    let last = before_look(first, looks, n);
    &&& looks_ok(first, looks, at, start)
    &&& forall|i: int| 0 <= i < n - 1 ==> !brings((#[trigger] looks[i]).got, ep, kind)
    &&& match r {
        Ok(msg) => {
            &&& n > 0
            &&& brings(looks[n - 1].got, ep, kind)
            &&& (looks[n - 1].got->0).msg == msg
            &&& b == last
        },
        Err(e) => {
            &&& e == AfkError::Timeout
            &&& n > 0 ==> !brings(looks[n - 1].got, ep, kind)
            &&& {
                ||| elapsed_since(start, now) >= AFK_TIMEOUT_US && b == clocked(last, now)
                ||| n == u64::MAX && b == last
            }
        },
    }
}

/// An awaited message came, or it did not come in time.
pub open spec fn waited(
    a: LinkShot,
    b: LinkShot,
    ep: u8,
    at: usize,
    kind: u64,
    r: Result<u64, AfkError>,
) -> bool {
    exists|start: u64, now: u64, looks: Seq<Look>| #[trigger]
        waited_with(a, b, ep, at, kind, r, start, now, looks)
}

/// A message of the endpoint was sent, or the mailbox stayed full.
pub open spec fn mailed(
    a: AfkShot,
    b: AfkShot,
    at: usize,
    mail: AscMessage,
    r: Result<u64, AfkError>,
) -> bool {
    &&& send_done(a.ops, b.ops, at, mail, r is Ok)
    &&& r is Err ==> r->Err_0 == AfkError::Transport(RtkitError::Mailbox(AscError::SendTimeout))
    &&& b.traffic == (if r is Ok {
        a.traffic.push(Traffic::Sent(mail))
    } else {
        a.traffic
    })
    &&& b.asked == a.asked
    &&& b.rings == a.rings
}

/// A message of a type was awaited.
pub open spec fn listened(
    a: AfkShot,
    b: AfkShot,
    ep: u8,
    at: usize,
    kind: u64,
    r: Result<u64, AfkError>,
) -> bool {
    &&& waited(a.link(), b.link(), ep, at, kind, r)
    &&& b.asked == a.asked
    &&& b.rings == a.rings
}

/// The size that a message asks for.
pub open spec fn buffer_size(msg: u64) -> int {
    ((msg & 0xffff_0000) >> 16) * 64
}

/// A request for a buffer came, pages were allocated for it and cleared, and
/// their address was sent back, up to the first step that failed.
pub open spec fn buffer_handed_via(
    a: AfkShot,
    b: AfkShot,
    ep: u8,
    at: usize,
    r: Result<u64, AfkError>,
    s: AfkShot,
    request: Result<u64, AfkError>,
    answer: Option<(u64, usize)>,
) -> bool {
    &&& listened(a, s, ep, at, RBEP_GETBUF, request)
    &&& match request {
        Err(e) => r == Err::<u64, AfkError>(e) && b == s,
        Ok(msg) => {
            let size = buffer_size(msg);
            let pages = ((size + 4095) / 4096) as nat;
            let asked = AfkShot { asked: s.asked.push(PageRequest { pages, answer }), ..s };
            match answer {
                None => r == Err::<u64, AfkError>(AfkError::AllocFailed) && b == asked,
                Some((paddr, virt)) => if virt + size > usize::MAX {
                    r == Err::<u64, AfkError>(AfkError::AllocFailed) && b == asked
                } else {
                    let ready = AfkShot {
                        ops: s.ops.push(
                            Op::WriteBytes { addr: virt, bytes: Seq::new(size as nat, |i: int| 0u8) },
                        ),
                        rings: Rings {
                            shared: Some(
                                AfkSharedBuffer {
                                    virt,
                                    paddr,
                                    size: size as usize,
                                    tag: (msg & 0xffff) as u32,
                                },
                            ),
                            ..asked.rings
                        },
                        ..asked
                    };
                    mailed(
                        ready,
                        b,
                        at,
                        rbep_mail(ep, RBEP_GETBUF_ACK, paddr & 0x0000_ffff_ffff_ffff),
                        r,
                    )
                },
            }
        },
    }
}

/// A buffer was asked for and handed out, or that failed.
pub open spec fn buffer_handed(
    a: AfkShot,
    b: AfkShot,
    ep: u8,
    at: usize,
    r: Result<u64, AfkError>,
) -> bool {
    exists|s: AfkShot, request: Result<u64, AfkError>, answer: Option<(u64, usize)>| #[trigger]
        buffer_handed_via(a, b, ep, at, r, s, request, answer)
}

/// The buffer and the rings in it.
pub struct Rings {
    pub shared: Option<AfkSharedBuffer>,
    pub tx: AfkRingBuffer,
    pub rx: AfkRingBuffer,
}

/// Both rings were set up by the given messages.
pub open spec fn rings_from(s: Rings, tx_msg: u64, rx_msg: u64) -> bool {
    &&& s.shared is Some
    &&& s.tx.ready
    &&& ring_from(s.tx, s.shared->0, tx_msg)
    &&& rbep_kind(tx_msg) == RBEP_INIT_TX
    &&& s.rx.ready
    &&& ring_from(s.rx, s.shared->0, rx_msg)
    &&& rbep_kind(rx_msg) == RBEP_INIT_RX
}

/// Both rings were set up by messages of their kind.
pub open spec fn rings_set_up(s: Rings) -> bool {
    exists|tx_msg: u64, rx_msg: u64| #[trigger] rings_from(s, tx_msg, rx_msg)
}

/// A ring in use was set up by a message of its kind.
pub open spec fn set_up_by(
    rb: AfkRingBuffer,
    shared: Option<AfkSharedBuffer>,
    kind: u64,
    msg: u64,
) -> bool {
    &&& shared is Some
    &&& rb.ready
    &&& ring_from(rb, shared->0, msg)
    &&& rbep_kind(msg) == kind
}

/// The wait for one message of the endpoint, and what was done with it.
pub struct SetupRound {
    /// The clock when the wait began.
    pub start: u64,
    /// The clock that found the time up, where it did.
    pub now: u64,
    pub looks: Seq<Look>,
    /// The message.
    pub msg: u64,
    /// The size that was found in the ring that it sets up.
    pub found: u32,
    /// The state behind the round.
    pub shot: LinkShot,
}

impl SetupRound {
    /// The state once no more looks were taken.
    pub open spec fn end(self, before: LinkShot) -> LinkShot {
        before_look(clocked(before, self.start), self.looks, self.looks.len() as int)
    }

    /// The message sets up a ring.
    pub open spec fn sets_up(self) -> bool {
        rbep_kind(self.msg) == RBEP_INIT_TX || rbep_kind(self.msg) == RBEP_INIT_RX
    }
}

/// The first message of the endpoint came, in time.
pub open spec fn message_came(before: LinkShot, w: SetupRound, ep: u8, at: usize) -> bool {
    let n = w.looks.len() as int;
    &&& looks_ok(clocked(before, w.start), w.looks, at, w.start)
    &&& n > 0
    &&& w.looks[n - 1].got == Some(RtkitMessage { ep, msg: w.msg })
    &&& forall|i: int| 0 <= i < n - 1 ==> !from_endpoint((#[trigger] w.looks[i]).got, ep)
}

/// No message of the endpoint came in time.
pub open spec fn silence(
    before: LinkShot,
    after: LinkShot,
    w: SetupRound,
    ep: u8,
    at: usize,
) -> bool {
    let n = w.looks.len() as int;
    &&& looks_ok(clocked(before, w.start), w.looks, at, w.start)
    &&& forall|i: int| 0 <= i < n ==> !from_endpoint((#[trigger] w.looks[i]).got, ep)
    &&& {
        ||| elapsed_since(w.start, w.now) >= AFK_TIMEOUT_US && after == clocked(
            w.end(before),
            w.now,
        )
        ||| n == u64::MAX && after == w.end(before)
    }
}

/// The reads that a setup message leads to.
pub open spec fn ring_read(a: LinkShot, shared: AfkSharedBuffer, msg: u64, found: u32) -> LinkShot {
    LinkShot { ops: a.ops + setup_reads(shared, msg, found), ..a }
}

/// The state before a round.
pub open spec fn before_setup(a: LinkShot, rounds: Seq<SetupRound>, i: int) -> LinkShot {
    if i <= 0 {
        a
    } else {
        rounds[i - 1].shot
    }
}

/// A message of the endpoint came; if it sets up a ring, the ring was set up.
pub open spec fn setup_ok(
    a: LinkShot,
    rounds: Seq<SetupRound>,
    i: int,
    ep: u8,
    at: usize,
    shared: Option<AfkSharedBuffer>,
) -> bool {
    let w = rounds[i];
    let before = before_setup(a, rounds, i);
    &&& message_came(before, w, ep, at)
    &&& if w.sets_up() {
        &&& shared is Some
        &&& ring_setup(shared->0, w.msg, w.found) is Ok
        &&& w.shot == ring_read(w.end(before), shared->0, w.msg, w.found)
    } else {
        w.shot == w.end(before)
    }
}

/// The rounds followed one another.
pub open spec fn setups_ok(
    a: LinkShot,
    rounds: Seq<SetupRound>,
    ep: u8,
    at: usize,
    shared: Option<AfkSharedBuffer>,
) -> bool {
    forall|i: int| 0 <= i < rounds.len() ==> #[trigger] setup_ok(a, rounds, i, ep, at, shared)
}

/// A message of a type came in one of the rounds.
pub open spec fn told(rounds: Seq<SetupRound>, kind: u64) -> bool
    decreases rounds.len(),
{
    rounds.len() > 0 && (rbep_kind(rounds.last().msg) == kind || told(rounds.drop_last(), kind))
}

/// A setup message came for each direction.
pub open spec fn told_both(rounds: Seq<SetupRound>) -> bool {
    told(rounds, RBEP_INIT_TX) && told(rounds, RBEP_INIT_RX)
}

/// A ring as the last message of its type set it up.
pub open spec fn ring_after(
    first: AfkRingBuffer,
    rounds: Seq<SetupRound>,
    shared: Option<AfkSharedBuffer>,
    kind: u64,
) -> AfkRingBuffer
    decreases rounds.len(),
{
    if rounds.len() == 0 {
        first
    } else if rbep_kind(rounds.last().msg) == kind {
        ring_setup(shared->0, rounds.last().msg, rounds.last().found)->Ok_0
    } else {
        ring_after(first, rounds.drop_last(), shared, kind)
    }
}

/// Why the setup of the rings failed: no message came in time, or the last one
/// does not fit the shared buffer.
pub open spec fn setup_failed(
    before: LinkShot,
    after: LinkShot,
    ep: u8,
    at: usize,
    shared: Option<AfkSharedBuffer>,
    error: AfkError,
    w: SetupRound,
) -> bool {
    ||| error == AfkError::InitTimeout && silence(before, after, w, ep, at)
    ||| {
        &&& message_came(before, w, ep, at)
        &&& w.sets_up()
        &&& match shared {
            None => error == AfkError::NoSharedBuffer && after == w.end(before),
            Some(shared) => {
                &&& ring_setup(shared, w.msg, w.found) == Err::<AfkRingBuffer, AfkError>(error)
                &&& after == ring_read(w.end(before), shared, w.msg, w.found)
            },
        }
    }
}

/// The rings were set up by the first messages that told both, or the setup
/// failed before they had come.
pub open spec fn rings_awaited_with(
    a: LinkShot,
    b: LinkShot,
    rings: (Rings, Rings),
    ep: u8,
    at: usize,
    r: Result<u64, AfkError>,
    rounds: Seq<SetupRound>,
    w: SetupRound,
) -> bool {
    let shared = rings.0.shared;
    let n = rounds.len() as int;
    let last = before_setup(a, rounds, n);
    &&& setups_ok(a, rounds, ep, at, shared)
    &&& n > 0 ==> !told_both(rounds.drop_last())
    &&& rings.1.shared == shared
    &&& rings.1.tx == ring_after(rings.0.tx, rounds, shared, RBEP_INIT_TX)
    &&& rings.1.rx == ring_after(rings.0.rx, rounds, shared, RBEP_INIT_RX)
    &&& match r {
        Ok(_) => told_both(rounds) && b == last,
        Err(error) => {
            &&& !told_both(rounds)
            &&& {
                ||| setup_failed(last, b, ep, at, shared, error, w)
                ||| error == AfkError::NotInitialized && n == u64::MAX && b == last
            }
        },
    }
}

/// The setup messages came, or the setup failed.
pub open spec fn rings_awaited(
    a: LinkShot,
    b: LinkShot,
    rings: (Rings, Rings),
    ep: u8,
    at: usize,
    r: Result<u64, AfkError>,
) -> bool {
    exists|rounds: Seq<SetupRound>, w: SetupRound| #[trigger]
        rings_awaited_with(a, b, rings, ep, at, r, rounds, w)
}

/// Once a setup message that fits has come for each direction, the setup
/// succeeds; until then it does not.
pub proof fn both_setup_messages_finish_the_setup(
    a: LinkShot,
    b: LinkShot,
    rings: (Rings, Rings),
    ep: u8,
    at: usize,
    r: Result<u64, AfkError>,
    rounds: Seq<SetupRound>,
    w: SetupRound,
)
    requires
        rings_awaited_with(a, b, rings, ep, at, r, rounds, w),
    ensures
        r is Ok <==> told_both(rounds),
{
}

/// A message of a type came in the rounds exactly where one of them was told
/// so.
proof fn rounds_account(
    a: LinkShot,
    rounds: Seq<SetupRound>,
    ep: u8,
    at: usize,
    shared: Option<AfkSharedBuffer>,
    kind: u64,
)
    requires
        setups_ok(a, rounds, ep, at, shared),
        application_endpoint(ep),
    ensures
        leads_to(a, before_setup(a, rounds, rounds.len() as int)),
        came(a, before_setup(a, rounds, rounds.len() as int), ep, kind) <==> told(rounds, kind),
    decreases rounds.len(),
{
    if rounds.len() == 0 {
        assert(a.traffic.take(a.traffic.len() as int) =~= a.traffic);
    } else {
        let less = rounds.drop_last();
        let last = rounds.len() - 1;
        assert forall|i: int| 0 <= i < less.len() implies #[trigger] setup_ok(
            a,
            less,
            i,
            ep,
            at,
            shared,
        ) by {
            assert(setup_ok(a, rounds, i, ep, at, shared));
        }
        rounds_account(a, less, ep, at, shared, kind);
        assert(setup_ok(a, rounds, last, ep, at, shared));
        let w = rounds[last];
        let before = before_setup(a, rounds, last);
        assert(before == before_setup(a, less, last));
        let n = w.looks.len() as int;
        looks_account(clocked(before, w.start), w.looks, n, at, w.start, ep, kind);
        assert(from_endpoint(w.looks[n - 1].got, ep));
        assert(w.shot.traffic == w.end(before).traffic);
        leads_further(a, before, w.shot, ep, kind);
        assert(came(before, w.shot, ep, kind) <==> rbep_kind(w.msg) == kind);
    }
}

/// A setup that succeeds has seen a setup message for each direction, and one
/// that times out has not.
pub proof fn a_setup_times_out_only_for_want_of_messages(
    a: LinkShot,
    b: LinkShot,
    rings: (Rings, Rings),
    ep: u8,
    at: usize,
    r: Result<u64, AfkError>,
)
    requires
        rings_awaited(a, b, rings, ep, at, r),
        application_endpoint(ep),
    ensures
        r is Ok ==> came(a, b, ep, RBEP_INIT_TX) && came(a, b, ep, RBEP_INIT_RX),
        r == Err::<u64, AfkError>(AfkError::InitTimeout) ==> !(came(a, b, ep, RBEP_INIT_TX)
            && came(a, b, ep, RBEP_INIT_RX)),
{
    let (rounds, w) = choose|rounds: Seq<SetupRound>, w: SetupRound| #[trigger]
        rings_awaited_with(a, b, rings, ep, at, r, rounds, w);
    let last = before_setup(a, rounds, rounds.len() as int);
    let shared = rings.0.shared;
    rounds_account(a, rounds, ep, at, shared, RBEP_INIT_TX);
    rounds_account(a, rounds, ep, at, shared, RBEP_INIT_RX);
    if r == Err::<u64, AfkError>(AfkError::InitTimeout) {
        assert(silence(last, b, w, ep, at));
        let n = w.looks.len() as int;
        looks_account(clocked(last, w.start), w.looks, n, at, w.start, ep, RBEP_INIT_TX);
        looks_account(clocked(last, w.start), w.looks, n, at, w.start, ep, RBEP_INIT_RX);
        leads_further(a, last, b, ep, RBEP_INIT_TX);
        leads_further(a, last, b, ep, RBEP_INIT_RX);
        assert(!came(last, b, ep, RBEP_INIT_TX) && !came(last, b, ep, RBEP_INIT_RX));
    }
}

/// The outcome of a step that returns nothing.
pub open spec fn plain(r: Result<(), AfkError>) -> Result<u64, AfkError> {
    match r {
        Ok(_) => Ok(0),
        Err(e) => Err(e),
    }
}

/// The outcome of a step of the transport.
pub open spec fn transport_result(r: Result<(), RtkitError>) -> Result<u64, AfkError> {
    match r {
        Ok(_) => Ok(0),
        Err(e) => Err(AfkError::Transport(e)),
    }
}

/// The steps of a handshake that were taken.
pub struct Handshake {
    pub steps: int,
    /// The state before the first step and after each.
    pub shots: Seq<AfkShot>,
    /// The outcome of each step.
    pub results: Seq<Result<u64, AfkError>>,
}

impl Handshake {
    /// One more step.
    pub open spec fn step(self, shot: AfkShot, r: Result<u64, AfkError>) -> Handshake {
        Handshake {
            steps: self.steps + 1,
            shots: self.shots.push(shot),
            results: self.results.push(r),
        }
    }
}

/// The steps of a handshake in order: the request to start the endpoint, INIT
/// and its answer, the shared buffer, both rings, START and its answer.
pub open spec fn step_taken(h: Handshake, i: int, ep: u8, at: usize) -> bool {
    let a = h.shots[i];
    let b = h.shots[i + 1];
    let r = h.results[i];
    if i == 0 {
        mailed(a, b, at, start_mail(ep), r)
    } else if i == 1 {
        mailed(a, b, at, rbep_mail(ep, RBEP_INIT, 0), r)
    } else if i == 2 {
        listened(a, b, ep, at, RBEP_INIT_ACK, r)
    } else if i == 3 {
        buffer_handed(a, b, ep, at, r)
    } else if i == 4 {
        b.asked == a.asked && rings_awaited(
            a.link(),
            b.link(),
            (a.rings, b.rings),
            ep,
            at,
            r,
        )
    } else if i == 5 {
        mailed(a, b, at, rbep_mail(ep, RBEP_START, 0), r)
    } else {
        listened(a, b, ep, at, RBEP_START_ACK, r)
    }
}

/// Steps were taken one after the other, all of them successful.
pub open spec fn on_the_way(a: AfkShot, ep: u8, at: usize, h: Handshake) -> bool {
    &&& h.steps >= 0
    &&& h.shots.len() == h.steps + 1
    &&& h.results.len() == h.steps
    &&& h.shots[0] == a
    &&& forall|i: int|
        0 <= i < h.steps ==> #[trigger] step_taken(h, i, ep, at) && h.results[i] is Ok
}

/// A handshake took its steps up to the first that failed.
pub open spec fn shook_hands_via(
    a: AfkShot,
    b: AfkShot,
    ep: u8,
    at: usize,
    r: Result<(), AfkError>,
    h: Handshake,
    last: AfkShot,
    outcome: Result<u64, AfkError>,
) -> bool {
    let all = h.step(last, outcome);
    &&& on_the_way(a, ep, at, h)
    &&& h.steps < 7
    &&& step_taken(all, h.steps, ep, at)
    &&& b == last
    &&& match outcome {
        Ok(_) => r is Ok && h.steps == 6,
        Err(e) => r == Err::<(), AfkError>(e),
    }
}

/// A handshake, complete or up to the first step that failed.
pub open spec fn shook_hands(
    a: AfkShot,
    b: AfkShot,
    ep: u8,
    at: usize,
    r: Result<(), AfkError>,
) -> bool {
    exists|h: Handshake, last: AfkShot, outcome: Result<u64, AfkError>| #[trigger]
        shook_hands_via(a, b, ep, at, r, h, last, outcome)
}

/// A step that succeeded leads on.
proof fn step_leads_on(
    a: AfkShot,
    ep: u8,
    at: usize,
    h: Handshake,
    last: AfkShot,
    outcome: Result<u64, AfkError>,
)
    requires
        on_the_way(a, ep, at, h),
        step_taken(h.step(last, outcome), h.steps, ep, at),
        outcome is Ok,
    ensures
        on_the_way(a, ep, at, h.step(last, outcome)),
{
    let next = h.step(last, outcome);
    assert forall|i: int| 0 <= i < next.steps implies #[trigger] step_taken(next, i, ep, at)
        && next.results[i] is Ok by {
        if i < h.steps {
            assert(step_taken(h, i, ep, at));
            assert(next.shots[i] == h.shots[i]);
            assert(next.shots[i + 1] == h.shots[i + 1]);
            assert(next.results[i] == h.results[i]);
        }
    }
}

/// A message was enqueued with the given pointers found in the ring, and the
/// coprocessor notified; or it was refused.
pub open spec fn sent_entry_with(
    me: &AfkEndpoint,
    then: &AfkEndpoint,
    before: Seq<Op>,
    after: Seq<Op>,
    channel: u32,
    msg_type: u32,
    data: Seq<u8>,
    r: Result<(), AfkError>,
    rptr: u32,
    wptr: u32,
) -> bool {
    let rb = me.tx;
    let looked = before + pointer_ops(rb, rptr, wptr);
    let len = data.len() as int;
    let entry = AfkQueueEntry { magic: QE_MAGIC, size: len as u32, channel, msg_type };
    let next = next_pointer(entry_start(wptr as int, len, rb.bufsz as int), len, rb.bufsz as int);
    match enqueue_result(rb, rptr, wptr, len) {
        Err(error) => r == Err::<(), _>(error) && after == looked && then.traffic()
            == me.traffic(),
        Ok(()) => {
            &&& send_done(
                looked + enqueue_ops(rb, wptr, entry, data),
                after,
                me.rtkit.asc.at(),
                rbep_mail(me.ep, RBEP_SEND, next as u64),
                r is Ok,
            )
            &&& r is Ok ==> then.traffic() == me.traffic().push(
                Traffic::Sent(rbep_mail(me.ep, RBEP_SEND, next as u64)),
            )
            &&& r is Err ==> then.traffic() == me.traffic() && r->Err_0 == AfkError::Transport(
                RtkitError::Mailbox(AscError::SendTimeout),
            )
        },
    }
}

/// A message was enqueued and the coprocessor notified, or it was refused.
pub open spec fn sent_entry(
    me: &AfkEndpoint,
    then: &AfkEndpoint,
    before: Seq<Op>,
    after: Seq<Op>,
    channel: u32,
    msg_type: u32,
    data: Seq<u8>,
    r: Result<(), AfkError>,
) -> bool {
    exists|rptr: u32, wptr: u32| #[trigger]
        sent_entry_with(me, then, before, after, channel, msg_type, data, r, rptr, wptr)
}

/// A message was handed to the ring and the coprocessor notified, or it was
/// refused; a ring that is not in use takes none.
pub open spec fn delivered(
    me: &AfkEndpoint,
    then: &AfkEndpoint,
    ops: (Seq<Op>, Seq<Op>),
    channel: u32,
    msg_type: u32,
    data: Seq<u8>,
    r: Result<(), AfkError>,
) -> bool {
    &&& then.same_rings(me)
    &&& then.rtkit.same_state(&me.rtkit)
    &&& if me.tx.ready {
        sent_entry(me, then, ops.0, ops.1, channel, msg_type, data, r)
    } else {
        &&& r == Err::<(), AfkError>(AfkError::TxNotReady)
        &&& ops.1 == ops.0
        &&& then.traffic() == me.traffic()
    }
}

/// The header of an entry lies at an address.
pub open spec fn header_at(m: Memory, at: int, e: AfkQueueEntry) -> bool {
    &&& word_at(m, at) == e.magic
    &&& word_at(m, at + 4) == e.size
    &&& word_at(m, at + 8) == e.channel
    &&& word_at(m, at + 12) == e.msg_type
}

/// Writing a header puts it into memory and leaves all words outside alone.
proof fn header_written(m: Memory, at: usize, e: AfkQueueEntry)
    requires
        at + 16 <= usize::MAX,
    ensures
        header_at(memory_after(m, header_ops(at, e)), at as int, e),
        forall|b: int|
            b + 4 <= at || at + 16 <= b ==> #[trigger] word_at(
                memory_after(m, header_ops(at, e)),
                b,
            ) == word_at(m, b),
{
    let s0 = Seq::<Op>::empty();
    let s1 = s0.push(wr(at, 0, e.magic));
    let s2 = s1.push(wr(at, 4, e.size));
    let s3 = s2.push(wr(at, 8, e.channel));
    let s4 = s3.push(wr(at, 12, e.msg_type));
    assert(s4 =~= header_ops(at, e));
    memory_push(m, s0, wr(at, 0, e.magic));
    memory_push(m, s1, wr(at, 4, e.size));
    memory_push(m, s2, wr(at, 8, e.channel));
    memory_push(m, s3, wr(at, 12, e.msg_type));
    let m1 = memory_after(m, s1);
    let m2 = memory_after(m, s2);
    let m3 = memory_after(m, s3);
    assert forall|b: int|
        b + 4 <= at || at + 16 <= b || b == at || b == at + 4 || b == at + 8 || b == at
            + 12 implies #[trigger] word_at(memory_after(m, s4), b) == (if b == at {
        e.magic
    } else if b == at + 4 {
        e.size
    } else if b == at + 8 {
        e.channel
    } else if b == at + 12 {
        e.msg_type
    } else {
        word_at(m, b)
    }) by {
        word_stored(m, at as int, e.magic, b);
        word_stored(m1, at + 4, e.size, b);
        word_stored(m2, at + 8, e.channel, b);
        word_stored(m3, at + 12, e.msg_type, b);
    }
    assert(header_at(memory_after(m, s4), at as int, e));
}

/// What lies in a ring once a message was enqueued: its header at the write
/// pointer and where the entry starts, its payload behind the latter, and the
/// published write pointer.
pub open spec fn message_in_ring(
    m: Memory,
    rb: AfkRingBuffer,
    w: u32,
    e: AfkQueueEntry,
    data: Seq<u8>,
) -> bool {
    let start = entry_start(w as int, data.len() as int, rb.bufsz as int);
    &&& word_at(m, rb.data() + w) == e.magic
    &&& word_at(m, rb.data() + w + 4) == e.size
    &&& header_at(m, rb.data() + start, e)
    &&& bytes_at(m, rb.data() + start + 16, data.len()) == data
}

/// Enqueuing a message at a block boundary puts it into the ring and
/// publishes the pointer behind it.
pub proof fn enqueuing_stores_the_message(
    m: Memory,
    rb: AfkRingBuffer,
    r: u32,
    w: u32,
    e: AfkQueueEntry,
    data: Seq<u8>,
)
    requires
        rb.ready,
        rb.wf(),
        w % 64 == 0,
        r <= rb.bufsz,
        enqueue_result(rb, r, w, data.len() as int) is Ok,
    ensures
        message_in_ring(memory_after(m, enqueue_ops(rb, w, e, data)), rb, w, e, data),
        word_at(memory_after(m, enqueue_ops(rb, w, e, data)), rb.hdr + 0x80) == next_pointer(
            entry_start(w as int, data.len() as int, rb.bufsz as int),
            data.len() as int,
            rb.bufsz as int,
        ),
{
    let len = data.len() as int;
    let bufsz = rb.bufsz as int;
    let start = entry_start(w as int, len, bufsz);
    let base = rb.data() as int;
    aligned_up_is_least_multiple(16 + len, 64);
    enqueued_entry_fits(w as int, r as int, len, bufsz);
    let first = header_ops(reg(rb.data(), w as int), e);
    let again = if crosses(w as int, len, bufsz) {
        header_ops(rb.data(), e)
    } else {
        Seq::empty()
    };
    let next = next_pointer(start, len, bufsz) as u32;
    let body = Op::WriteBytes { addr: reg(rb.data(), start + 16), bytes: data };
    let publish = wr(rb.hdr, 0x80, next);
    let heads = first + again;
    let m1 = memory_after(m, first);
    let m2 = memory_after(m, heads);
    memory_append(m, first, again);
    header_written(m, reg(rb.data(), w as int), e);
    if crosses(w as int, len, bufsz) {
        header_written(m1, rb.data(), e);
    }
    assert(header_at(m2, base + start, e));
    assert(word_at(m2, base + w) == e.magic);
    assert(word_at(m2, base + w + 4) == e.size);
    let s1 = heads.push(body);
    let s2 = s1.push(Op::Fence);
    let s3 = s2.push(publish);
    assert(s3 =~= enqueue_ops(rb, w, e, data));
    memory_push(m, heads, body);
    memory_push(m, s1, Op::Fence);
    memory_push(m, s2, publish);
    let m3 = memory_after(m, s1);
    let m4 = memory_after(m, s3);
    assert forall|b: int|
        b == base + w || b == base + w + 4 || base + start <= b <= base + start
            + 12 implies #[trigger] word_at(m4, b) == word_at(m2, b) by {
        bytes_stored(m2, base + start + 16, data, b);
        word_stored(m3, rb.hdr + 0x80, next, b);
    }
    assert(bytes_at(m4, base + start + 16, data.len()) =~= data);
    word_stored(m3, rb.hdr + 0x80, next, rb.hdr + 0x80);
}

/// Reads leave memory alone, so that a faithful run of them sees one memory.
proof fn reads_see(m: Memory, ops: Seq<Op>)
    requires
        forall|i: int| 0 <= i < ops.len() ==> (#[trigger] ops[i]) is Read,
        faithful(m, ops),
    ensures
        memory_after(m, ops) == m,
        forall|i: int| 0 <= i < ops.len() ==> sees(m, #[trigger] ops[i]),
    decreases ops.len(),
{
    if ops.len() > 0 {
        reads_see(m, ops.drop_last());
        assert forall|i: int| 0 <= i < ops.len() implies sees(m, #[trigger] ops[i]) by {
            if i < ops.len() - 1 {
                assert(ops[i] == ops.drop_last()[i]);
            }
        }
    }
}

/// A reader whose pointer has come to an enqueued message finds it: a peek
/// returns its header.
#[verifier::spinoff_prover]
#[verifier::rlimit(100)]
pub proof fn peek_finds_the_message(
    m: Memory,
    rb: AfkRingBuffer,
    w: u32,
    e: AfkQueueEntry,
    data: Seq<u8>,
    o: RxOutcome,
)
    requires
        rb.ready,
        rb.wf(),
        w + 16 <= rb.bufsz,
        16 + data.len() <= rb.bufsz,
        message_in_ring(m, rb, w, e, data),
        e.magic == QE_MAGIC,
        e.size == data.len(),
        word_at(m, rb.hdr + 0x40) == w,
        faithful(m, peek_ops(rb, o)),
    ensures
        peek_result(rb, o) == Some(e),
        word_at(memory_after(m, peek_ops(rb, o)), rb.hdr + 0x40) == entry_start(
            w as int,
            data.len() as int,
            rb.bufsz as int,
        ),
        message_in_ring(
            memory_after(m, peek_ops(rb, o)),
            rb,
            w,
            e,
            data,
        ),
{
    let len = data.len() as int;
    let bufsz = rb.bufsz as int;
    let base = rb.data() as int;
    let ops = peek_ops(rb, o);
    let at = reg(rb.data(), o.rptr as int);
    let first = seq![rd(rb.hdr, 0x40, o.rptr)];
    let rest0 = ops.skip(1);
    assert(ops =~= first + rest0);
    memory_append(m, first, rest0);
    reads_see(m, first);
    assert(sees(m, first[0]));
    assert(o.rptr == w);
    let second = seq![rd(at, 0, o.magic)];
    let rest1 = ops.skip(2);
    assert(rest0 =~= second + rest1);
    memory_append(m, second, rest1);
    reads_see(m, second);
    assert(sees(m, second[0]));
    assert(o.magic == QE_MAGIC);
    let third = seq![rd(at, 4, o.size)];
    let rest2 = ops.skip(3);
    assert(rest1 =~= third + rest2);
    memory_append(m, third, rest2);
    reads_see(m, third);
    assert(sees(m, third[0]));
    assert(o.size == len);
    if crosses(w as int, len, bufsz) {
        turned_peek(m, rb, w, e, data, o, rest2);
    } else {
        assert(rest2 =~= final_reads(rb, o));
        final_reads_find(m, rb, w, e, o);
    }
}

/// A peek that goes back to the start of the ring.
#[verifier::spinoff_prover]
#[verifier::rlimit(60)]
proof fn turned_peek(
    m: Memory,
    rb: AfkRingBuffer,
    w: u32,
    e: AfkQueueEntry,
    data: Seq<u8>,
    o: RxOutcome,
    rest: Seq<Op>,
)
    requires
        rb.ready,
        rb.wf(),
        16 + data.len() <= rb.bufsz,
        crosses(w as int, data.len() as int, rb.bufsz as int),
        message_in_ring(m, rb, w, e, data),
        e.magic == QE_MAGIC,
        rest =~= seq![wr(rb.hdr, 0x40, 0), rd(rb.data(), 0, o.wrapped)] + (if o.wrapped
            != QE_MAGIC {
            Seq::empty()
        } else {
            final_reads(rb, o)
        }),
        faithful(m, rest),
    ensures
        o.wrapped == QE_MAGIC,
        o.again == 0,
        o.entry == e,
        word_at(memory_after(m, rest), rb.hdr + 0x40) == 0,
        message_in_ring(memory_after(m, rest), rb, w, e, data),
{
    let base = rb.data() as int;
    let back = wr(rb.hdr, 0x40, 0);
    let look = rd(rb.data(), 0, o.wrapped);
    let turn = Seq::<Op>::empty().push(back).push(look);
    let last = rest.skip(2);
    assert(rest =~= turn + last);
    memory_append(m, turn, last);
    memory_push(m, Seq::empty(), back);
    memory_push(m, Seq::<Op>::empty().push(back), look);
    let m2 = memory_after(m, turn);
    assert(m2 == stored(m, rb.hdr + 0x40, le32(0)));
    assert forall|b: int| b >= base implies #[trigger] word_at(m2, b) == word_at(m, b) by {
        word_stored(m, rb.hdr + 0x40, 0, b);
    }
    word_stored(m, rb.hdr + 0x40, 0, rb.hdr + 0x40);
    assert(sees(m2, look));
    assert(o.wrapped == QE_MAGIC);
    assert(last =~= final_reads(rb, o));
    assert(header_at(m2, base, e));
    final_reads_find(m2, rb, 0, e, o);
    assert(bytes_at(m2, base + 16, data.len()) =~= bytes_at(m, base + 16, data.len()));
}

proof fn final_reads_find(m: Memory, rb: AfkRingBuffer, at: u32, e: AfkQueueEntry, o: RxOutcome)
    requires
        rb.ready,
        rb.wf(),
        at + 16 <= rb.bufsz,
        header_at(m, rb.data() + at, e),
        word_at(m, rb.hdr + 0x40) == at,
        faithful(m, final_reads(rb, o)),
    ensures
        o.again == at,
        o.entry == e,
        memory_after(m, final_reads(rb, o)) == m,
{
    let ops = final_reads(rb, o);
    reads_see(m, ops);
    assert(sees(m, ops[0]));
    let here = reg(rb.data(), o.again as int);
    assert(ops[1] == rd(here, 0, o.entry.magic));
    assert(ops[2] == rd(here, 4, o.entry.size));
    assert(ops[3] == rd(here, 8, o.entry.channel));
    assert(ops[4] == rd(here, 12, o.entry.msg_type));
}

/// Behind the peek, the payload that is read is the one that was enqueued.
pub proof fn payload_is_the_message(
    m: Memory,
    rb: AfkRingBuffer,
    w: u32,
    e: AfkQueueEntry,
    data: Seq<u8>,
    before: Seq<Op>,
    ops: Seq<Op>,
    r: Option<Seq<u8>>,
    rptr: u32,
)
    requires
        rb.ready,
        rb.wf(),
        w + 16 <= rb.bufsz,
        16 + data.len() <= rb.bufsz,
        message_in_ring(m, rb, w, e, data),
        e.size == data.len(),
        word_at(m, rb.hdr + 0x40) == entry_start(
            w as int,
            data.len() as int,
            rb.bufsz as int,
        ),
        payload_read(rb, e.size, before, before + ops, r, rptr),
        faithful(m, ops),
    ensures
        r == Some(data),
{
    let len = data.len() as int;
    let start = entry_start(w as int, len, rb.bufsz as int);
    let all = before + ops;
    let first = rd(rb.hdr, 0x40, rptr);
    assert(ops =~= all.skip(before.len() as int));
    assert(ops.len() >= 1 && ops[0] == first);
    let head = seq![first];
    let rest = ops.skip(1);
    assert(ops =~= head + rest);
    memory_append(m, head, rest);
    reads_see(m, head);
    assert(sees(m, head[0]));
    assert(rptr == start);
    let body = Op::ReadBytes { addr: reg(rb.data(), start + 16), bytes: r->0 };
    assert(rest =~= Seq::<Op>::empty().push(body));
    memory_push(m, Seq::empty(), body);
    assert(sees(m, body));
}

/// Acknowledging an enqueued message moves the read pointer to exactly the
/// write pointer that was published with it.
pub proof fn acknowledging_reaches_the_published_pointer(
    m: Memory,
    rb: AfkRingBuffer,
    w: u32,
    e: AfkQueueEntry,
    data: Seq<u8>,
    rptr: u32,
    magic: u32,
    size: u32,
)
    requires
        rb.ready,
        rb.wf(),
        w + 16 <= rb.bufsz,
        16 + data.len() <= rb.bufsz,
        message_in_ring(m, rb, w, e, data),
        e.magic == QE_MAGIC,
        e.size == data.len(),
        word_at(m, rb.hdr + 0x40) == entry_start(
            w as int,
            data.len() as int,
            rb.bufsz as int,
        ),
        faithful(m, ack_ops(rb, rptr, magic, size)),
    ensures
        word_at(memory_after(m, ack_ops(rb, rptr, magic, size)), rb.hdr + 0x40) == next_pointer(
            entry_start(w as int, data.len() as int, rb.bufsz as int),
            data.len() as int,
            rb.bufsz as int,
        ),
{
    let len = data.len() as int;
    let start = entry_start(w as int, len, rb.bufsz as int);
    let ops = ack_ops(rb, rptr, magic, size);
    let at = reg(rb.data(), rptr as int);
    let head = seq![rd(rb.hdr, 0x40, rptr)];
    assert(ops =~= head + ops.skip(1));
    memory_append(m, head, ops.skip(1));
    reads_see(m, head);
    assert(sees(m, head[0]));
    assert(rptr == start);
    let second = seq![rd(at, 0, magic)];
    assert(ops.skip(1) =~= second + ops.skip(2));
    memory_append(m, second, ops.skip(2));
    reads_see(m, second);
    assert(sees(m, second[0]));
    assert(magic == QE_MAGIC);
    let fence = Seq::<Op>::empty().push(Op::Fence);
    let sized = fence.push(rd(at, 4, size));
    let next = next_pointer(rptr as int, size as int, rb.bufsz as int) as u32;
    assert(ops.skip(2) =~= sized.push(wr(rb.hdr, 0x40, next)));
    memory_push(m, Seq::empty(), Op::Fence);
    memory_push(m, fence, rd(at, 4, size));
    memory_push(m, sized, wr(rb.hdr, 0x40, next));
    assert(size == len);
    aligned_up_is_least_multiple(start + 16 + len, 64);
    word_stored(m, rb.hdr + 0x40, next, rb.hdr + 0x40);
}

impl AfkError {
    /// The message as contracts speak of it.
    pub open spec fn text(self) -> Seq<char> {
        match self {
            AfkError::TxNotReady => "apple-afk: TX ring buffer not ready"@,
            AfkError::TxFull => "apple-afk: TX ring buffer full"@,
            AfkError::PointerOutOfRange => "apple-afk: ring pointer out of range"@,
            AfkError::Timeout => "apple-afk: timeout waiting for RBEP message"@,
            AfkError::InitTimeout => "apple-afk: timeout waiting for INIT_TX/INIT_RX"@,
            AfkError::NoSharedBuffer => "apple-afk: no shared buffer"@,
            AfkError::AllocFailed => "apple-afk: failed to allocate shared buffer"@,
            AfkError::TagMismatch => "apple-afk: ring buffer tag mismatch"@,
            AfkError::OutOfBounds => "apple-afk: ring buffer out of bounds"@,
            AfkError::SizeMismatch => "apple-afk: ring buffer size mismatch"@,
            AfkError::NotInitialized => "apple-afk: ring buffers not initialized"@,
            AfkError::Transport(error) => error.text(),
        }
    }

    /// The message for the kernel log.
    pub fn message(self) -> (r: &'static str)
        ensures
            r@ == self.text(),
    {
        match self {
            AfkError::TxNotReady => "apple-afk: TX ring buffer not ready",
            AfkError::TxFull => "apple-afk: TX ring buffer full",
            AfkError::PointerOutOfRange => "apple-afk: ring pointer out of range",
            AfkError::Timeout => "apple-afk: timeout waiting for RBEP message",
            AfkError::InitTimeout => "apple-afk: timeout waiting for INIT_TX/INIT_RX",
            AfkError::NoSharedBuffer => "apple-afk: no shared buffer",
            AfkError::AllocFailed => "apple-afk: failed to allocate shared buffer",
            AfkError::TagMismatch => "apple-afk: ring buffer tag mismatch",
            AfkError::OutOfBounds => "apple-afk: ring buffer out of bounds",
            AfkError::SizeMismatch => "apple-afk: ring buffer size mismatch",
            AfkError::NotInitialized => "apple-afk: ring buffers not initialized",
            AfkError::Transport(error) => error.message(),
        }
    }
}

/// A ring buffer word gives back the type and the payload that it was made of.
pub proof fn ring_words_read_back(kind: u64, payload: u64)
    requires
        kind < 0x1_0000,
        payload < 0x1_0000_0000_0000,
    ensures
        rbep_kind(rbep_word(kind, payload)) == kind,
        rbep_word(kind, payload) & 0xffff_ffff_ffff == payload,
{
    assert((((kind << 48) | payload) & 0xffff_0000_0000_0000) >> 48 == kind && ((kind << 48)
        | payload) & 0xffff_ffff_ffff == payload) by (bit_vector)
        requires
            kind < 0x1_0000,
            payload < 0x1_0000_0000_0000,
    ;
}

} // verus!
