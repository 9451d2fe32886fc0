//! The messages of coprocessors: what their words say, and where rings lie.

use crate::afk::{
    buffer_size, entry_start, listened, next_pointer, rbep_kind, rbep_word, ring_setup,
    sent_entry_with, step_taken, AfkEndpoint, AfkSharedBuffer, Handshake,
};
use crate::asc::{AscMessage, Traffic};
use crate::bus::Op;
use crate::arith::aligned_up_is_least_multiple;
use crate::bytes::{from_le32, le32, le32_round_trip};
use crate::epic::{announced_name, call_bytes, text_len};
use crate::rtkit::{
    boot_step, endpoint_of, epmap_reply, hello_ack, mgmt_kind, mgmt_waited, negotiated, power_of, start_mail,
    system_endpoints, version_ok, with_map, Boot,
};
use vstd::prelude::*;

verus! {

/// Fields of the messages, as numbers.
proof fn words_in_numbers(m: u64, v: u64, b: u64, e: u64, x: u32, k: u64, p: u64)
    by (bit_vector)
    requires
        v <= 12,
        e < 64,
        k < 0x1_0000,
        p < 0x1_0000_0000_0000,
    ensures
        ((m & 0x01ff_0000_0000_0000) >> 48 == m / 0x1_0000_0000_0000 % 512) && ((
        m & 0xffff_ffff) as u32 == m % 0x1_0000_0000) && ((x & 0x3f) as u8 == x % 64) && (((
        m & 0xffff_0000) >> 16) as u32 == m / 0x1_0000 % 0x1_0000) && ((m & 0xffff) as u32 == m
            % 0x1_0000) && ((2u64 << 48) | (v | (v << 16)) == 0x2_0000_0000_0000 + 0x1_0000 * v + v)
            && ((m & 0x8_0000_0000_0000 != 0) == (m / 0x8_0000_0000_0000 % 2 == 1)) && ((8u64 << 48)
            | 0x8_0000_0000_0000 == 0x8_0000_0000_0000) && ((8u64 << 48) | 1
            == 0x8_0000_0000_0001) && ((m & 0x700) >> 8 == m / 256 % 8) && (((b | ((m & 0xffff_ffff)
            << 0u64)) >> e) & 1 == (if e < 32 {
            ((b >> e) | (m >> e)) & 1
        } else {
            (b >> e) & 1
        })) && (((b | ((m & 0xffff_ffff) << 32u64)) >> e) & 1 == (if e >= 32 {
            ((b >> e) | (m >> ((e - 32) as u64))) & 1
        } else {
            (b >> e) & 1
        })) && ((m & 0xffff_0000_0000_0000) >> 48 == m / 0x1_0000_0000_0000) && ((k << 48) | p == k
            * 0x1_0000_0000_0000 + p) && ((m & 0xffff_0000_0000) >> 32 == m / 0x1_0000_0000
            % 0x1_0000) && ((m & 0xffff_0000) >> 16 == m / 0x1_0000 % 0x1_0000) && ((5u64 << 48) | ((k << 24) | 2)
            == 0x5_0000_0000_0000 + 0x100_0000 * k + 2) && (((b | m) & 1 == 1) == (b & 1 == 1 || m & 1
            == 1)),
{
}

/// The type of a management message lies in bits 48 to 56, the power state in
/// the low word; the endpoint of a mail is the low six bits of its second word.
pub proof fn management_fields(m: u64, x: u32)
    ensures
        mgmt_kind(m) == m / 0x1_0000_0000_0000 % 512,
        power_of(m) == m % 0x1_0000_0000,
        endpoint_of(x) == x % 64,
{
    words_in_numbers(m, 0, 0, 0, x, 0, 0);
}

/// A hello offers versions from its low half-word to the next one. The answer
/// names, twice, the newest one offered that is no newer than 12, and there is
/// one where it is at least 11 and at least the oldest one offered.
pub proof fn hellos_are_answered(hello: u64)
    ensures
        ({
            let oldest = hello as int % 0x1_0000;
            let newest = hello as int / 0x1_0000 % 0x1_0000;
            let v = if newest < 12 {
                newest
            } else {
                12
            };
            &&& negotiated(hello) == v
            &&& version_ok(hello) == (v >= 11 && v >= oldest)
            &&& hello_ack(hello).msg0 == 2 * 0x1_0000_0000_0000 + v * 0x1_0000 + v
            &&& hello_ack(hello).msg1 == 0
        }),
{
    words_in_numbers(hello, 0, 0, 0, 0, 0, 0);
    words_in_numbers(hello, negotiated(hello) as u64, 0, 0, 0, 0, 0);
}

/// An endpoint is known behind a part of the map exactly where it was known
/// before or the part names it: 32 endpoints for each part, the number of the
/// part in bits 8 to 10.
pub proof fn maps_name_endpoints(bitmap: u64, map: u64, e: u64)
    requires
        e < 64,
    ensures
        ({
            let part = map as int / 256 % 8;
            (with_map(bitmap, map) >> e) & 1 == 1 <==> (bitmap >> e) & 1 == 1 || (e as int / 32
                == part && (map >> ((e % 32) as u64)) & 1 == 1)
        }),
{
    words_in_numbers(map, 0, bitmap, e, 0, 0, 0);
    let below = if e < 32 {
        e
    } else {
        (e - 32) as u64
    };
    assert(e % 32 == below);
    words_in_numbers(map >> below, 0, bitmap >> e, 0, 0, 0, 0);
}

/// The last part of a map, told by bit 51, is answered in kind, every other one
/// with a request for more; an endpoint is started by its number in bits 24 and
/// up; the system endpoints are those of crash log, system log, debugging,
/// reports and the kernel log.
pub proof fn endpoints_are_asked_for(map: u64, ep: u8)
    ensures
        map as int / 0x8_0000_0000_0000 % 2 == 1 ==> epmap_reply(map).msg0 == 8
            * 0x1_0000_0000_0000,
        map as int / 0x8_0000_0000_0000 % 2 == 0 ==> epmap_reply(map).msg0 == 8
            * 0x1_0000_0000_0000 + 1,
        epmap_reply(map).msg1 == 0,
        start_mail(ep).msg0 == 5 * 0x1_0000_0000_0000 + ep * 0x100_0000 + 2,
        start_mail(ep).msg1 == 0,
        system_endpoints() == seq![1u8, 2, 3, 4, 8],
{
    words_in_numbers(map, 0, 0, 0, 0, 0, 0);
    words_in_numbers(0, 0, 0, 0, 0, ep as u64, 0);
}

/// A ring message has its type above bit 48 and what it says below.
pub proof fn ring_fields(m: u64, kind: u64, payload: u64)
    requires
        kind < 0x1_0000,
        payload < 0x1_0000_0000_0000,
    ensures
        rbep_kind(m) == m / 0x1_0000_0000_0000,
        rbep_word(kind, payload) == kind * 0x1_0000_0000_0000 + payload,
        buffer_size(m) == m as int / 0x1_0000 % 0x1_0000 * 64,
{
    words_in_numbers(m, 0, 0, 0, 0, kind, payload);
}

/// A ring that was set up lies where its message says, in units of 64 bytes,
/// inside the shared buffer of the same tag, and holds what its size leaves
/// behind the header of 192 bytes; all other messages are refused.
pub proof fn rings_lie_where_they_were_put(shared: AfkSharedBuffer, m: u64, found: u32)
    requires
        shared.virt + shared.size <= usize::MAX,
    ensures
        ({
            let base = m as int / 0x1_0000_0000 % 0x1_0000 * 64;
            let total = m as int / 0x1_0000 % 0x1_0000 * 64;
            let r = ring_setup(shared, m, found);
            &&& r is Ok <==> m as int % 0x1_0000 == shared.tag && base + total <= shared.size && found
                + 192 == total
            &&& r is Ok ==> r->Ok_0.hdr == shared.virt + base && r->Ok_0.bufsz == total - 192
                && r->Ok_0.ready
            &&& m as int % 0x1_0000 != shared.tag ==> r->Err_0 is TagMismatch
            &&& m as int % 0x1_0000 == shared.tag && base + total > shared.size ==> r->Err_0
                is OutOfBounds
        }),
{
    words_in_numbers(m, 0, 0, 0, 0, 0, 0);
}

/// The entry behind one of `len` bytes at `start` begins at the next multiple
/// of 64 behind its header of 16 bytes and its payload, or at the start of the
/// ring where that is no longer inside.
pub proof fn entries_follow_each_other(start: int, len: int, bufsz: int)
    requires
        0 <= start,
        0 <= len,
    ensures
        ({
            let p = next_pointer(start, len, bufsz);
            let end = start + 16 + len;
            &&& p % 64 == 0
            &&& p == 0 || (end <= p < end + 64 && p < bufsz)
            &&& p == 0 ==> end + 63 >= bufsz
        }),
{
    aligned_up_is_least_multiple(start + 16 + len, 64);
}

/// The header of a service call: group, command and length of the data at bytes
/// 2, 4 and 8, a mark at byte 12, and zeros.
pub proof fn calls_hold_their_fields(group: u16, command: u32, len: u32)
    ensures
        ({
            let b = call_bytes(group, command, len);
            &&& b.len() == 64
            &&& b[0] == 0
            &&& b[1] == 0
            &&& b[2] + 0x100 * b[3] == group
            &&& from_le32(b, 4) == command
            &&& from_le32(b, 8) == len
            &&& from_le32(b, 12) == 0x6970_6378
            &&& forall|i: int| 16 <= i < 64 ==> #[trigger] b[i] == 0
        }),
{
    let b = call_bytes(group, command, len);
    le32_round_trip(command);
    le32_round_trip(len);
    le32_round_trip(0x6970_6378);
    assert(b.subrange(4, 8) =~= le32(command));
    assert(b.subrange(8, 12) =~= le32(len));
    assert(b.subrange(12, 16) =~= le32(0x6970_6378));
    assert(from_le32(b, 4) == from_le32(b.subrange(4, 8), 0));
    assert(from_le32(b, 8) == from_le32(b.subrange(8, 12), 0));
    assert(from_le32(b, 12) == from_le32(b.subrange(12, 16), 0));
}

proof fn text_ends(s: Seq<u8>, from: int)
    requires
        0 <= from <= s.len(),
    ensures
        from <= text_len(s, from) <= s.len(),
        text_len(s, from) < s.len() ==> s[text_len(s, from)] == 0,
        forall|i: int| from <= i < text_len(s, from) ==> #[trigger] s[i] != 0,
    decreases s.len() - from,
{
    if from < s.len() && s[from] != 0 {
        text_ends(s, from + 1);
    }
}

/// The name of an announced service: the bytes of the message from the 40th on,
/// up to the first zero and at most 32 of them.
pub proof fn services_are_named_in_their_message(payload: Seq<u8>, i: int)
    requires
        payload.len() >= 72,
    ensures
        ({
            let name = announced_name(payload);
            &&& name.len() <= 32
            &&& name.len() < 32 ==> payload[40 + name.len() as int] == 0
            &&& 0 <= i < name.len() ==> name[i] == payload[40 + i] && name[i] != 0
        }),
{
    let field = payload.subrange(40, 72);
    text_ends(field, 0);
    let name = announced_name(payload);
    if name.len() < 32 {
        assert(field[name.len() as int] == payload[40 + name.len() as int]);
    }
    if 0 <= i < name.len() {
        assert(field[i] == payload[40 + i]);
    }
}

/// The words that a boot sends, each behind what passed before: the request to
/// power up, the answer to the hello, and at the end the report that this side
/// is on. The hello that is waited for has type 1.
pub proof fn boots_send_their_words(b: Boot, at: usize)
    requires
        b.shots.len() == 8,
    ensures
        boot_step(b, 0, at, Ok(0)) ==> b.shots[1].traffic == b.shots[0].traffic.push(
            Traffic::Sent(AscMessage { msg0: 0x6_0000_0000_0220, msg1: 0 }),
        ),
        boot_step(b, 2, at, Ok(0)) ==> b.shots[3].traffic.len() == b.shots[2].traffic.len() + 1
            && b.shots[3].traffic.last() is Sent && b.shots[3].traffic.last()->Sent_0.msg0 / 0x1_0000
            % 0x1_0000 == b.shots[3].traffic.last()->Sent_0.msg0 % 0x1_0000
            && b.shots[3].traffic.last()->Sent_0.msg0 / 0x1_0000_0000_0000 == 2,
        boot_step(b, 6, at, Ok(0)) ==> b.shots[7].traffic == b.shots[6].traffic.push(
            Traffic::Sent(AscMessage { msg0: 0xb_0000_0000_0020, msg1: 0 }),
        ),
        forall|hello: u64|
            #[trigger] boot_step(b, 1, at, Ok(hello)) ==> mgmt_waited(
                b.shots[1],
                b.shots[2],
                at,
                1_000_000,
                1,
                Ok(hello),
            ),
{
    words_in_numbers(0, 0, 0, 0, 0, 6, 0x220);
    words_in_numbers(0, 0, 0, 0, 0, 0xb, 0x20);
    if boot_step(b, 2, at, Ok(0)) {
        hellos_are_answered(b.hello);
        let v = negotiated(b.hello) as int;
        assert(0 <= v <= 12);
        ack_halves(v);
    }
}

proof fn ack_halves(v: int)
    requires
        0 <= v <= 12,
    ensures
        (2 * 0x1_0000_0000_0000 + v * 0x1_0000 + v) / 0x1_0000 % 0x1_0000 == v,
        (2 * 0x1_0000_0000_0000 + v * 0x1_0000 + v) % 0x1_0000 == v,
        (2 * 0x1_0000_0000_0000 + v * 0x1_0000 + v) / 0x1_0000_0000_0000 == 2,
{
}

/// The words of a handshake: the endpoint is started, INIT is sent and answered
/// by 0xa0, and behind the rings START is sent and answered by 0x86; all under
/// the number of the endpoint.
pub proof fn handshakes_send_their_words(h: Handshake, ep: u8, at: usize)
    requires
        h.shots.len() == 8,
        h.results.len() == 7,
        forall|i: int| 0 <= i < 7 ==> #[trigger] step_taken(h, i, ep, at) && h.results[i] is Ok,
    ensures
        h.shots[1].traffic == h.shots[0].traffic.push(
            Traffic::Sent(
                AscMessage {
                    msg0: (0x5_0000_0000_0000 + 0x100_0000 * ep + 2) as u64,
                    msg1: 0,
                },
            ),
        ),
        h.shots[2].traffic == h.shots[1].traffic.push(
            Traffic::Sent(AscMessage { msg0: 0x80_0000_0000_0000, msg1: ep as u32 }),
        ),
        listened(h.shots[2], h.shots[3], ep, at, 0xa0, h.results[2]),
        h.shots[6].traffic == h.shots[5].traffic.push(
            Traffic::Sent(AscMessage { msg0: 0xa3_0000_0000_0000, msg1: ep as u32 }),
        ),
        listened(h.shots[6], h.shots[7], ep, at, 0x86, h.results[6]),
{
    words_in_numbers(0, 0, 0, 0, 0, 0x80, 0);
    words_in_numbers(0, 0, 0, 0, 0, 0xa3, 0);
    words_in_numbers(0, 0, 0, 0, 0, ep as u64, 0);
    assert(step_taken(h, 0, ep, at) && h.results[0] is Ok);
    assert(step_taken(h, 1, ep, at) && h.results[1] is Ok);
    assert(step_taken(h, 2, ep, at));
    assert(step_taken(h, 5, ep, at) && h.results[5] is Ok);
    assert(step_taken(h, 6, ep, at));
}

/// A message that was sent is announced under the number of its endpoint with
/// the new write pointer: the block behind the entry, or the start of the ring.
pub proof fn sent_entries_are_announced(
    me: &AfkEndpoint,
    then: &AfkEndpoint,
    before: Seq<Op>,
    after: Seq<Op>,
    channel: u32,
    msg_type: u32,
    data: Seq<u8>,
    rptr: u32,
    wptr: u32,
)
    requires
        sent_entry_with(me, then, before, after, channel, msg_type, data, Ok(()), rptr, wptr),
    ensures
        then.traffic().len() == me.traffic().len() + 1,
        then.traffic().last() is Sent,
        ({
            let mail = then.traffic().last()->Sent_0;
            let bufsz = me.tx.bufsz as int;
            let start = if wptr + 16 + data.len() > bufsz {
                0
            } else {
                wptr as int
            };
            let p = mail.msg0 - 0xa2_0000_0000_0000;
            let end = start + 16 + data.len();
            &&& mail.msg1 == me.ep
            &&& 0 <= p < 0x1_0000_0000
            &&& p % 64 == 0
            &&& p == 0 || (end <= p < end + 64 && p < bufsz)
            &&& p == 0 ==> end + 63 >= bufsz
        }),
{
    let len = data.len() as int;
    let bufsz = me.tx.bufsz as int;
    let start = entry_start(wptr as int, len, bufsz);
    let next = next_pointer(start, len, bufsz);
    entries_follow_each_other(start, len, bufsz);
    words_in_numbers(0, 0, 0, 0, 0, 0xa2, next as u64);
}

} // verus!
