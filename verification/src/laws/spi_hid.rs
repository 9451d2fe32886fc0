//! Keyboard and trackpad: what someone who follows the events knows, and what
//! travels on the wire.

use crate::arith::{ceil_div, ceil_div_counts};
use crate::bytes::{from_le16, le16};
use crate::ports::hid::HidOp;
use crate::spi_hid::{
    button_event, chunk_len, crc_of, events_follow_the_reports, info_ready, key_changes, key_from, key_has_row, key_of, key_rows_differ, message_packet,
    message_packets, modifier_held, motion_event, packet_body, packet_of, listen, pin_ops, plain_keys, reported_down,
    report_events, report_noted, trackpad_events, AppleSpiHidTransport, InputEvent, BOOT_CMD, HID_KEYS,
};
use vstd::prelude::*;

verus! {

/// What someone who follows the events of a trackpad knows: the left and the
/// right button, and how far the pointer went in both directions.
pub struct Heard {
    pub left: bool,
    pub right: bool,
    pub x: int,
    pub y: int,
}

/// Following the events, one by one.
pub open spec fn heard(from: Heard, events: Seq<InputEvent>) -> Heard
    decreases events.len(),
{
    if events.len() == 0 {
        from
    } else {
        let before = heard(from, events.drop_last());
        match events.last() {
            InputEvent::Button { right, pressed } => if right {
                Heard { right: pressed, ..before }
            } else {
                Heard { left: pressed, ..before }
            },
            InputEvent::Motion { vertical, delta } => if vertical {
                Heard { y: before.y + delta, ..before }
            } else {
                Heard { x: before.x + delta, ..before }
            },
            _ => before,
        }
    }
}

proof fn heard_append(from: Heard, a: Seq<InputEvent>, b: Seq<InputEvent>)
    ensures
        heard(from, a + b) == heard(heard(from, a), b),
    decreases b.len(),
{
    if b.len() == 0 {
        assert(a + b =~= a);
    } else {
        heard_append(from, a, b.drop_last());
        assert((a + b).drop_last() =~= a + b.drop_last());
    }
}

proof fn heard_one(from: Heard, e: InputEvent)
    ensures
        heard(from, seq![e]) == (match e {
            InputEvent::Button { right, pressed } => if right {
                Heard { right: pressed, ..from }
            } else {
                Heard { left: pressed, ..from }
            },
            InputEvent::Motion { vertical, delta } => if vertical {
                Heard { y: from.y + delta, ..from }
            } else {
                Heard { x: from.x + delta, ..from }
            },
            _ => from,
        }),
{
    reveal_with_fuel(heard, 2);
    assert(seq![e].drop_last() =~= Seq::empty());
}

/// Bits of a byte, as numbers.
proof fn bits_in_numbers(b: u8)
    by (bit_vector)
    ensures
        (b & 1 != 0) == (b % 2 == 1),
        (b & 2 != 0) == (b / 2 % 2 == 1),
        (b & (1u8 << 0u8) != 0) == (b % 2 == 1),
        (b & (1u8 << 1u8) != 0) == (b / 2 % 2 == 1),
        (b & (1u8 << 2u8) != 0) == (b / 4 % 2 == 1),
        (b & (1u8 << 3u8) != 0) == (b / 8 % 2 == 1),
        (b & (1u8 << 4u8) != 0) == (b / 16 % 2 == 1),
        (b & (1u8 << 5u8) != 0) == (b / 32 % 2 == 1),
        (b & (1u8 << 6u8) != 0) == (b / 64 % 2 == 1),
        (b & (1u8 << 7u8) != 0) == (b / 128 == 1),
{
}

/// The left button is bit 0 and the right button bit 1 of the newest report:
/// someone who knew both buttons before it knows both behind its events, and
/// so with the byte that the device remembers. The pointer went by the second
/// byte to the side and by the third one down, both read as signed.
pub proof fn buttons_follow_the_reports(
    before: AppleSpiHidTransport,
    after: AppleSpiHidTransport,
    report: Seq<u8>,
    from: Heard,
)
    requires
        before.device_id == 2,
        report.len() >= 3,
        report_noted(before, after, report),
        from.left == (before.last_buttons % 2 == 1),
        from.right == (before.last_buttons / 2 % 2 == 1),
    ensures
        ({
            let now = heard(from, report_events(before, report));
            &&& now.left == (report[0] % 2 == 1)
            &&& now.right == (report[0] / 2 % 2 == 1)
            &&& now.left == (after.last_buttons % 2 == 1)
            &&& now.right == (after.last_buttons / 2 % 2 == 1)
            &&& (report[1] < 128 ==> now.x - from.x == report[1])
            &&& (report[1] >= 128 ==> now.x - from.x == report[1] - 256)
            &&& (report[2] < 128 ==> now.y - from.y == report[2])
            &&& (report[2] >= 128 ==> now.y - from.y == report[2] - 256)
            &&& report_events(before, report).last() is Sync
        }),
{
    let old_buttons = before.last_buttons;
    let new_buttons = report[0];
    let a = button_event(old_buttons, new_buttons, false);
    let b = button_event(old_buttons, new_buttons, true);
    let c = motion_event(report[1], false);
    let d = motion_event(report[2], true);
    let e = seq![InputEvent::Sync];
    bits_in_numbers(old_buttons);
    bits_in_numbers(new_buttons);
    heard_append(from, a + b + c + d, e);
    heard_append(from, a + b + c, d);
    heard_append(from, a + b, c);
    heard_append(from, a, b);
    let s1 = heard(from, a);
    let s2 = heard(s1, b);
    let s3 = heard(s2, c);
    let s4 = heard(s3, d);
    if a.len() > 0 {
        heard_one(from, a[0]);
    }
    if b.len() > 0 {
        heard_one(s1, b[0]);
    }
    if c.len() > 0 {
        heard_one(s2, c[0]);
    }
    if d.len() > 0 {
        heard_one(s3, d[0]);
    }
    heard_one(s4, InputEvent::Sync);
    assert(trackpad_events(old_buttons, report) == a + b + c + d + e);
}

/// The modifiers of a keyboard report are its bits from the lowest up.
pub proof fn modifiers_are_bits(b: u8)
    ensures
        modifier_held(b, 0) == (b % 2 == 1),
        modifier_held(b, 1) == (b / 2 % 2 == 1),
        modifier_held(b, 2) == (b / 4 % 2 == 1),
        modifier_held(b, 3) == (b / 8 % 2 == 1),
        modifier_held(b, 4) == (b / 16 % 2 == 1),
        modifier_held(b, 5) == (b / 32 % 2 == 1),
        modifier_held(b, 6) == (b / 64 % 2 == 1),
        modifier_held(b, 7) == (b / 128 == 1),
{
    bits_in_numbers(b);
}

/// The keys of a keyboard are what its newest report says: the modifiers by the
/// bits of the first byte, the others by the six bytes from the third one on.
pub proof fn keys_follow_the_reports(
    before: AppleSpiHidTransport,
    after: AppleSpiHidTransport,
    report: Seq<u8>,
    down: Set<u16>,
    code: u16,
)
    requires
        before.device_id == 1,
        report.len() >= 8,
        report_noted(before, after, report),
        plain_keys(before.last_keys@),
        forall|i: int| 2 <= i < 8 ==> !(0xe0 <= (#[trigger] report[i]) <= 0xe7),
        down.contains(code) == reported_down(before.last_modifiers, before.last_keys@, code),
    ensures
        listen(down, report_events(before, report)).contains(code) == ({
            ||| exists|n: int|
                0 <= n < 8 && #[trigger] modifier_held(report[0], n) && key_of((0xe0 + n) as u8)
                    == Some(code)
            ||| exists|i: int|
                2 <= i < 8 && (#[trigger] report[i]) != 0 && key_of(report[i]) == Some(code)
        }),
        listen(down, report_events(before, report)).contains(code) == reported_down(
            after.last_modifiers,
            after.last_keys@,
            code,
        ),
        report_events(before, report).last() is Sync,
{
    let keys = report.subrange(2, 8);
    assert forall|i: int| 0 <= i < keys.len() implies !(0xe0 <= (#[trigger] keys[i]) <= 0xe7) by {
        assert(keys[i] == report[i + 2]);
    }
    events_follow_the_reports(
        down,
        before.last_modifiers,
        before.last_keys@,
        report[0],
        keys,
        code,
    );
    let changes = key_changes(before.last_modifiers, before.last_keys@, report[0], keys);
    let all = changes + seq![InputEvent::Sync];
    assert(all.drop_last() =~= changes);
    assert(all.last() is Sync);
    if exists|i: int| 2 <= i < 8 && (#[trigger] report[i]) != 0 && key_of(report[i]) == Some(code) {
        let i = choose|i: int|
            2 <= i < 8 && (#[trigger] report[i]) != 0 && key_of(report[i]) == Some(code);
        assert(keys[i - 2] == report[i]);
    }
    if exists|i: int| 0 <= i < keys.len() && (#[trigger] keys[i]) != 0 && key_of(keys[i]) == Some(code) {
        let i = choose|i: int|
            0 <= i < keys.len() && (#[trigger] keys[i]) != 0 && key_of(keys[i]) == Some(code);
        assert(keys[i] == report[i + 2]);
    }
}

proof fn row_is_found(i: int, from: int)
    requires
        0 <= from <= i < HID_KEYS@.len(),
    ensures
        key_from(HID_KEYS@[i].0, from) == Some(HID_KEYS@[i].1),
    decreases i - from,
{
    if from < i {
        key_rows_differ(from, i);
        row_is_found(i, from + 1);
    }
}

/// Where a letter stands among the usages, which follow the alphabet.
pub open spec fn letter_usage(c: char) -> u8 {
    (4 + (c as int - 'a' as int)) as u8
}

/// The letters lie in the rows of a keyboard: codes count up along each row.
pub proof fn letters_lie_in_rows(i: int)
    ensures
        0 <= i < 10 ==> key_of(letter_usage("qwertyuiop"@[i])) == Some((16 + i) as u16),
        0 <= i < 9 ==> key_of(letter_usage("asdfghjkl"@[i])) == Some((30 + i) as u16),
        0 <= i < 7 ==> key_of(letter_usage("zxcvbnm"@[i])) == Some((44 + i) as u16),
{
    reveal_strlit("qwertyuiop");
    reveal_strlit("asdfghjkl");
    reveal_strlit("zxcvbnm");
    if 0 <= i < 10 {
        row_is_found(letter_usage("qwertyuiop"@[i]) - 4, 0);
    }
    if 0 <= i < 9 {
        row_is_found(letter_usage("asdfghjkl"@[i]) - 4, 0);
    }
    if 0 <= i < 7 {
        row_is_found(letter_usage("zxcvbnm"@[i]) - 4, 0);
    }
}

/// Digits and function keys count up as their usages do; the eight modifiers,
/// the arrows and the keys around the letters have codes of their own, and no
/// other usage has one.
pub proof fn other_keys_have_their_codes(i: int, usage: u8)
    ensures
        0 <= i < 10 ==> key_of((0x1e + i) as u8) == Some((2 + i) as u16),
        0 <= i < 10 ==> key_of((0x3a + i) as u8) == Some((59 + i) as u16),
        0 <= i < 2 ==> key_of((0x44 + i) as u8) == Some((87 + i) as u16),
        key_of(0x28) == Some(28u16),
        key_of(0x29) == Some(1u16),
        key_of(0x2a) == Some(14u16),
        key_of(0x2b) == Some(15u16),
        key_of(0x2c) == Some(57u16),
        key_of(0x4f) == Some(106u16),
        key_of(0x50) == Some(105u16),
        key_of(0x51) == Some(108u16),
        key_of(0x52) == Some(103u16),
        key_of(0xe0) == Some(29u16),
        key_of(0xe1) == Some(42u16),
        key_of(0xe2) == Some(56u16),
        key_of(0xe3) == Some(125u16),
        key_of(0xe4) == Some(97u16),
        key_of(0xe5) == Some(54u16),
        key_of(0xe6) == Some(100u16),
        key_of(0xe7) == Some(126u16),
        key_of(usage) is Some ==> 4 <= usage <= 0x2c || 0x3a <= usage <= 0x45 || 0x4f <= usage
            <= 0x52 || 0xe0 <= usage <= 0xe7,
{
    if 0 <= i < 10 {
        row_is_found(26 + i, 0);
        row_is_found(41 + i, 0);
    }
    if 0 <= i < 2 {
        row_is_found(51 + i, 0);
    }
    row_is_found(36, 0);
    row_is_found(37, 0);
    row_is_found(38, 0);
    row_is_found(39, 0);
    row_is_found(40, 0);
    row_is_found(53, 0);
    row_is_found(54, 0);
    row_is_found(55, 0);
    row_is_found(56, 0);
    row_is_found(57, 0);
    row_is_found(58, 0);
    row_is_found(59, 0);
    row_is_found(60, 0);
    row_is_found(61, 0);
    row_is_found(62, 0);
    row_is_found(63, 0);
    row_is_found(64, 0);
    if key_of(usage) is Some {
        let k = key_has_row(usage, 0);
    }
}

/// Two little-endian bytes are read as the word they were written from.
proof fn word_at(s: Seq<u8>, at: int, x: u16)
    requires
        0 <= at <= s.len() - 2,
        s.subrange(at, at + 2) == le16(x),
    ensures
        from_le16(s, at) == x,
{
    assert(s.subrange(at, at + 2)[0] == s[at]);
    assert(s.subrange(at, at + 2)[1] == s[at + 1]);
}

/// A packet of 256 bytes: flags, device, offset, what remains and length,
/// then the data filled up with zeros, and the CRC of all that at the end.
pub proof fn packets_hold_their_fields(
    flags: u8,
    device_id: u8,
    offset: u16,
    remain: u16,
    length: u16,
    data: Seq<u8>,
)
    requires
        data.len() <= 246,
    ensures
        ({
            let p = packet_of(flags, device_id, offset, remain, length, data);
            &&& p.len() == 256
            &&& p[0] == flags
            &&& p[1] == device_id
            &&& from_le16(p, 2) == offset
            &&& from_le16(p, 4) == remain
            &&& from_le16(p, 6) == length
            &&& p.subrange(8, 8 + data.len() as int) == data
            &&& forall|i: int| 8 + data.len() <= i < 254 ==> #[trigger] p[i] == 0
            &&& from_le16(p, 254) == crc_of(p.take(254))
        }),
{
    let p = packet_of(flags, device_id, offset, remain, length, data);
    let body = packet_body(flags, device_id, offset, remain, length, data);
    assert(p.subrange(2, 4) =~= le16(offset));
    assert(p.subrange(4, 6) =~= le16(remain));
    assert(p.subrange(6, 8) =~= le16(length));
    assert(p.take(254) =~= body);
    assert(p.subrange(254, 256) =~= le16(crc_of(body)));
    word_at(p, 2, offset);
    word_at(p, 4, remain);
    word_at(p, 6, length);
    word_at(p, 254, crc_of(body));
    assert(p.subrange(8, 8 + data.len() as int) =~= data);
}

/// A message goes out in packets of 246 bytes: each says where its part
/// begins, how much follows behind it and how long it is, and carries exactly
/// that part; the last one says that nothing follows.
pub proof fn messages_are_cut_in_order(device_id: u8, data: Seq<u8>, i: int)
    requires
        0 < data.len() <= 0xffff,
        0 <= i < message_packets(device_id, data).len(),
    ensures
        ({
            let n = message_packets(device_id, data).len();
            let p = message_packets(device_id, data)[i];
            &&& 246 * (n - 1) < data.len() <= 246 * n
            &&& p[0] == 0x40
            &&& p[1] == device_id
            &&& from_le16(p, 2) == 246 * i
            &&& from_le16(p, 2) + from_le16(p, 6) + from_le16(p, 4) == data.len()
            &&& from_le16(p, 6) == 246 || i == n - 1
            &&& (from_le16(p, 4) == 0) == (i == n - 1)
            &&& p.subrange(8, 8 + from_le16(p, 6)) == data.subrange(
                from_le16(p, 2),
                from_le16(p, 2) + from_le16(p, 6),
            )
        }),
{
    ceil_div_counts(data.len() as int, 246);
    let n = ceil_div(data.len() as int, 246);
    assert(message_packets(device_id, data)[i] == message_packet(device_id, data, i));
    let len = chunk_len(data.len() as int, i);
    let part = data.subrange(246 * i, 246 * i + len);
    packets_hold_their_fields(
        0x40,
        device_id,
        (246 * i) as u16,
        (data.len() - 246 * i - len) as u16,
        len as u16,
        part,
    );
}

/// Bringing a device up: its power pin is driven high, a tenth of a second goes
/// by, its interrupt pin is made an input; the boot command a0 80 00 00 goes to
/// the manager in one packet; and a device that answers at all is ready by the
/// bytes ac 27 68 d5.
pub proof fn devices_are_brought_up(hid: AppleSpiHidTransport, info: Seq<u8>, pin: u32, irq: u32)
    requires
        hid.spien_pin == Some(pin),
        hid.irq_pin == Some(irq),
    ensures
        pin_ops(hid) == seq![
            HidOp::Output { pin, value: true },
            HidOp::Value { pin, value: true },
            HidOp::Delay { us: 100_000 },
            HidOp::Input { pin: irq },
        ],
        message_packets(0, BOOT_CMD@).len() == 1,
        ({
            let p = message_packets(0, BOOT_CMD@)[0];
            &&& p[0] == 0x40
            &&& p[1] == 0
            &&& from_le16(p, 6) == 4
            &&& p[8] == 0xa0
            &&& p[9] == 0x80
            &&& p[10] == 0
            &&& p[11] == 0
        }),
        info.len() >= 4 ==> (info_ready(info) <==> info[0] == 0xac && info[1] == 0x27 && info[2]
            == 0x68 && info[3] == 0xd5),
{
    assert(pin_ops(hid) =~= seq![
        HidOp::Output { pin, value: true },
        HidOp::Value { pin, value: true },
        HidOp::Delay { us: 100_000 },
        HidOp::Input { pin: irq },
    ]);
    boot_packet();
    if info.len() >= 4 {
        digits(info[0], info[1], info[2], info[3]);
    }
}

/// Four bytes are told by the number they make.
proof fn digits(a: u8, b: u8, c: u8, d: u8)
    ensures
        a + 256 * b + 65536 * c + 16777216 * d == 0xd568_27ac <==> a == 0xac && b == 0x27 && c
            == 0x68 && d == 0xd5,
{
    let w = a + 256 * b + 65536 * c + 16777216 * d;
    assert(w % 256 == a);
    assert(w / 256 == b + 256 * c + 65536 * d);
    assert((w / 256) % 256 == b);
    assert(w / 256 / 256 == c + 256 * d);
    assert((w / 256 / 256) % 256 == c);
}

proof fn boot_packet()
    ensures
        message_packets(0, BOOT_CMD@).len() == 1,
        ({
            let p = message_packets(0, BOOT_CMD@)[0];
            &&& p[0] == 0x40
            &&& p[1] == 0
            &&& from_le16(p, 6) == 4
            &&& p[8] == 0xa0
            &&& p[9] == 0x80
            &&& p[10] == 0
            &&& p[11] == 0
        }),
{
    let data = BOOT_CMD@;
    assert(data.len() == 4);
    ceil_div_counts(4, 246);
    assert(ceil_div(4, 246) == 1);
    messages_are_cut_in_order(0, data, 0);
    let p = message_packets(0, data)[0];
    assert(from_le16(p, 6) == 4);
    let part = p.subrange(8, 12);
    assert(part == data.subrange(0, 4));
    assert(p[8] == part[0] && p[9] == part[1] && p[10] == part[2] && p[11] == part[3]);
    assert(data.subrange(0, 4)[0] == data[0] && data.subrange(0, 4)[1] == data[1]
        && data.subrange(0, 4)[2] == data[2] && data.subrange(0, 4)[3] == data[3]);
}

} // verus!
