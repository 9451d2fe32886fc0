//! Keyboard and trackpad behind the SPI transport: packets, messages, and the
//! input events of reports.

use crate::arith::ceil_div;
use crate::bytes::{from_le16, from_le32, le16, push_bytes, push_le16, push_zeros, read_le16, read_le32};
use crate::ports::hid::{
    got_bytes, HidBus, HidHost, HidHostPort, HidOp, HidPort, HidQuery, SpiError,
};
use vstd::prelude::*;

verus! {

pub const PACKET_SIZE: usize = 256;

pub const MAX_PAYLOAD: usize = 246;

pub const DEVICE_MGMT: u8 = 0x00;

pub const DEVICE_KEYBOARD: u8 = 0x01;

pub const DEVICE_TRACKPAD: u8 = 0x02;

pub const DEVICE_INFO: u8 = 0xd0;

pub const FLAG_WRITE: u8 = 0x40;

pub const FLAG_READ: u8 = 0x20;

pub const BOOT_CMD: [u8; 4] = [0xa0, 0x80, 0x00, 0x00];

pub const STATUS_OK: u32 = 0xd568_27ac;

pub const SPI_DELAY_US: u64 = 200;

pub const KEY_0: u16 = 11;

pub const KEY_1: u16 = 2;

pub const KEY_2: u16 = 3;

pub const KEY_3: u16 = 4;

pub const KEY_4: u16 = 5;

pub const KEY_5: u16 = 6;

pub const KEY_6: u16 = 7;

pub const KEY_7: u16 = 8;

pub const KEY_8: u16 = 9;

pub const KEY_9: u16 = 10;

pub const KEY_A: u16 = 30;

pub const KEY_B: u16 = 48;

pub const KEY_C: u16 = 46;

pub const KEY_D: u16 = 32;

pub const KEY_E: u16 = 18;

pub const KEY_F: u16 = 33;

pub const KEY_G: u16 = 34;

pub const KEY_H: u16 = 35;

pub const KEY_I: u16 = 23;

pub const KEY_J: u16 = 36;

pub const KEY_K: u16 = 37;

pub const KEY_L: u16 = 38;

pub const KEY_M: u16 = 50;

pub const KEY_N: u16 = 49;

pub const KEY_O: u16 = 24;

pub const KEY_P: u16 = 25;

pub const KEY_Q: u16 = 16;

pub const KEY_R: u16 = 19;

pub const KEY_S: u16 = 31;

pub const KEY_T: u16 = 20;

pub const KEY_U: u16 = 22;

pub const KEY_V: u16 = 47;

pub const KEY_W: u16 = 17;

pub const KEY_X: u16 = 45;

pub const KEY_Y: u16 = 21;

pub const KEY_Z: u16 = 44;

pub const KEY_ENTER: u16 = 28;

pub const KEY_ESC: u16 = 1;

pub const KEY_BACKSPACE: u16 = 14;

pub const KEY_TAB: u16 = 15;

pub const KEY_SPACE: u16 = 57;

pub const KEY_F1: u16 = 59;

pub const KEY_F2: u16 = 60;

pub const KEY_F3: u16 = 61;

pub const KEY_F4: u16 = 62;

pub const KEY_F5: u16 = 63;

pub const KEY_F6: u16 = 64;

pub const KEY_F7: u16 = 65;

pub const KEY_F8: u16 = 66;

pub const KEY_F9: u16 = 67;

pub const KEY_F10: u16 = 68;

pub const KEY_F11: u16 = 87;

pub const KEY_F12: u16 = 88;

pub const KEY_LEFTCTRL: u16 = 29;

pub const KEY_LEFTSHIFT: u16 = 42;

pub const KEY_LEFTALT: u16 = 56;

pub const KEY_LEFTMETA: u16 = 125;

pub const KEY_RIGHTCTRL: u16 = 97;

pub const KEY_RIGHTSHIFT: u16 = 54;

pub const KEY_RIGHTALT: u16 = 100;

pub const KEY_RIGHTMETA: u16 = 126;

pub const KEY_RIGHT: u16 = 106;

pub const KEY_LEFT: u16 = 105;

pub const KEY_DOWN: u16 = 108;

pub const KEY_UP: u16 = 103;

/// Key codes of HID usages.
pub const HID_KEYS: [(u8, u16); 65] = [
    (0x04, KEY_A),
    (0x05, KEY_B),
    (0x06, KEY_C),
    (0x07, KEY_D),
    (0x08, KEY_E),
    (0x09, KEY_F),
    (0x0a, KEY_G),
    (0x0b, KEY_H),
    (0x0c, KEY_I),
    (0x0d, KEY_J),
    (0x0e, KEY_K),
    (0x0f, KEY_L),
    (0x10, KEY_M),
    (0x11, KEY_N),
    (0x12, KEY_O),
    (0x13, KEY_P),
    (0x14, KEY_Q),
    (0x15, KEY_R),
    (0x16, KEY_S),
    (0x17, KEY_T),
    (0x18, KEY_U),
    (0x19, KEY_V),
    (0x1a, KEY_W),
    (0x1b, KEY_X),
    (0x1c, KEY_Y),
    (0x1d, KEY_Z),
    (0x1e, KEY_1),
    (0x1f, KEY_2),
    (0x20, KEY_3),
    (0x21, KEY_4),
    (0x22, KEY_5),
    (0x23, KEY_6),
    (0x24, KEY_7),
    (0x25, KEY_8),
    (0x26, KEY_9),
    (0x27, KEY_0),
    (0x28, KEY_ENTER),
    (0x29, KEY_ESC),
    (0x2a, KEY_BACKSPACE),
    (0x2b, KEY_TAB),
    (0x2c, KEY_SPACE),
    (0x3a, KEY_F1),
    (0x3b, KEY_F2),
    (0x3c, KEY_F3),
    (0x3d, KEY_F4),
    (0x3e, KEY_F5),
    (0x3f, KEY_F6),
    (0x40, KEY_F7),
    (0x41, KEY_F8),
    (0x42, KEY_F9),
    (0x43, KEY_F10),
    (0x44, KEY_F11),
    (0x45, KEY_F12),
    (0x4f, KEY_RIGHT),
    (0x50, KEY_LEFT),
    (0x51, KEY_DOWN),
    (0x52, KEY_UP),
    (0xe0, KEY_LEFTCTRL),
    (0xe1, KEY_LEFTSHIFT),
    (0xe2, KEY_LEFTALT),
    (0xe3, KEY_LEFTMETA),
    (0xe4, KEY_RIGHTCTRL),
    (0xe5, KEY_RIGHTSHIFT),
    (0xe6, KEY_RIGHTALT),
    (0xe7, KEY_RIGHTMETA),
];

/// The key code of the first table row from `from` on with a usage.
pub open spec fn key_from(usage: u8, from: int) -> Option<u16>
    decreases HID_KEYS@.len() - from,
{
    if from < 0 || from >= HID_KEYS@.len() {
        None
    } else if HID_KEYS@[from].0 == usage {
        Some(HID_KEYS@[from].1)
    } else {
        key_from(usage, from + 1)
    }
}

/// The key code of a HID usage.
pub open spec fn key_of(usage: u8) -> Option<u16> {
    key_from(usage, 0)
}

pub fn hid_usage_to_key(usage: u8) -> (r: Option<u16>)
    ensures
        r == key_of(usage),
{
    let mut i: usize = 0;
    while i < HID_KEYS.len()
        invariant
            i <= HID_KEYS@.len(),
            key_from(usage, 0) == key_from(usage, i as int),
        decreases HID_KEYS@.len() - i,
    {
        if HID_KEYS[i].0 == usage {
            return Some(HID_KEYS[i].1);
        }
        i = i + 1;
    }
    None
}

/// One bit through the CRC register.
pub open spec fn crc_bit(crc: u16) -> u16 {
    if crc & 0x8000 != 0 {
        (crc << 1) ^ 0x1021
    } else {
        crc << 1
    }
}

/// A number of bits through the CRC register.
pub open spec fn crc_bits(crc: u16, n: nat) -> u16
    decreases n,
{
    if n == 0 {
        crc
    } else {
        crc_bit(crc_bits(crc, (n - 1) as nat))
    }
}

/// The CRC of a run of bytes: the polynomial 0x1021, from all ones, high bit
/// first.
pub open spec fn crc_of(data: Seq<u8>) -> u16
    decreases data.len(),
{
    if data.len() == 0 {
        0xffff
    } else {
        crc_bits(crc_of(data.drop_last()) ^ ((data.last() as u16) << 8), 8)
    }
}

pub fn crc16_ccitt(data: &[u8]) -> (r: u16)
    ensures
        r == crc_of(data@),
{
    let mut crc: u16 = 0xffff;
    let mut i: usize = 0;
    while i < data.len()
        invariant
            i <= data@.len(),
            crc == crc_of(data@.take(i as int)),
        decreases data@.len() - i,
    {
        let ghost before = crc;
        crc = crc ^ ((data[i] as u16) << 8);
        let ghost start = crc;
        let mut bit: u8 = 0;
        while bit < 8
            invariant
                bit <= 8,
                crc == crc_bits(start, bit as nat),
            decreases 8 - bit,
        {
            if crc & 0x8000 != 0 {
                crc = (crc << 1) ^ 0x1021;
            } else {
                crc = crc << 1;
            }
            bit = bit + 1;
        }
        assert(data@.take(i + 1).drop_last() =~= data@.take(i as int));
        i = i + 1;
    }
    assert(data@.take(data@.len() as int) =~= data@);
    crc
}

/// The payload that a packet takes of some data.
pub open spec fn payload_of(data: Seq<u8>) -> Seq<u8> {
    if data.len() <= 246 {
        data
    } else {
        data.take(246)
    }
}

/// A packet in front of its CRC: flags, device, offset, what remains, length,
/// and the payload filled up with zeros.
pub open spec fn packet_body(
    flags: u8,
    device_id: u8,
    offset: u16,
    remain: u16,
    length: u16,
    data: Seq<u8>,
) -> Seq<u8> {
    let payload = payload_of(data);
    seq![flags, device_id] + le16(offset) + le16(remain) + le16(length) + payload + Seq::new(
        (246 - payload.len()) as nat,
        |i: int| 0u8,
    )
}

/// A packet with its CRC.
pub open spec fn packet_of(
    flags: u8,
    device_id: u8,
    offset: u16,
    remain: u16,
    length: u16,
    data: Seq<u8>,
) -> Seq<u8> {
    let body = packet_body(flags, device_id, offset, remain, length, data);
    body + le16(crc_of(body))
}

pub fn build_packet(
    flags: u8,
    device_id: u8,
    offset: u16,
    remain: u16,
    length: u16,
    data: &[u8],
) -> (packet: Vec<u8>)
    ensures
        packet@ == packet_of(flags, device_id, offset, remain, length, data@),
        packet@.len() == 256,
{
    let mut packet: Vec<u8> = Vec::new();
    let payload_len: usize = if data.len() <= MAX_PAYLOAD {
        data.len()
    } else {
        MAX_PAYLOAD
    };
    packet.push(flags);
    packet.push(device_id);
    push_le16(&mut packet, offset);
    push_le16(&mut packet, remain);
    push_le16(&mut packet, length);
    let payload = crate::bytes::copy_range(data, 0, payload_len);
    assert(payload@ =~= payload_of(data@));
    push_bytes(&mut packet, payload.as_slice());
    push_zeros(&mut packet, MAX_PAYLOAD - payload_len);
    assert(packet@ =~= packet_body(flags, device_id, offset, remain, length, data@));
    let crc: u16 = crc16_ccitt(packet.as_slice());
    push_le16(&mut packet, crc);
    packet
}

/// One packet sent: a wait follows where the bus took it.
pub open spec fn send_ops(cs: u8, packet: Seq<u8>, reply: Result<(), SpiError>) -> Seq<HidOp> {
    if reply is Ok {
        seq![HidOp::Write { cs, data: packet, reply }, HidOp::Delay { us: 200 }]
    } else {
        seq![HidOp::Write { cs, data: packet, reply }]
    }
}

/// Packets sent one behind the other.
pub open spec fn sent_ops(cs: u8, packets: Seq<Seq<u8>>) -> Seq<HidOp>
    decreases packets.len(),
{
    if packets.len() == 0 {
        Seq::empty()
    } else {
        sent_ops(cs, packets.drop_last()) + send_ops(cs, packets.last(), Ok(()))
    }
}

/// A number of bytes of a message in its packet with number `i`.
pub open spec fn chunk_len(total: int, i: int) -> int {
    if total - 246 * i <= 246 {
        total - 246 * i
    } else {
        246
    }
}

/// One packet of a message.
pub open spec fn message_packet(device_id: u8, data: Seq<u8>, i: int) -> Seq<u8> {
    let len = chunk_len(data.len() as int, i);
    packet_of(
        0x40,
        device_id,
        (246 * i) as u16,
        (data.len() - 246 * i - len) as u16,
        len as u16,
        data.subrange(246 * i, 246 * i + len),
    )
}

/// The packets of a message: one empty packet for no data at all.
pub open spec fn message_packets(device_id: u8, data: Seq<u8>) -> Seq<Seq<u8>> {
    if data.len() == 0 {
        seq![packet_of(0x40, device_id, 0, 0, 0, Seq::empty())]
    } else {
        Seq::new(ceil_div(data.len() as int, 246) as nat, |i: int| message_packet(device_id, data, i))
    }
}

/// Packets were sent in order up to the first that failed.
pub open spec fn sent(
    log: (Seq<HidOp>, Seq<HidOp>),
    cs: u8,
    packets: Seq<Seq<u8>>,
    r: Result<(), SpiError>,
) -> bool {
    &&& r is Ok ==> log.1 == log.0 + sent_ops(cs, packets)
    &&& r is Err ==> exists|n: int| #[trigger] send_stopped(log, cs, packets, r->Err_0, n)
}

/// The packet with number `n` was the first that failed.
pub open spec fn send_stopped(
    log: (Seq<HidOp>, Seq<HidOp>),
    cs: u8,
    packets: Seq<Seq<u8>>,
    e: SpiError,
    n: int,
) -> bool {
    &&& 0 <= n < packets.len()
    &&& log.1 == log.0 + sent_ops(cs, packets.take(n)) + send_ops(cs, packets[n], Err(e))
}

/// What a packet that was read holds, and whether more follow.
#[verifier::opaque]
pub open spec fn accepted(packet: Seq<u8>) -> Result<(Seq<u8>, bool), SpiError> {
    if packet.len() != 256 {
        Err(SpiError::BusError)
    } else if crc_of(packet.take(254)) != from_le16(packet, 254) {
        Err(SpiError::BusError)
    } else if from_le16(packet, 6) > 246 {
        Err(SpiError::InvalidArg)
    } else {
        Ok((packet.subrange(8, 8 + from_le16(packet, 6)), from_le16(packet, 4) != 0))
    }
}

/// A result of `accept_packet` as contracts speak of it.
pub open spec fn part_view(r: Result<(Vec<u8>, bool), SpiError>) -> Result<
    (Seq<u8>, bool),
    SpiError,
> {
    match r {
        Ok((payload, more)) => Ok((payload@, more)),
        Err(e) => Err(e),
    }
}

/// Checks a packet that was read; returns what it holds, and whether more
/// follow.
pub fn accept_packet(packet: &[u8]) -> (r: Result<(Vec<u8>, bool), SpiError>)
    ensures
        part_view(r) == accepted(packet@),
{
    proof {
        reveal(accepted);
    }
    if packet.len() != PACKET_SIZE {
        return Err(SpiError::BusError);
    }
    let body = crate::bytes::copy_range(packet, 0, 254);
    assert(body@ =~= packet@.take(254));
    let expected: u16 = crc16_ccitt(body.as_slice());
    if expected != read_le16(packet, 254) {
        return Err(SpiError::BusError);
    }
    let length: usize = read_le16(packet, 6) as usize;
    if length > MAX_PAYLOAD {
        return Err(SpiError::InvalidArg);
    }
    let payload = crate::bytes::copy_range(packet, 8, 8 + length);
    assert(payload@ =~= packet@.subrange(8, 8 + length));
    Ok((payload, read_le16(packet, 4) != 0))
}

/// One packet read: a wait follows where the bus gave one.
pub open spec fn read_ops(cs: u8, got: Result<Seq<u8>, SpiError>) -> Seq<HidOp> {
    if got is Ok {
        seq![HidOp::Read { cs, len: 256, got }, HidOp::Delay { us: 200 }]
    } else {
        seq![HidOp::Read { cs, len: 256, got }]
    }
}

/// Packets read one behind the other.
pub open spec fn reads_ops(cs: u8, packets: Seq<Seq<u8>>) -> Seq<HidOp>
    decreases packets.len(),
{
    if packets.len() == 0 {
        Seq::empty()
    } else {
        reads_ops(cs, packets.drop_last()) + read_ops(cs, Ok(packets.last()))
    }
}

/// What packets hold together, where every one of them is sound and says that
/// more follow.
pub open spec fn gathered(packets: Seq<Seq<u8>>) -> Option<Seq<u8>>
    decreases packets.len(),
{
    if packets.len() == 0 {
        Some(Seq::empty())
    } else {
        match (gathered(packets.drop_last()), accepted(packets.last())) {
            (Some(front), Ok((more, true))) => Some(front + more),
            _ => None,
        }
    }
}

/// What the last reply makes of a message that was gathered.
pub open spec fn message_from(front: Seq<u8>, got: Result<Seq<u8>, SpiError>) -> Result<
    Seq<u8>,
    SpiError,
> {
    match got {
        Err(e) => Err(e),
        Ok(packet) => match accepted(packet) {
            Err(e) => Err(e),
            Ok((more, _)) => Ok(front + more),
        },
    }
}

/// A message was read: `packets` that say that more follow, then `last`, which
/// ends it. Reading is given up behind more packets than can be counted.
pub open spec fn received_as(
    log: (Seq<HidOp>, Seq<HidOp>),
    cs: u8,
    r: Result<Seq<u8>, SpiError>,
    packets: Seq<Seq<u8>>,
    last: Result<Seq<u8>, SpiError>,
) -> bool {
    &&& gathered(packets) is Some
    &&& if packets.len() == u64::MAX {
        &&& log.1 == log.0 + reads_ops(cs, packets)
        &&& r == Err::<Seq<u8>, SpiError>(SpiError::BusError)
    } else {
        &&& log.1 == log.0 + reads_ops(cs, packets) + read_ops(cs, last)
        &&& last is Ok && accepted(last->Ok_0) is Ok ==> !(accepted(last->Ok_0)->Ok_0).1
        &&& r == message_from(gathered(packets)->0, last)
    }
}

/// A message was read, or not, for a stated reason.
pub open spec fn received(log: (Seq<HidOp>, Seq<HidOp>), cs: u8, r: Result<Seq<u8>, SpiError>) -> bool {
    exists|packets: Seq<Seq<u8>>, last: Result<Seq<u8>, SpiError>| #[trigger]
        received_as(log, cs, r, packets, last)
}

/// A read was asked for and answered.
pub open spec fn answered_from(
    log: (Seq<HidOp>, Seq<HidOp>),
    cs: u8,
    device_id: u8,
    r: Result<Seq<u8>, SpiError>,
    reply: Result<(), SpiError>,
) -> bool {
    let asked = log.0 + send_ops(cs, packet_of(0x20, device_id, 0, 0, 0, Seq::empty()), reply);
    if reply is Err {
        log.1 == asked && r == Err::<Seq<u8>, SpiError>(reply->Err_0)
    } else {
        received((asked, log.1), cs, r)
    }
}

/// A read was asked for, or not, for a stated reason.
pub open spec fn answered(
    log: (Seq<HidOp>, Seq<HidOp>),
    cs: u8,
    device_id: u8,
    r: Result<Seq<u8>, SpiError>,
) -> bool {
    exists|reply: Result<(), SpiError>| #[trigger] answered_from(log, cs, device_id, r, reply)
}

/// Why bringing the transport up failed.
#[derive(Clone, Copy, Debug, PartialEq, Eq, Structural)]
pub enum HidError {
    BootSend,
    BootResponse,
    InfoRead,
    NotReady,
}

/// The message for an error.
pub open spec fn hid_message(error: HidError) -> Seq<char> {
    match error {
        HidError::BootSend => "apple-spi-hid: boot command send failed"@,
        HidError::BootResponse => "apple-spi-hid: boot response read failed"@,
        HidError::InfoRead => "apple-spi-hid: device info read failed"@,
        HidError::NotReady => "apple-spi-hid: device status not ready"@,
    }
}

impl HidError {
    pub fn message(self) -> (r: &'static str)
        ensures
            r@ == hid_message(self),
    {
        match self {
            HidError::BootSend => "apple-spi-hid: boot command send failed",
            HidError::BootResponse => "apple-spi-hid: boot response read failed",
            HidError::InfoRead => "apple-spi-hid: device info read failed",
            HidError::NotReady => "apple-spi-hid: device status not ready",
        }
    }
}

/// An input event.
#[derive(Clone, Copy, Debug, PartialEq, Eq, Structural)]
pub enum InputEvent {
    /// A key went down or up.
    Key { code: u16, pressed: bool },
    /// The left or right button went down or up.
    Button { right: bool, pressed: bool },
    /// The pointer moved.
    Motion { vertical: bool, delta: i32 },
    /// The report is complete.
    Sync,
}

/// A modifier key of a report.
pub open spec fn modifier_held(modifiers: u8, n: int) -> bool {
    modifiers & (1u8 << (n as u8)) != 0
}

/// The event of a usage, where it has a key.
pub open spec fn key_event(usage: u8, pressed: bool) -> Seq<InputEvent> {
    match key_of(usage) {
        Some(code) => seq![InputEvent::Key { code, pressed }],
        None => Seq::empty(),
    }
}

/// Changes of the first `n` modifiers.
pub open spec fn modifier_events(before: u8, after: u8, n: int) -> Seq<InputEvent>
    decreases n,
{
    if n <= 0 {
        Seq::empty()
    } else {
        modifier_events(before, after, n - 1) + (if modifier_held(before, n - 1) != modifier_held(
            after,
            n - 1,
        ) {
            key_event((0xe0 + n - 1) as u8, modifier_held(after, n - 1))
        } else {
            Seq::empty()
        })
    }
}

/// Events of the first `n` of some keys that are not among others.
pub open spec fn difference_events(keys: Seq<u8>, others: Seq<u8>, pressed: bool, n: int) -> Seq<
    InputEvent,
>
    decreases n,
{
    if n <= 0 {
        Seq::empty()
    } else {
        difference_events(keys, others, pressed, n - 1) + (if keys[n - 1] != 0 && !others.contains(
            keys[n - 1],
        ) {
            key_event(keys[n - 1], pressed)
        } else {
            Seq::empty()
        })
    }
}

/// All key changes between two reports: modifiers, then keys let go, then keys
/// pressed.
pub open spec fn key_changes(
    old_modifiers: u8,
    old_keys: Seq<u8>,
    new_modifiers: u8,
    new_keys: Seq<u8>,
) -> Seq<InputEvent> {
    modifier_events(old_modifiers, new_modifiers, 8) + difference_events(
        old_keys,
        new_keys,
        false,
        old_keys.len() as int,
    ) + difference_events(new_keys, old_keys, true, new_keys.len() as int)
}

/// A byte as a signed movement.
pub open spec fn movement(byte: u8) -> int {
    if byte < 128 {
        byte as int
    } else {
        byte - 256
    }
}

/// The event of a button that changed.
pub open spec fn button_event(before: u8, after: u8, right: bool) -> Seq<InputEvent> {
    let mask: u8 = if right {
        2
    } else {
        1
    };
    if (before & mask != 0) != (after & mask != 0) {
        seq![InputEvent::Button { right, pressed: after & mask != 0 }]
    } else {
        Seq::empty()
    }
}

/// The event of a movement that is not zero.
pub open spec fn motion_event(byte: u8, vertical: bool) -> Seq<InputEvent> {
    if byte != 0 {
        seq![InputEvent::Motion { vertical, delta: movement(byte) as i32 }]
    } else {
        Seq::empty()
    }
}

/// The events of a trackpad report.
pub open spec fn trackpad_events(buttons: u8, report: Seq<u8>) -> Seq<InputEvent> {
    button_event(buttons, report[0], false) + button_event(buttons, report[0], true) + motion_event(
        report[1],
        false,
    ) + motion_event(report[2], true) + seq![InputEvent::Sync]
}

/// The transport of one input device.
pub struct AppleSpiHidTransport {
    pub cs: u8,
    pub device_id: u8,
    /// Power pin, where there is a controller for it.
    pub spien_pin: Option<u32>,
    /// Interrupt pin, where there is a controller for it.
    pub irq_pin: Option<u32>,
    pub last_modifiers: u8,
    pub last_keys: [u8; 6],
    pub last_buttons: u8,
}

/// What a report leaves of a device and the events that it makes.
pub open spec fn report_events(hid: AppleSpiHidTransport, report: Seq<u8>) -> Seq<InputEvent> {
    if hid.device_id == 1 && report.len() >= 8 {
        key_changes(
            hid.last_modifiers,
            hid.last_keys@,
            report[0],
            report.subrange(2, 8),
        ) + seq![InputEvent::Sync]
    } else if hid.device_id == 2 && report.len() >= 3 {
        trackpad_events(hid.last_buttons, report)
    } else {
        Seq::empty()
    }
}

/// The wiring of a device, which never changes.
pub open spec fn same_wiring(a: AppleSpiHidTransport, b: AppleSpiHidTransport) -> bool {
    &&& a.cs == b.cs
    &&& a.device_id == b.device_id
    &&& a.spien_pin == b.spien_pin
    &&& a.irq_pin == b.irq_pin
}

/// What a device remembers behind a report.
pub open spec fn report_noted(
    before: AppleSpiHidTransport,
    after: AppleSpiHidTransport,
    report: Seq<u8>,
) -> bool {
    &&& same_wiring(before, after)
    &&& if before.device_id == 1 && report.len() >= 8 {
        &&& after.last_modifiers == report[0]
        &&& after.last_keys@ == report.subrange(2, 8)
        &&& after.last_buttons == before.last_buttons
    } else if before.device_id == 2 && report.len() >= 3 {
        &&& after.last_modifiers == before.last_modifiers
        &&& after.last_keys@ == before.last_keys@
        &&& after.last_buttons == report[0]
    } else {
        &&& after.last_modifiers == before.last_modifiers
        &&& after.last_keys@ == before.last_keys@
        &&& after.last_buttons == before.last_buttons
    }
}

fn push_key(events: &mut Vec<InputEvent>, usage: u8, pressed: bool)
    ensures
        final(events)@ == old(events)@ + key_event(usage, pressed),
{
    match hid_usage_to_key(usage) {
        Some(code) => {
            events.push(InputEvent::Key { code, pressed });
        },
        None => {},
    }
}

fn holds(keys: &[u8; 6], usage: u8) -> (r: bool)
    ensures
        r == keys@.contains(usage),
{
    let mut i: usize = 0;
    while i < 6
        invariant
            i <= 6,
            forall|k: int| 0 <= k < i ==> keys@[k] != usage,
        decreases 6 - i,
    {
        if keys[i] == usage {
            assert(keys@[i as int] == usage);
            return true;
        }
        i = i + 1;
    }
    false
}

fn push_difference(events: &mut Vec<InputEvent>, keys: &[u8; 6], others: &[u8; 6], pressed: bool)
    ensures
        final(events)@ == old(events)@ + difference_events(keys@, others@, pressed, 6),
{
    let ghost start = events@;
    let mut i: usize = 0;
    while i < 6
        invariant
            i <= 6,
            events@ == start + difference_events(keys@, others@, pressed, i as int),
        decreases 6 - i,
    {
        let usage: u8 = keys[i];
        if usage != 0 && !holds(others, usage) {
            push_key(events, usage, pressed);
        }
        assert(events@ =~= start + difference_events(keys@, others@, pressed, i + 1));
        i = i + 1;
    }
}

fn signed(byte: u8) -> (r: i32)
    ensures
        r == movement(byte),
{
    if byte < 128 {
        byte as i32
    } else {
        byte as i32 - 256
    }
}

impl AppleSpiHidTransport {
    pub fn new(cs: u8, device_id: u8, spien_pin: Option<u32>, irq_pin: Option<u32>) -> (r: Self)
        ensures
            r.cs == cs,
            r.device_id == device_id,
            r.spien_pin == spien_pin,
            r.irq_pin == irq_pin,
            r.last_modifiers == 0,
            r.last_keys@ == seq![0u8, 0, 0, 0, 0, 0],
            r.last_buttons == 0,
    {
        AppleSpiHidTransport {
            cs,
            device_id,
            spien_pin,
            irq_pin,
            last_modifiers: 0,
            last_keys: [0, 0, 0, 0, 0, 0],
            last_buttons: 0,
        }
    }

    fn send_packet<B: HidBus>(&self, port: &mut HidPort<B>, packet: &[u8]) -> (r: Result<
        (),
        SpiError,
    >)
        ensures
            final(port).log() == old(port).log() + send_ops(self.cs, packet@, r),
    {
        let ghost start = port.log();
        let r = port.write(self.cs, packet);
        if let Err(_) = r {
            assert(port.log() =~= start + send_ops(self.cs, packet@, r));
            return r;
        }
        port.udelay(SPI_DELAY_US);
        assert(port.log() =~= start + send_ops(self.cs, packet@, r));
        r
    }

    /// Sends a message in as many packets as it takes.
    pub fn send_message<B: HidBus>(&self, port: &mut HidPort<B>, device_id: u8, data: &[u8]) -> (r:
        Result<(), SpiError>)
        ensures
            sent(
                (old(port).log(), final(port).log()),
                self.cs,
                message_packets(device_id, data@),
                r,
            ),
    {
        let ghost start = port.log();
        let ghost packets = message_packets(device_id, data@);
        if data.len() == 0 {
            let packet = build_packet(FLAG_WRITE, device_id, 0, 0, 0, data);
            assert(data@ =~= Seq::<u8>::empty());
            let r = self.send_packet(port, packet.as_slice());
            proof {
                assert(packets.drop_last() =~= Seq::<Seq<u8>>::empty());
                assert(packets.take(0) =~= Seq::<Seq<u8>>::empty());
                match r {
                    Ok(unit) => {
                        assert(r == Ok::<(), SpiError>(()));
                        assert(sent_ops(self.cs, packets) =~= send_ops(self.cs, packets[0], r)) by {
                            reveal_with_fuel(sent_ops, 2);
                        }
                    },
                    Err(e) => {
                        assert(port.log() =~= start + sent_ops(self.cs, packets.take(0)) + send_ops(
                            self.cs,
                            packets[0],
                            Err(e),
                        ));
                        assert(send_stopped((start, port.log()), self.cs, packets, e, 0));
                    },
                }
            }
            return r;
        }
        let total: usize = data.len();
        let ghost count = ceil_div(total as int, 246);
        proof {
            crate::arith::ceil_div_counts(total as int, 246);
        }
        let mut offset: usize = 0;
        let ghost mut n: int = 0;
        while offset < total
            invariant
                total == data@.len(),
                total > 0,
                count == ceil_div(total as int, 246),
                packets == message_packets(device_id, data@),
                packets.len() == count,
                start == old(port).log(),
                0 <= n <= count,
                offset == if n == count {
                    total as int
                } else {
                    246 * n
                },
                total <= 246 * count,
                246 * count < total + 246,
                port.log() == start + sent_ops(self.cs, packets.take(n)),
            decreases total - offset,
        {
            let left: usize = total - offset;
            let len: usize = if left <= MAX_PAYLOAD {
                left
            } else {
                MAX_PAYLOAD
            };
            let remain: usize = left - len;
            let chunk = crate::bytes::copy_range(data, offset, offset + len);
            assert(n < count);
            assert(len == chunk_len(total as int, n));
            let packet = build_packet(
                FLAG_WRITE,
                device_id,
                offset as u16,
                remain as u16,
                len as u16,
                chunk.as_slice(),
            );
            assert(packet@ == packets[n]);
            let r = self.send_packet(port, packet.as_slice());
            if let Err(e) = r {
                proof {
                    assert(send_stopped((start, port.log()), self.cs, packets, e, n));
                }
                return Err(e);
            }
            proof {
                match r {
                    Ok(unit) => assert(r == Ok::<(), SpiError>(())),
                    Err(_) => {},
                }
                assert(packets.take(n + 1).drop_last() =~= packets.take(n));
                assert(port.log() =~= start + sent_ops(self.cs, packets.take(n + 1)));
                n = n + 1;
            }
            offset = offset + len;
        }
        assert(packets.take(n) =~= packets);
        Ok(())
    }

    /// Reads packets until one says that nothing remains.
    pub fn recv_message<B: HidBus>(&self, port: &mut HidPort<B>) -> (r: Result<Vec<u8>, SpiError>)
        ensures
            received((old(port).log(), final(port).log()), self.cs, got_bytes(r)),
    {
        let ghost start = port.log();
        let mut message: Vec<u8> = Vec::new();
        let mut polls: u64 = 0;
        let ghost mut packets: Seq<Seq<u8>> = Seq::empty();
        let ghost nothing: Result<Seq<u8>, SpiError> = Err(SpiError::BusError);
        assert(port.log() =~= start + reads_ops(self.cs, packets));
        while polls < u64::MAX
            invariant
                start == old(port).log(),
                packets.len() == polls,
                gathered(packets) == Some(message@),
                port.log() == start + reads_ops(self.cs, packets),
            decreases u64::MAX - polls,
        {
            let got = port.read(self.cs, PACKET_SIZE);
            let packet = match got {
                Ok(packet) => packet,
                Err(e) => {
                    let r: Result<Vec<u8>, SpiError> = Err(e);
                    proof {
                        let last: Result<Seq<u8>, SpiError> = Err(e);
                        assert(port.log() =~= start + reads_ops(self.cs, packets) + read_ops(
                            self.cs,
                            last,
                        ));
                        assert(received_as(
                            (start, port.log()),
                            self.cs,
                            got_bytes(r),
                            packets,
                            last,
                        ));
                    }
                    return r;
                },
            };
            port.udelay(SPI_DELAY_US);
            let ghost last: Result<Seq<u8>, SpiError> = Ok(packet@);
            assert(port.log() =~= start + reads_ops(self.cs, packets) + read_ops(self.cs, last));
            let (payload, follows): (Vec<u8>, bool) = match accept_packet(packet.as_slice()) {
                Ok(part) => part,
                Err(e) => {
                    let r: Result<Vec<u8>, SpiError> = Err(e);
                    assert(received_as((start, port.log()), self.cs, got_bytes(r), packets, last));
                    return r;
                },
            };
            push_bytes(&mut message, payload.as_slice());
            if !follows {
                let r: Result<Vec<u8>, SpiError> = Ok(message);
                assert(received_as((start, port.log()), self.cs, got_bytes(r), packets, last));
                return r;
            }
            proof {
                let more = packets.push(packet@);
                assert(more.drop_last() =~= packets);
                assert(reads_ops(self.cs, more) =~= reads_ops(self.cs, packets) + read_ops(
                    self.cs,
                    last,
                ));
                assert(port.log() =~= start + reads_ops(self.cs, more));
                packets = more;
            }
            polls = polls + 1;
        }
        let r: Result<Vec<u8>, SpiError> = Err(SpiError::BusError);
        assert(received_as((start, port.log()), self.cs, got_bytes(r), packets, nothing));
        r
    }

    /// Asks a device for a message and reads it.
    pub fn request_read<B: HidBus>(&self, port: &mut HidPort<B>, device_id: u8) -> (r: Result<
        Vec<u8>,
        SpiError,
    >)
        ensures
            answered((old(port).log(), final(port).log()), self.cs, device_id, got_bytes(r)),
    {
        let ghost start = port.log();
        let none: [u8; 0] = [];
        let packet = build_packet(FLAG_READ, device_id, 0, 0, 0, &none);
        assert(none@ =~= Seq::<u8>::empty());
        let reply = self.send_packet(port, packet.as_slice());
        if let Err(e) = reply {
            let r: Result<Vec<u8>, SpiError> = Err(e);
            assert(answered_from((start, port.log()), self.cs, device_id, got_bytes(r), reply));
            return r;
        }
        let r = self.recv_message(port);
        assert(answered_from((start, port.log()), self.cs, device_id, got_bytes(r), reply));
        r
    }

    /// Powers the device and brings the transport up.
    pub fn initialize<B: HidBus>(&self, port: &mut HidPort<B>) -> (r: Result<(), HidError>)
        ensures
            brought_up(*self, (old(port).log(), final(port).log()), r),
    {
        let ghost start = port.log();
        if let Some(pin) = self.spien_pin {
            port.set_direction_output(pin, true);
            port.set_value(pin, true);
        }
        port.udelay(100_000);
        if let Some(pin) = self.irq_pin {
            port.set_direction_input(pin);
        }
        let ghost l0 = port.log();
        assert(l0 =~= start + pin_ops(*self));
        let ghost empty: Result<Seq<u8>, SpiError> = Err(SpiError::BusError);
        let boot = self.send_message(port, DEVICE_MGMT, &BOOT_CMD);
        let ghost l1 = port.log();
        if let Err(_) = boot {
            let r: Result<(), HidError> = Err(HidError::BootSend);
            assert(brought_up_by(
                *self,
                (start, port.log()),
                r,
                (l1, l1, l1, l1),
                boot,
                (empty, empty, empty, empty),
            ));
            return r;
        }
        let response = self.recv_message(port);
        let ghost l2 = port.log();
        let ghost response_view = got_bytes(response);
        if let Err(_) = response {
            let r: Result<(), HidError> = Err(HidError::BootResponse);
            assert(brought_up_by(
                *self,
                (start, port.log()),
                r,
                (l1, l2, l2, l2),
                boot,
                (response_view, empty, empty, empty),
            ));
            return r;
        }
        let answer = self.request_read(port, DEVICE_INFO);
        let ghost l3 = port.log();
        let ghost info_view = got_bytes(answer);
        let info = match answer {
            Ok(info) => info,
            Err(_) => {
                let r: Result<(), HidError> = Err(HidError::InfoRead);
                assert(brought_up_by(
                    *self,
                    (start, port.log()),
                    r,
                    (l1, l2, l3, l3),
                    boot,
                    (response_view, info_view, empty, empty),
                ));
                return r;
            },
        };
        if info.len() >= 4 {
            let status: u32 = read_le32(info.as_slice(), 0);
            if status != STATUS_OK {
                let r: Result<(), HidError> = Err(HidError::NotReady);
                assert(brought_up_by(
                    *self,
                    (start, port.log()),
                    r,
                    (l1, l2, l3, l3),
                    boot,
                    (response_view, info_view, empty, empty),
                ));
                return r;
            }
        }
        let keyboard = self.request_read(port, DEVICE_KEYBOARD);
        let ghost l4 = port.log();
        let trackpad = self.request_read(port, DEVICE_TRACKPAD);
        let r: Result<(), HidError> = Ok(());
        assert(brought_up_by(
            *self,
            (start, port.log()),
            r,
            (l1, l2, l3, l4),
            boot,
            (response_view, info_view, got_bytes(keyboard), got_bytes(trackpad)),
        ));
        r
    }

    /// The events of the key changes since the last report, which are then
    /// remembered.
    fn emit_key_changes(&mut self, new_modifiers: u8, new_keys: [u8; 6], events: &mut Vec<InputEvent>)
        ensures
            same_wiring(*old(self), *final(self)),
            final(self).last_modifiers == new_modifiers,
            final(self).last_keys@ == new_keys@,
            final(self).last_buttons == old(self).last_buttons,
            final(events)@ == old(events)@ + key_changes(
                old(self).last_modifiers,
                old(self).last_keys@,
                new_modifiers,
                new_keys@,
            ),
    {
        let ghost start = events@;
        let mut n: u8 = 0;
        while n < 8
            invariant
                n <= 8,
                events@ == start + modifier_events(self.last_modifiers, new_modifiers, n as int),
            decreases 8 - n,
        {
            let was = self.last_modifiers & (1u8 << n) != 0;
            let is = new_modifiers & (1u8 << n) != 0;
            if was != is {
                push_key(events, 0xe0 + n, is);
            }
            assert(events@ =~= start + modifier_events(
                self.last_modifiers,
                new_modifiers,
                n + 1,
            ));
            n = n + 1;
        }
        push_difference(events, &self.last_keys, &new_keys, false);
        push_difference(events, &new_keys, &self.last_keys, true);
        assert(events@ =~= start + key_changes(
            self.last_modifiers,
            self.last_keys@,
            new_modifiers,
            new_keys@,
        ));
        self.last_modifiers = new_modifiers;
        self.last_keys = new_keys;
    }

    fn handle_keyboard_report(&mut self, report: &[u8], events: &mut Vec<InputEvent>)
        requires
            report@.len() >= 8,
        ensures
            same_wiring(*old(self), *final(self)),
            final(self).last_modifiers == report@[0],
            final(self).last_keys@ == report@.subrange(2, 8),
            final(self).last_buttons == old(self).last_buttons,
            final(events)@ == old(events)@ + key_changes(
                old(self).last_modifiers,
                old(self).last_keys@,
                report@[0],
                report@.subrange(2, 8),
            ) + seq![InputEvent::Sync],
    {
        let keys: [u8; 6] = [
            report[2],
            report[3],
            report[4],
            report[5],
            report[6],
            report[7],
        ];
        assert(keys@ =~= report@.subrange(2, 8));
        self.emit_key_changes(report[0], keys, events);
        events.push(InputEvent::Sync);
    }

    fn handle_trackpad_report(&mut self, report: &[u8], events: &mut Vec<InputEvent>)
        requires
            report@.len() >= 3,
        ensures
            same_wiring(*old(self), *final(self)),
            final(self).last_modifiers == old(self).last_modifiers,
            final(self).last_keys@ == old(self).last_keys@,
            final(self).last_buttons == report@[0],
            final(events)@ == old(events)@ + trackpad_events(old(self).last_buttons, report@),
    {
        let ghost start = events@;
        let buttons: u8 = report[0];
        let left_was = self.last_buttons & 1 != 0;
        let left_is = buttons & 1 != 0;
        if left_was != left_is {
            events.push(InputEvent::Button { right: false, pressed: left_is });
        }
        let right_was = self.last_buttons & 2 != 0;
        let right_is = buttons & 2 != 0;
        if right_was != right_is {
            events.push(InputEvent::Button { right: true, pressed: right_is });
        }
        let dx: i32 = signed(report[1]);
        let dy: i32 = signed(report[2]);
        if dx != 0 {
            events.push(InputEvent::Motion { vertical: false, delta: dx });
        }
        if dy != 0 {
            events.push(InputEvent::Motion { vertical: true, delta: dy });
        }
        self.last_buttons = buttons;
        events.push(InputEvent::Sync);
        assert(events@ =~= start + trackpad_events(old(self).last_buttons, report@));
    }

    /// Turns a report into input events.
    pub fn handle_input_report(&mut self, report: &[u8]) -> (events: Vec<InputEvent>)
        ensures
            report_noted(*old(self), *final(self), report@),
            events@ == report_events(*old(self), report@),
    {
        let mut events: Vec<InputEvent> = Vec::new();
        if self.device_id == DEVICE_KEYBOARD && report.len() >= 8 {
            self.handle_keyboard_report(report, &mut events);
            assert(events@ =~= report_events(*old(self), report@));
        } else if self.device_id == DEVICE_TRACKPAD && report.len() >= 3 {
            self.handle_trackpad_report(report, &mut events);
            assert(events@ =~= report_events(*old(self), report@));
        }
        events
    }

    /// Reads a report and turns it into input events.
    pub fn handle_interrupt<B: HidBus>(&mut self, port: &mut HidPort<B>) -> (r: Result<
        Vec<InputEvent>,
        SpiError,
    >)
        ensures
            interrupt_handled(
                *old(self),
                *final(self),
                (old(port).log(), final(port).log()),
                r,
            ),
    {
        let ghost before = *self;
        let ghost start = port.log();
        let report = self.recv_message(port);
        let ghost view = got_bytes(report);
        match report {
            Ok(report) => {
                let events = self.handle_input_report(report.as_slice());
                let r: Result<Vec<InputEvent>, SpiError> = Ok(events);
                assert(interrupt_from(before, *self, (start, port.log()), r, view));
                r
            },
            Err(e) => {
                let r: Result<Vec<InputEvent>, SpiError> = Err(e);
                assert(interrupt_from(before, *self, (start, port.log()), r, view));
                r
            },
        }
    }
}

/// The pins and the wait of bringing a device up.
pub open spec fn pin_ops(hid: AppleSpiHidTransport) -> Seq<HidOp> {
    (match hid.spien_pin {
        Some(pin) => seq![HidOp::Output { pin, value: true }, HidOp::Value { pin, value: true }],
        None => Seq::empty(),
    }) + seq![HidOp::Delay { us: 100_000 }] + (match hid.irq_pin {
        Some(pin) => seq![HidOp::Input { pin }],
        None => Seq::empty(),
    })
}

/// A device that answers whether it is ready is.
pub open spec fn info_ready(info: Seq<u8>) -> bool {
    info.len() >= 4 ==> from_le32(info, 0) == 0xd568_27ac
}

/// The steps of bringing a device up, up to the first that fails: the boot
/// command and its response, the device information, and the two input devices,
/// whose answers do not matter.
pub open spec fn brought_up_by(
    hid: AppleSpiHidTransport,
    log: (Seq<HidOp>, Seq<HidOp>),
    r: Result<(), HidError>,
    marks: (Seq<HidOp>, Seq<HidOp>, Seq<HidOp>, Seq<HidOp>),
    boot: Result<(), SpiError>,
    answers: (
        Result<Seq<u8>, SpiError>,
        Result<Seq<u8>, SpiError>,
        Result<Seq<u8>, SpiError>,
        Result<Seq<u8>, SpiError>,
    ),
) -> bool {
    let start = log.0 + pin_ops(hid);
    &&& sent((start, marks.0), hid.cs, message_packets(0, BOOT_CMD@), boot)
    &&& if boot is Err {
        log.1 == marks.0 && r == Err::<(), HidError>(HidError::BootSend)
    } else {
        &&& received((marks.0, marks.1), hid.cs, answers.0)
        &&& if answers.0 is Err {
            log.1 == marks.1 && r == Err::<(), HidError>(HidError::BootResponse)
        } else {
            &&& answered((marks.1, marks.2), hid.cs, 0xd0, answers.1)
            &&& if answers.1 is Err {
                log.1 == marks.2 && r == Err::<(), HidError>(HidError::InfoRead)
            } else if !info_ready(answers.1->Ok_0) {
                log.1 == marks.2 && r == Err::<(), HidError>(HidError::NotReady)
            } else {
                &&& answered((marks.2, marks.3), hid.cs, 1, answers.2)
                &&& answered((marks.3, log.1), hid.cs, 2, answers.3)
                &&& r == Ok::<(), HidError>(())
            }
        }
    }
}

/// A device was brought up, or not, for a stated reason.
pub open spec fn brought_up(
    hid: AppleSpiHidTransport,
    log: (Seq<HidOp>, Seq<HidOp>),
    r: Result<(), HidError>,
) -> bool {
    exists|
        marks: (Seq<HidOp>, Seq<HidOp>, Seq<HidOp>, Seq<HidOp>),
        boot: Result<(), SpiError>,
        answers: (
            Result<Seq<u8>, SpiError>,
            Result<Seq<u8>, SpiError>,
            Result<Seq<u8>, SpiError>,
            Result<Seq<u8>, SpiError>,
        ),
    | #[trigger]
        brought_up_by(hid, log, r, marks, boot, answers)
}

/// A report was read and turned into events, or reading failed and nothing else
/// happened.
pub open spec fn interrupt_from(
    before: AppleSpiHidTransport,
    after: AppleSpiHidTransport,
    log: (Seq<HidOp>, Seq<HidOp>),
    r: Result<Vec<InputEvent>, SpiError>,
    report: Result<Seq<u8>, SpiError>,
) -> bool {
    &&& received(log, before.cs, report)
    &&& match report {
        Ok(report) => {
            &&& r is Ok
            &&& r->Ok_0@ == report_events(before, report)
            &&& report_noted(before, after, report)
        },
        Err(e) => {
            &&& r is Err
            &&& r->Err_0 == e
            &&& after == before
        },
    }
}

/// An interrupt was handled.
pub open spec fn interrupt_handled(
    before: AppleSpiHidTransport,
    after: AppleSpiHidTransport,
    log: (Seq<HidOp>, Seq<HidOp>),
    r: Result<Vec<InputEvent>, SpiError>,
) -> bool {
    exists|report: Result<Seq<u8>, SpiError>| #[trigger]
        interrupt_from(before, after, log, r, report)
}

/// A packet that was built is accepted, with the payload that went in.
pub proof fn built_packets_are_accepted(
    flags: u8,
    device_id: u8,
    offset: u16,
    remain: u16,
    data: Seq<u8>,
)
    requires
        data.len() <= 246,
    ensures
        accepted(packet_of(flags, device_id, offset, remain, data.len() as u16, data)) == Ok::<
            (Seq<u8>, bool),
            SpiError,
        >((data, remain != 0)),
{
    reveal(accepted);
    let length = data.len() as u16;
    let body = packet_body(flags, device_id, offset, remain, length, data);
    let packet = packet_of(flags, device_id, offset, remain, length, data);
    let crc = crc_of(body);
    assert(body.len() == 254);
    assert(packet.take(254) =~= body);
    assert(packet[254] == (crc % 256) as u8 && packet[255] == (crc / 256) as u8);
    assert(from_le16(packet, 254) == crc);
    assert(packet[4] == (remain % 256) as u8 && packet[5] == (remain / 256) as u8);
    assert(packet[6] == (length % 256) as u8 && packet[7] == (length / 256) as u8);
    assert(packet.subrange(8, 8 + data.len() as int) =~= data);
}

/// The front packets of a message hold its front bytes.
#[verifier::rlimit(50)]
proof fn front_packets_gather(device_id: u8, data: Seq<u8>, n: int)
    requires
        0 < data.len() <= 0xffff,
        0 <= n,
        246 * n < data.len(),
    ensures
        gathered(message_packets(device_id, data).take(n)) == Some(data.take(246 * n)),
    decreases n,
{
    let packets = message_packets(device_id, data);
    crate::arith::ceil_div_counts(data.len() as int, 246);
    if n == 0 {
        assert(packets.take(0) =~= Seq::<Seq<u8>>::empty());
        assert(data.take(0) =~= Seq::<u8>::empty());
    } else {
        front_packets_gather(device_id, data, n - 1);
        let i = n - 1;
        let chunk = data.subrange(246 * i, 246 * i + 246);
        built_packets_are_accepted(
            0x40,
            device_id,
            (246 * i) as u16,
            (data.len() - 246 * i - 246) as u16,
            chunk,
        );
        assert(packets.take(n).drop_last() =~= packets.take(n - 1));
        assert(packets.take(n).last() == packets[i]);
        assert(data.take(246 * i) + chunk =~= data.take(246 * n));
    }
}

/// A message that was sent is read back whole, for messages whose length a
/// packet can state.
#[verifier::rlimit(50)]
pub proof fn sent_messages_are_read_back(device_id: u8, data: Seq<u8>)
    requires
        data.len() <= 0xffff,
    ensures
        ({
            let packets = message_packets(device_id, data);
            let last = packets.last();
            &&& packets.len() > 0
            &&& gathered(packets.drop_last()) is Some
            &&& accepted(last) is Ok
            &&& !(accepted(last)->Ok_0).1
            &&& message_from(gathered(packets.drop_last())->0, Ok(last)) == Ok::<
                Seq<u8>,
                SpiError,
            >(data)
        }),
{
    let packets = message_packets(device_id, data);
    if data.len() == 0 {
        built_packets_are_accepted(0x40, device_id, 0, 0, data);
        assert(data =~= Seq::<u8>::empty());
        assert(packets.drop_last() =~= Seq::<Seq<u8>>::empty());
        assert(Seq::<u8>::empty() + data =~= data);
    } else {
        crate::arith::ceil_div_counts(data.len() as int, 246);
        let n = packets.len() - 1;
        front_packets_gather(device_id, data, n);
        let chunk = data.subrange(246 * n, data.len() as int);
        built_packets_are_accepted(0x40, device_id, (246 * n) as u16, 0, chunk);
        assert(packets.drop_last() =~= packets.take(n));
        assert(data.take(246 * n) + chunk =~= data);
    }
}

/// Different usages have different keys.
#[verifier::rlimit(50)]
pub proof fn key_rows_differ(i: int, j: int)
    requires
        0 <= i < j < HID_KEYS@.len(),
    ensures
        HID_KEYS@[i].1 != HID_KEYS@[j].1,
        HID_KEYS@[i].0 != HID_KEYS@[j].0,
{
}

/// A usage with a key has a row in the table.
pub proof fn key_has_row(usage: u8, from: int) -> (row: int)
    requires
        0 <= from,
        key_from(usage, from) is Some,
    ensures
        from <= row < HID_KEYS@.len(),
        HID_KEYS@[row] == (usage, key_from(usage, from)->0),
    decreases HID_KEYS@.len() - from,
{
    if HID_KEYS@[from].0 == usage {
        from
    } else {
        key_has_row(usage, from + 1)
    }
}

/// No two usages share a key.
pub proof fn keys_tell_usages_apart(a: u8, b: u8)
    requires
        key_of(a) is Some,
        key_of(a) == key_of(b),
    ensures
        a == b,
{
    let i = key_has_row(a, 0);
    let j = key_has_row(b, 0);
    if i < j {
        key_rows_differ(i, j);
    } else if j < i {
        key_rows_differ(j, i);
    }
}

/// Keys that are down for someone who follows the events.
pub open spec fn listen(down: Set<u16>, events: Seq<InputEvent>) -> Set<u16>
    decreases events.len(),
{
    if events.len() == 0 {
        down
    } else {
        let before = listen(down, events.drop_last());
        match events.last() {
            InputEvent::Key { code, pressed } => if pressed {
                before.insert(code)
            } else {
                before.remove(code)
            },
            _ => before,
        }
    }
}

/// A report says that a key is down.
pub open spec fn reported_down(modifiers: u8, keys: Seq<u8>, code: u16) -> bool {
    ||| exists|n: int|
        0 <= n < 8 && #[trigger] modifier_held(modifiers, n) && key_of((0xe0 + n) as u8) == Some(
            code,
        )
    ||| exists|i: int|
        0 <= i < keys.len() && (#[trigger] keys[i]) != 0 && key_of(keys[i]) == Some(code)
}

/// Modifiers are told by their bits, not among the keys.
pub open spec fn plain_keys(keys: Seq<u8>) -> bool {
    forall|i: int| 0 <= i < keys.len() ==> !(0xe0 <= (#[trigger] keys[i]) <= 0xe7)
}

proof fn listen_append(down: Set<u16>, a: Seq<InputEvent>, b: Seq<InputEvent>)
    ensures
        listen(down, a + b) == listen(listen(down, a), b),
    decreases b.len(),
{
    if b.len() == 0 {
        assert(a + b =~= a);
    } else {
        listen_append(down, a, b.drop_last());
        assert((a + b).drop_last() =~= a + b.drop_last());
    }
}

/// What the event of a usage does to one key.
proof fn key_event_effect(down: Set<u16>, usage: u8, pressed: bool, code: u16)
    ensures
        listen(down, key_event(usage, pressed)).contains(code) == if key_of(usage) == Some(code) {
            pressed
        } else {
            down.contains(code)
        },
{
    let events = key_event(usage, pressed);
    if events.len() > 0 {
        assert(events.drop_last() =~= Seq::<InputEvent>::empty());
        reveal_with_fuel(listen, 2);
    }
}

proof fn modifier_effect(down: Set<u16>, before: u8, after: u8, n: int, code: u16, usage: int)
    requires
        0 <= n <= 8,
        forall|v: u8| #[trigger] key_of(v) == Some(code) <==> v as int == usage,
    ensures
        listen(down, modifier_events(before, after, n)).contains(code) == if 0xe0 <= usage < 0xe0
            + n && modifier_held(before, usage - 0xe0) != modifier_held(after, usage - 0xe0) {
            modifier_held(after, usage - 0xe0)
        } else {
            down.contains(code)
        },
    decreases n,
{
    if n > 0 {
        modifier_effect(down, before, after, n - 1, code, usage);
        let front = modifier_events(before, after, n - 1);
        let u = (0xe0 + n - 1) as u8;
        let held = modifier_held(after, n - 1);
        if modifier_held(before, n - 1) != held {
            listen_append(down, front, key_event(u, held));
            key_event_effect(listen(down, front), u, held, code);
            assert(key_of(u) == Some(code) <==> u as int == usage);
        } else {
            assert(modifier_events(before, after, n) =~= front);
        }
    }
}

proof fn difference_effect(
    down: Set<u16>,
    keys: Seq<u8>,
    others: Seq<u8>,
    pressed: bool,
    n: int,
    code: u16,
    usage: int,
)
    requires
        0 <= n <= keys.len(),
        forall|v: u8| #[trigger] key_of(v) == Some(code) <==> v as int == usage,
    ensures
        listen(down, difference_events(keys, others, pressed, n)).contains(code) == if 0 < usage
            <= 255 && keys.take(n).contains(usage as u8) && !others.contains(usage as u8) {
            pressed
        } else {
            down.contains(code)
        },
    decreases n,
{
    if n == 0 {
        assert(keys.take(0) =~= Seq::<u8>::empty());
    } else {
        difference_effect(down, keys, others, pressed, n - 1, code, usage);
        let front = difference_events(keys, others, pressed, n - 1);
        let u = keys[n - 1];
        let shorter = keys.take(n - 1);
        let longer = keys.take(n);
        assert(longer =~= shorter.push(u));
        assert(longer.contains(u)) by {
            assert(longer[n - 1] == u);
        }
        if 0 < usage <= 255 {
            let w = usage as u8;
            if shorter.contains(w) {
                let k = choose|k: int| 0 <= k < shorter.len() && shorter[k] == w;
                assert(longer[k] == w);
            }
            if longer.contains(w) && w != u {
                let k = choose|k: int| 0 <= k < longer.len() && longer[k] == w;
                assert(shorter[k] == w);
            }
        }
        if u != 0 && !others.contains(u) {
            listen_append(down, front, key_event(u, pressed));
            key_event_effect(listen(down, front), u, pressed, code);
            assert(key_of(u) == Some(code) <==> u as int == usage);
        } else {
            assert(difference_events(keys, others, pressed, n) =~= front);
        }
    }
}

/// Someone who follows the events knows which keys are down: what they take from
/// the changes between two reports is what the newer report says.
pub proof fn events_follow_the_reports(
    down: Set<u16>,
    old_modifiers: u8,
    old_keys: Seq<u8>,
    new_modifiers: u8,
    new_keys: Seq<u8>,
    code: u16,
)
    requires
        plain_keys(old_keys),
        plain_keys(new_keys),
        down.contains(code) == reported_down(old_modifiers, old_keys, code),
    ensures
        listen(down, key_changes(old_modifiers, old_keys, new_modifiers, new_keys)).contains(code)
            == reported_down(new_modifiers, new_keys, code),
{
    let usage: int = if exists|v: u8| #[trigger] key_of(v) == Some(code) {
        (choose|v: u8| #[trigger] key_of(v) == Some(code)) as int
    } else {
        -1
    };
    assert forall|v: u8| #[trigger] key_of(v) == Some(code) <==> v as int == usage by {
        if key_of(v) == Some(code) {
            keys_tell_usages_apart(v, usage as u8);
        }
    }
    let a = modifier_events(old_modifiers, new_modifiers, 8);
    let b = difference_events(old_keys, new_keys, false, old_keys.len() as int);
    let c = difference_events(new_keys, old_keys, true, new_keys.len() as int);
    listen_append(down, a + b, c);
    listen_append(down, a, b);
    let d1 = listen(down, a);
    let d2 = listen(d1, b);
    modifier_effect(down, old_modifiers, new_modifiers, 8, code, usage);
    difference_effect(d1, old_keys, new_keys, false, old_keys.len() as int, code, usage);
    difference_effect(d2, new_keys, old_keys, true, new_keys.len() as int, code, usage);
    assert(old_keys.take(old_keys.len() as int) =~= old_keys);
    assert(new_keys.take(new_keys.len() as int) =~= new_keys);
    reported_as(old_modifiers, old_keys, code, usage);
    reported_as(new_modifiers, new_keys, code, usage);
    if 0xe0 <= usage <= 0xe7 {
        assert(!old_keys.contains(usage as u8));
        assert(!new_keys.contains(usage as u8));
    }
}

/// What a report says of the key of one usage.
proof fn reported_as(modifiers: u8, keys: Seq<u8>, code: u16, usage: int)
    requires
        plain_keys(keys),
        forall|v: u8| #[trigger] key_of(v) == Some(code) <==> v as int == usage,
    ensures
        reported_down(modifiers, keys, code) == if 0xe0 <= usage <= 0xe7 {
            modifier_held(modifiers, usage - 0xe0)
        } else {
            0 < usage <= 255 && keys.contains(usage as u8)
        },
{
    if 0xe0 <= usage <= 0xe7 {
        assert(key_of(usage as u8) == Some(code));
        if modifier_held(modifiers, usage - 0xe0) {
            assert(key_of((0xe0 + (usage - 0xe0)) as u8) == Some(code));
        }
    } else if 0 < usage <= 255 && keys.contains(usage as u8) {
        let k = choose|k: int| 0 <= k < keys.len() && keys[k] == usage as u8;
        assert(keys[k] != 0 && key_of(keys[k]) == Some(code));
    }
    assert forall|n: int|
        0 <= n < 8 && #[trigger] modifier_held(modifiers, n) && key_of((0xe0 + n) as u8) == Some(
            code,
        ) implies usage == 0xe0 + n by {
        assert(((0xe0 + n) as u8) as int == usage);
    }
}

/// Why a device was not accepted.
#[derive(Clone, Copy, Debug, PartialEq, Eq, Structural)]
pub enum HidProbeError {
    MissingChipSelect,
    NoParent,
    BusSpeed,
    /// Try again later: a bus, a controller or an interrupt is not there yet.
    Deferred,
    /// The transport did not come up.
    Transport(HidError),
}

impl HidProbeError {
    pub fn message(self) -> (r: &'static str)
        ensures
            r@ == (match self {
                HidProbeError::MissingChipSelect =>
                    "apple-spi-hid: missing chip-select reg property"@,
                HidProbeError::NoParent => "apple-spi-hid: no parent phandle"@,
                HidProbeError::BusSpeed => "apple-spi-hid: failed to set bus speed"@,
                HidProbeError::Deferred => "apple-spi-hid: deferred"@,
                HidProbeError::Transport(error) => hid_message(error),
            }),
    {
        match self {
            HidProbeError::MissingChipSelect => "apple-spi-hid: missing chip-select reg property",
            HidProbeError::NoParent => "apple-spi-hid: no parent phandle",
            HidProbeError::BusSpeed => "apple-spi-hid: failed to set bus speed",
            HidProbeError::Deferred => "apple-spi-hid: deferred",
            HidProbeError::Transport(error) => error.message(),
        }
    }
}

/// Where a device sits on its bus.
#[derive(Clone, Copy, Debug, PartialEq, Eq, Structural)]
pub struct HidPlace {
    pub cs: u8,
    pub max_freq: u32,
    pub bus_phandle: u32,
}

/// Chip select, bus speed and parent bus of a device. The speed is eight
/// megahertz where none is stated.
pub fn hid_place(reg: Option<usize>, max_freq: Option<usize>, parent: Option<u32>) -> (r: Result<
    HidPlace,
    HidProbeError,
>)
    ensures
        r == (match (reg, parent) {
            (None, _) => Err::<HidPlace, HidProbeError>(HidProbeError::MissingChipSelect),
            (Some(_), None) => Err(HidProbeError::NoParent),
            (Some(cs), Some(bus_phandle)) => Ok(
                HidPlace {
                    cs: cs as u8,
                    max_freq: match max_freq {
                        Some(f) => f as u32,
                        None => 8_000_000,
                    },
                    bus_phandle,
                },
            ),
        }),
{
    let cs: u8 = match reg {
        Some(cs) => cs as u8,
        None => {
            return Err(HidProbeError::MissingChipSelect);
        },
    };
    let speed: u32 = match max_freq {
        Some(f) => f as u32,
        None => 8_000_000,
    };
    match parent {
        Some(bus_phandle) => Ok(HidPlace { cs, max_freq: speed, bus_phandle }),
        None => Err(HidProbeError::NoParent),
    }
}

/// Controller and pin of a GPIO specifier; one that is missing or shorter than
/// it has to be names none.
pub fn gpio_specifier(property: Option<&[u8]>, least: usize) -> (r: Option<(u32, u32)>)
    requires
        least >= 8,
    ensures
        r == (match property {
            Some(bytes) => if bytes@.len() < least {
                None::<(u32, u32)>
            } else {
                Some(
                    (
                        crate::bytes::from_be32(bytes@, 0) as u32,
                        crate::bytes::from_be32(bytes@, 4) as u32,
                    ),
                )
            },
            None => None,
        }),
{
    match property {
        Some(bytes) => {
            if bytes.len() < least {
                return None;
            }
            match (crate::bytes::read_be_u32(bytes, 0), crate::bytes::read_be_u32(bytes, 4)) {
                (Some(phandle), Some(pin)) => Some((phandle, pin)),
                _ => None,
            }
        },
        None => None,
    }
}

/// What is known of an input device: its place and its two pins, each with its
/// controller.
#[derive(Clone, Copy, Debug)]
pub struct HidDescription {
    pub place: HidPlace,
    pub spien: Option<(u32, u32)>,
    pub irq: Option<(u32, u32)>,
}

/// Answers to the questions that come before the transport.
pub struct HidAnswers {
    pub bus: bool,
    pub speed: bool,
    pub spien: bool,
    pub irq: bool,
}

/// The question for the controller of a pin, where there is a pin.
pub open spec fn pin_query(pin: Option<(u32, u32)>, there: bool) -> Seq<HidQuery> {
    match pin {
        Some((phandle, _)) => seq![HidQuery::Gpio { phandle, there }],
        None => Seq::empty(),
    }
}

/// The controller of a pin is there, or there is no pin.
pub open spec fn pin_there(pin: Option<(u32, u32)>, there: bool) -> bool {
    pin is None || there
}

/// The machine was asked for the bus, its speed and both controllers, up to
/// the first that is not to be had.
pub open spec fn asked_with(
    d: HidDescription,
    before: Seq<HidQuery>,
    after: Seq<HidQuery>,
    r: Result<(), HidProbeError>,
    a: HidAnswers,
) -> bool {
    let bus = d.place.bus_phandle;
    let one = before.push(HidQuery::Bus { phandle: bus, there: a.bus });
    let two = one.push(HidQuery::Speed { phandle: bus, hz: d.place.max_freq, done: a.speed });
    let three = two + pin_query(d.spien, a.spien);
    let four = three + pin_query(d.irq, a.irq);
    if !a.bus {
        after == one && r == Err::<(), HidProbeError>(HidProbeError::Deferred)
    } else if !a.speed {
        after == two && r == Err::<(), HidProbeError>(HidProbeError::BusSpeed)
    } else if !pin_there(d.spien, a.spien) {
        after == three && r == Err::<(), HidProbeError>(HidProbeError::Deferred)
    } else if !pin_there(d.irq, a.irq) {
        after == four && r == Err::<(), HidProbeError>(HidProbeError::Deferred)
    } else {
        after == four && r is Ok
    }
}

/// Makes the bus of an input device ready and sees that the controllers of its
/// pins are there.
pub fn check_host<H: HidHost>(host: &mut HidHostPort<H>, d: &HidDescription) -> (r: Result<
    (),
    HidProbeError,
>)
    ensures
        exists|a: HidAnswers| #[trigger]
            asked_with(*d, old(host).log(), final(host).log(), r, a),
{
    let ghost start = host.log();
    let ghost mut a = HidAnswers { bus: false, speed: false, spien: false, irq: false };
    let bus = host.has_bus(d.place.bus_phandle);
    if !bus {
        let r = Err(HidProbeError::Deferred);
        assert(asked_with(*d, start, host.log(), r, a));
        return r;
    }
    let speed = host.set_bus_speed(d.place.bus_phandle, d.place.max_freq);
    proof {
        a = HidAnswers { bus, ..a };
    }
    if !speed {
        let r = Err(HidProbeError::BusSpeed);
        assert(asked_with(*d, start, host.log(), r, a));
        return r;
    }
    let ghost two = host.log();
    let mut spien_there: bool = true;
    if let Some((phandle, _)) = d.spien {
        spien_there = host.has_gpio(phandle);
    }
    proof {
        a = HidAnswers { speed, spien: spien_there, ..a };
        assert(host.log() =~= two + pin_query(d.spien, spien_there));
    }
    if !spien_there {
        let r = Err(HidProbeError::Deferred);
        assert(asked_with(*d, start, host.log(), r, a));
        return r;
    }
    let ghost three = host.log();
    let mut irq_there: bool = true;
    if let Some((phandle, _)) = d.irq {
        irq_there = host.has_gpio(phandle);
    }
    proof {
        a = HidAnswers { irq: irq_there, ..a };
        assert(host.log() =~= three + pin_query(d.irq, irq_there));
    }
    let r = if irq_there {
        Ok(())
    } else {
        Err(HidProbeError::Deferred)
    };
    assert(asked_with(*d, start, host.log(), r, a));
    r
}

/// The interrupts were asked for: that of the keyboard, then that of the
/// trackpad, where there is a pin for them.
pub open spec fn interrupts_asked(
    irq: Option<(u32, u32)>,
    before: Seq<HidQuery>,
    after: Seq<HidQuery>,
    r: Result<(), HidProbeError>,
    keyboard: bool,
    trackpad: bool,
) -> bool {
    match irq {
        None => after == before && r is Ok,
        Some((phandle, pin)) => {
            let one = before.push(
                HidQuery::Irq { phandle, pin, trackpad: false, done: keyboard },
            );
            let two = one.push(HidQuery::Irq { phandle, pin, trackpad: true, done: trackpad });
            if !keyboard {
                after == one && r == Err::<(), HidProbeError>(HidProbeError::Deferred)
            } else if !trackpad {
                after == two && r == Err::<(), HidProbeError>(HidProbeError::Deferred)
            } else {
                after == two && r is Ok
            }
        },
    }
}

/// Asks for the interrupts of both devices.
pub fn bind_interrupts<H: HidHost>(host: &mut HidHostPort<H>, irq: Option<(u32, u32)>) -> (r: Result<
    (),
    HidProbeError,
>)
    ensures
        exists|keyboard: bool, trackpad: bool| #[trigger]
            interrupts_asked(irq, old(host).log(), final(host).log(), r, keyboard, trackpad),
{
    let ghost start = host.log();
    let (phandle, pin): (u32, u32) = match irq {
        Some(line) => line,
        None => {
            let r = Ok(());
            assert(interrupts_asked(irq, start, host.log(), r, false, false));
            return r;
        },
    };
    if !host.request_irq(phandle, pin, false) {
        let r = Err(HidProbeError::Deferred);
        assert(interrupts_asked(irq, start, host.log(), r, false, false));
        return r;
    }
    let done = host.request_irq(phandle, pin, true);
    let r = if done {
        Ok(())
    } else {
        Err(HidProbeError::Deferred)
    };
    assert(interrupts_asked(irq, start, host.log(), r, true, done));
    r
}

/// The pin of a line.
pub open spec fn pin_of(line: Option<(u32, u32)>) -> Option<u32> {
    match line {
        Some((_, pin)) => Some(pin),
        None => None,
    }
}

/// A device as it is before its first report.
pub open spec fn fresh_device(hid: AppleSpiHidTransport, device_id: u8, d: HidDescription) -> bool {
    &&& hid.cs == d.place.cs
    &&& hid.device_id == device_id
    &&& hid.spien_pin == pin_of(d.spien)
    &&& hid.irq_pin == pin_of(d.irq)
    &&& hid.last_modifiers == 0
    &&& hid.last_keys@ == seq![0u8, 0, 0, 0, 0, 0]
    &&& hid.last_buttons == 0
}

/// How far probing went.
pub struct HidProbe {
    pub answers: HidAnswers,
    pub ready: Result<(), HidProbeError>,
    pub asked: Seq<HidQuery>,
    pub keyboard: AppleSpiHidTransport,
    pub up: Result<(), HidError>,
    pub keyboard_irq: bool,
    pub trackpad_irq: bool,
    pub bound: Result<(), HidProbeError>,
}

/// Both devices were probed: the machine was asked, the transport brought up
/// and the interrupts bound, up to the first failure.
pub open spec fn probed_with(
    d: HidDescription,
    queries: (Seq<HidQuery>, Seq<HidQuery>),
    log: (Seq<HidOp>, Seq<HidOp>),
    r: Result<(AppleSpiHidTransport, AppleSpiHidTransport), HidProbeError>,
    w: HidProbe,
) -> bool {
    &&& asked_with(d, queries.0, w.asked, w.ready, w.answers)
    &&& match w.ready {
        Err(e) => r is Err && r->Err_0 == e && queries.1 == w.asked && log.1 == log.0,
        Ok(_) => {
            &&& fresh_device(w.keyboard, 1, d)
            &&& brought_up(w.keyboard, log, w.up)
            &&& match w.up {
                Err(e) => {
                    r is Err && r->Err_0 == HidProbeError::Transport(e) && queries.1 == w.asked
                },
                Ok(_) => {
                    &&& interrupts_asked(
                        d.irq,
                        w.asked,
                        queries.1,
                        w.bound,
                        w.keyboard_irq,
                        w.trackpad_irq,
                    )
                    &&& match w.bound {
                        Err(e) => r is Err && r->Err_0 == e,
                        Ok(_) => {
                            &&& r is Ok
                            &&& (r->Ok_0).0 == w.keyboard
                            &&& fresh_device((r->Ok_0).1, 2, d)
                        },
                    }
                },
            }
        },
    }
}

/// Probes the keyboard and the trackpad behind one chip select.
pub fn probe_devices<H: HidHost, B: HidBus>(
    host: &mut HidHostPort<H>,
    port: &mut HidPort<B>,
    d: &HidDescription,
) -> (r: Result<(AppleSpiHidTransport, AppleSpiHidTransport), HidProbeError>)
    ensures
        exists|w: HidProbe| #[trigger]
            probed_with(
                *d,
                (old(host).log(), final(host).log()),
                (old(port).log(), final(port).log()),
                r,
                w,
            ),
{
    let ghost queries = host.log();
    let ghost log = port.log();
    let ready = check_host(host, d);
    let ghost mut w: HidProbe = arbitrary();
    proof {
        let answers = choose|a: HidAnswers| #[trigger] asked_with(*d, queries, host.log(), ready, a);
        w = HidProbe { answers, ready, asked: host.log(), ..w };
    }
    if let Err(e) = ready {
        let r = Err(e);
        assert(probed_with(*d, (queries, host.log()), (log, port.log()), r, w));
        return r;
    }
    let spien_pin: Option<u32> = match d.spien {
        Some((_, pin)) => Some(pin),
        None => None,
    };
    let irq_pin: Option<u32> = match d.irq {
        Some((_, pin)) => Some(pin),
        None => None,
    };
    let keyboard = AppleSpiHidTransport::new(d.place.cs, DEVICE_KEYBOARD, spien_pin, irq_pin);
    let trackpad = AppleSpiHidTransport::new(d.place.cs, DEVICE_TRACKPAD, spien_pin, irq_pin);
    let up = keyboard.initialize(port);
    proof {
        w = HidProbe { keyboard, up, ..w };
    }
    if let Err(e) = up {
        let r = Err(HidProbeError::Transport(e));
        assert(probed_with(*d, (queries, host.log()), (log, port.log()), r, w));
        return r;
    }
    let bound = bind_interrupts(host, d.irq);
    proof {
        let (keyboard_irq, trackpad_irq) = choose|k: bool, t: bool| #[trigger]
            interrupts_asked(d.irq, w.asked, host.log(), bound, k, t);
        w = HidProbe { bound, keyboard_irq, trackpad_irq, ..w };
    }
    if let Err(e) = bound {
        let r = Err(e);
        assert(probed_with(*d, (queries, host.log()), (log, port.log()), r, w));
        return r;
    }
    let r = Ok((keyboard, trackpad));
    assert(probed_with(*d, (queries, host.log()), (log, port.log()), r, w));
    r
}

} // verus!
