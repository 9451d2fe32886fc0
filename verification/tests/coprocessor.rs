//! Coprocessors: boot, ring buffers and services.

use std::cell::RefCell;
use std::collections::{HashMap, VecDeque};
use std::rc::Rc;

use apple_silicon::afk::{check_room, has_space, AfkEndpoint, AfkError, AfkRingBuffer};
use apple_silicon::asc::{AppleAsc, AscError};
use apple_silicon::bus::{Bus, Mmio};
use apple_silicon::epic::{EpicEndpoint, EpicError, EpicService};
use apple_silicon::ports::notify::NotifyHandler;
use apple_silicon::ports::pages::{PagePort, PageSource};
use apple_silicon::rtkit::{AppleRtkit, RtkitError, RtkitMessage};

const BASE: usize = 0x5000;
const SHARED: usize = 0x10_0000;

#[derive(Default)]
struct State {
    bytes: HashMap<usize, u8>,
    inbox: VecDeque<(u64, u64)>,
    sent: Vec<(u64, u64)>,
    pending: u64,
    now: u64,
    version: (u64, u64),
    tag: u64,
    silent: bool,
    /// Types of messages that are not sent.
    withheld: Vec<u64>,
    /// The outgoing mailbox stays full.
    full: bool,
    /// Management messages of no interest come all the time.
    chatter: bool,
}

#[derive(Clone, Default)]
struct Firmware(Rc<RefCell<State>>);

impl Firmware {
    fn new() -> Firmware {
        let firmware = Firmware::default();
        firmware.0.borrow_mut().version = (11, 12);
        firmware.0.borrow_mut().tag = 7;
        firmware
    }

    fn bus(&self) -> Bus<Firmware> {
        Bus::new(self.clone())
    }

    fn post(&self, ep: u64, msg: u64) {
        if !self.0.borrow().withheld.contains(&(msg >> 48)) {
            self.0.borrow_mut().inbox.push_back((msg, ep));
        }
    }

    fn poke(&self, addr: usize, value: u64, size: usize) {
        for i in 0..size {
            self.0.borrow_mut().bytes.insert(addr + i, (value >> (8 * i)) as u8);
        }
    }

    fn peek(&self, addr: usize, size: usize) -> u64 {
        let state = self.0.borrow();
        (0..size).map(|i| (*state.bytes.get(&(addr + i)).unwrap_or(&0) as u64) << (8 * i)).sum()
    }

    fn put(&self, addr: usize, data: &[u8]) {
        for (i, b) in data.iter().enumerate() {
            self.poke(addr + i, *b as u64, 1);
        }
    }

    /// Leaves an entry in the ring that the driver reads.
    fn deliver(&self, channel: u32, msg_type: u32, data: &[u8]) {
        let ring = SHARED + 2048;
        let wptr = self.peek(ring + 128, 4) as usize;
        let at = ring + 192 + wptr;
        self.poke(at, 0x2050_4f49, 4);
        self.poke(at + 4, data.len() as u64, 4);
        self.poke(at + 8, channel as u64, 4);
        self.poke(at + 12, msg_type as u64, 4);
        self.put(at + 16, data);
        let next = (wptr + 16 + data.len() + 63) / 64 * 64;
        self.poke(ring + 128, next as u64, 4);
    }

    fn answer(&self, msg: u64, ep: u64) {
        if self.0.borrow().silent {
            return;
        }
        let kind = msg >> 48;
        if ep == 0 {
            let (low, high) = self.0.borrow().version;
            match kind {
                6 => self.post(0, (1 << 48) | (high << 16) | low),
                2 => self.post(0, (8 << 48) | 0x101f),
                8 => {
                    self.post(0, (7 << 48) | 0x10);
                    self.post(0, (7 << 48) | 0x20);
                }
                _ => {}
            }
        } else {
            let tag = self.0.borrow().tag;
            match kind {
                0x80 => {
                    self.post(ep, 0xa0 << 48);
                    self.post(ep, (0x89 << 48) | (64 << 16) | 7);
                }
                0xa1 => {
                    self.poke(SHARED, 2048 - 192, 4);
                    self.poke(SHARED + 2048, 2048 - 192, 4);
                    self.post(ep, (0x8a << 48) | (32 << 16) | tag);
                    self.post(ep, (0x8b << 48) | (32 << 32) | (32 << 16) | 7);
                }
                0xa3 => self.post(ep, 0x86 << 48),
                0xc0 => self.post(ep, 0xc1 << 48),
                _ => {}
            }
        }
    }
}

impl Mmio for Firmware {
    fn read8(&mut self, addr: usize) -> u8 {
        self.peek(addr, 1) as u8
    }
    fn write8(&mut self, addr: usize, value: u8) {
        self.poke(addr, value as u64, 1);
    }
    fn read32(&mut self, addr: usize) -> u32 {
        if addr == BASE + 0x114 {
            let state = self.0.borrow();
            return if state.inbox.is_empty() && !state.chatter { 0x2_0000 } else { 0 };
        }
        if addr == BASE + 0x110 && self.0.borrow().full {
            return 0x1_0000;
        }
        self.peek(addr, 4) as u32
    }
    fn write32(&mut self, addr: usize, value: u32) {
        self.poke(addr, value as u64, 4);
    }
    fn read64(&mut self, addr: usize) -> u64 {
        if addr == BASE + 0x830 && self.0.borrow().chatter {
            return 12 << 48;
        }
        if addr == BASE + 0x830 {
            return self.0.borrow().inbox.front().map(|m| m.0).unwrap_or(0);
        }
        if addr == BASE + 0x838 {
            return self.0.borrow_mut().inbox.pop_front().map(|m| m.1).unwrap_or(0);
        }
        self.peek(addr, 8)
    }
    fn write64(&mut self, addr: usize, value: u64) {
        if addr == BASE + 0x800 {
            self.0.borrow_mut().pending = value;
        } else if addr == BASE + 0x808 {
            let msg = self.0.borrow().pending;
            self.0.borrow_mut().sent.push((msg, value));
            self.answer(msg, value);
        } else {
            self.poke(addr, value, 8);
        }
    }
    fn udelay(&mut self, us: u64) {
        self.0.borrow_mut().now += us;
    }
    fn current_time(&mut self) -> u64 {
        let mut state = self.0.borrow_mut();
        state.now += 1000;
        state.now
    }
    fn barrier(&mut self) {}
    fn clean_cache(&mut self, _addr: usize, _len: usize) {}
    fn invalidate_cache(&mut self, _addr: usize, _len: usize) {}
    fn clean_invalidate_cache(&mut self, _addr: usize, _len: usize) {}
}

struct Pages {
    next: usize,
    left: usize,
}

impl PageSource for Pages {
    fn alloc_contiguous_pages(&mut self, pages: usize) -> Option<(u64, usize)> {
        if self.left == 0 {
            return None;
        }
        self.left -= 1;
        let at = self.next;
        self.next += pages * 4096;
        Some((at as u64, at))
    }
}

fn pages(left: usize) -> PagePort<Pages> {
    PagePort::new(Pages { next: SHARED, left })
}

fn rtkit() -> AppleRtkit {
    AppleRtkit::new(AppleAsc::new(BASE))
}

#[test]
fn coprocessor_boots() {
    let firmware = Firmware::new();
    let mut rtkit = rtkit();
    assert!(!rtkit.is_running());
    assert_eq!(rtkit.boot(&mut firmware.bus()), Ok(()));
    assert!(rtkit.is_running() && !rtkit.is_crashed());
    assert_eq!(rtkit.ep_bitmap, 0x101f);
    let sent = firmware.0.borrow().sent.clone();
    assert_eq!(sent[0], ((6 << 48) | 0x220, 0));
    assert_eq!(sent[1], ((2 << 48) | 0xc_000c, 0));
    assert_eq!(sent[3], ((5 << 48) | (1 << 24) | 2, 0));
    assert_eq!(sent.last(), Some(&((0xb << 48) | 0x20, 0)));
    assert_eq!(firmware.peek(BASE + 0x44, 4), 0x10);
}

#[test]
fn coprocessor_with_other_versions_is_refused() {
    let firmware = Firmware::new();
    firmware.0.borrow_mut().version = (13, 14);
    assert_eq!(rtkit().boot(&mut firmware.bus()), Err(RtkitError::UnsupportedVersion));
    firmware.0.borrow_mut().version = (1, 10);
    assert_eq!(rtkit().boot(&mut firmware.bus()), Err(RtkitError::UnsupportedVersion));
    firmware.0.borrow_mut().silent = true;
    assert_eq!(
        rtkit().boot(&mut firmware.bus()),
        Err(RtkitError::Mailbox(AscError::RecvTimeout))
    );
}

#[test]
fn messages_of_no_interest_do_not_prolong_a_boot() {
    let firmware = Firmware::new();
    firmware.0.borrow_mut().silent = true;
    firmware.0.borrow_mut().chatter = true;
    let r = rtkit().boot(&mut firmware.bus());
    assert_eq!(r, Err(RtkitError::MgmtTimeout));
    assert_eq!(firmware.0.borrow().sent.len(), 1);
}

#[test]
fn a_boot_ends_where_the_mailbox_stays_full() {
    let firmware = Firmware::new();
    firmware.0.borrow_mut().full = true;
    let r = rtkit().boot(&mut firmware.bus());
    assert_eq!(r, Err(RtkitError::Mailbox(AscError::SendTimeout)));
    assert!(firmware.0.borrow().sent.is_empty());
    assert_eq!(firmware.peek(BASE + 0x44, 4), 0x10);
}

#[test]
fn foreign_messages_end_a_boot() {
    let firmware = Firmware::new();
    firmware.post(0x20, 5);
    assert_eq!(rtkit().boot(&mut firmware.bus()), Err(RtkitError::UnexpectedMessage));
}

#[test]
fn housekeeping_is_done_on_receipt() {
    let firmware = Firmware::new();
    let mut rtkit = rtkit();
    let mut msg = RtkitMessage { ep: 0, msg: 0 };
    assert_eq!(rtkit.recv(&mut firmware.bus(), &mut msg), Ok(false));
    firmware.post(0, (7 << 48) | 0x20);
    assert_eq!(rtkit.recv(&mut firmware.bus(), &mut msg), Ok(false));
    assert_eq!(rtkit.iop_power, 0x20);
    firmware.post(2, 1);
    assert_eq!(rtkit.recv(&mut firmware.bus(), &mut msg), Ok(false));
    assert_eq!(firmware.0.borrow().sent.last(), Some(&(1, 2)));
    firmware.post(0x60, 9);
    assert_eq!(rtkit.recv(&mut firmware.bus(), &mut msg), Ok(true));
    assert_eq!(msg, RtkitMessage { ep: 0x20, msg: 9 });
}

fn started(firmware: &Firmware) -> AfkEndpoint {
    let mut afk = AfkEndpoint::new(rtkit(), 0x23);
    assert_eq!(afk.start(&mut firmware.bus(), &mut pages(1)), Ok(()));
    afk
}

#[test]
fn ring_buffers_are_set_up() {
    let firmware = Firmware::new();
    let afk = started(&firmware);
    assert!(afk.is_started());
    assert_eq!(afk.endpoint(), 0x23);
    assert_eq!((afk.tx.hdr, afk.tx.bufsz), (SHARED, 1856));
    assert_eq!((afk.rx.hdr, afk.rx.bufsz), (SHARED + 2048, 1856));
    let sent = firmware.0.borrow().sent.clone();
    assert!(sent.contains(&((0xa1 << 48) | SHARED as u64, 0x23)));
    assert_eq!(afk.release(), Some((SHARED as u64, 1)));
}

#[test]
fn ring_buffer_setup_fails_loudly() {
    let firmware = Firmware::new();
    let mut afk = AfkEndpoint::new(rtkit(), 0x23);
    assert_eq!(
        afk.start(&mut firmware.bus(), &mut pages(0)),
        Err(AfkError::AllocFailed)
    );
    let firmware = Firmware::new();
    firmware.0.borrow_mut().tag = 8;
    let mut afk = AfkEndpoint::new(rtkit(), 0x23);
    assert_eq!(
        afk.start(&mut firmware.bus(), &mut pages(1)),
        Err(AfkError::TagMismatch)
    );
    let firmware = Firmware::new();
    firmware.0.borrow_mut().silent = true;
    let mut afk = AfkEndpoint::new(rtkit(), 0x23);
    assert_eq!(afk.start(&mut firmware.bus(), &mut pages(1)), Err(AfkError::Timeout));
    assert_eq!(AfkError::TxFull.message(), "apple-afk: TX ring buffer full");
}

#[test]
fn setup_succeeds_where_both_messages_come() {
    let firmware = Firmware::new();
    firmware.0.borrow_mut().withheld = vec![0x86];
    let mut afk = AfkEndpoint::new(rtkit(), 0x23);
    assert_eq!(afk.start(&mut firmware.bus(), &mut pages(1)), Err(AfkError::Timeout));
    assert!(afk.tx.ready && afk.rx.ready && !afk.is_started());
    assert_eq!(firmware.0.borrow().sent.last(), Some(&(0xa3 << 48, 0x23)));
}

#[test]
fn setup_waits_for_both_messages() {
    for (missing, tx, rx) in [(0x8a, false, true), (0x8b, true, false)] {
        let firmware = Firmware::new();
        firmware.0.borrow_mut().withheld = vec![missing];
        let mut afk = AfkEndpoint::new(rtkit(), 0x23);
        let r = afk.start(&mut firmware.bus(), &mut pages(1));
        assert_eq!(r, Err(AfkError::InitTimeout));
        assert_eq!((afk.tx.ready, afk.rx.ready), (tx, rx));
        assert_eq!(firmware.0.borrow().sent.last(), Some(&((0xa1 << 48) | SHARED as u64, 0x23)));
    }
    let firmware = Firmware::new();
    firmware.0.borrow_mut().withheld = vec![0x8a, 0x8b];
    let mut afk = AfkEndpoint::new(rtkit(), 0x23);
    let r = afk.start(&mut firmware.bus(), &mut pages(1));
    assert_eq!(r, Err(AfkError::InitTimeout));
    assert!(firmware.0.borrow().now >= 5_000_000);
}

#[test]
fn other_mail_does_not_disturb_a_handshake() {
    let firmware = Firmware::new();
    firmware.post(2, 1);
    firmware.post(0x24, 0xa0 << 48);
    let afk = started(&firmware);
    assert!(afk.is_started());
    assert!(firmware.0.borrow().sent.contains(&(1, 2)));
}

#[test]
fn a_shutdown_does_not_depend_on_its_answer() {
    let firmware = Firmware::new();
    let mut afk = started(&firmware);
    firmware.0.borrow_mut().withheld = vec![0xc1];
    assert_eq!(afk.shutdown(&mut firmware.bus()), Ok(()));
    assert!(!afk.is_started());
    let firmware = Firmware::new();
    let mut afk = started(&firmware);
    firmware.0.borrow_mut().full = true;
    let e = AfkError::Transport(RtkitError::Mailbox(AscError::SendTimeout));
    assert_eq!(afk.shutdown(&mut firmware.bus()), Err(e));
    assert!(afk.is_started());
    assert_eq!(afk.send(&mut firmware.bus(), 3, 4, &[1]), Err(e));
    assert_eq!(e.message(), "apple-asc: send mailbox full timeout");
}

#[test]
fn messages_are_queued_in_blocks() {
    let firmware = Firmware::new();
    let mut afk = started(&firmware);
    assert_eq!(afk.send(&mut firmware.bus(), 3, 4, &[1, 2, 3]), Ok(()));
    let at = SHARED + 192;
    assert_eq!(firmware.peek(at, 4), 0x2050_4f49);
    assert_eq!(firmware.peek(at + 4, 4), 3);
    assert_eq!(firmware.peek(at + 8, 8), (4 << 32) | 3);
    assert_eq!(firmware.peek(at + 16, 3), 0x03_02_01);
    assert_eq!(firmware.peek(SHARED + 128, 4), 64);
    assert_eq!(firmware.0.borrow().sent.last(), Some(&((0xa2 << 48) | 64, 0x23)));
    assert_eq!(
        afk.send(&mut firmware.bus(), 0, 0, &[0; 1840]),
        Err(AfkError::TxFull)
    );
    let mut idle = AfkEndpoint::new(rtkit(), 0x23);
    assert_eq!(idle.send(&mut firmware.bus(), 0, 0, &[]), Err(AfkError::TxNotReady));
}

#[test]
fn received_entries_are_acknowledged() {
    let firmware = Firmware::new();
    let mut afk = started(&firmware);
    assert_eq!(afk.recv(&mut firmware.bus()), None);
    firmware.deliver(2, 5, b"hello");
    let entry = afk.recv(&mut firmware.bus()).unwrap();
    assert_eq!((entry.channel, entry.msg_type, entry.size), (2, 5, 5));
    assert_eq!(afk.recv_payload(&mut firmware.bus(), &entry), Some(b"hello".to_vec()));
    afk.recv_ack(&mut firmware.bus());
    assert_eq!(firmware.peek(SHARED + 2048 + 64, 4), 64);
    assert_eq!(afk.recv(&mut firmware.bus()), None);
    assert_eq!(afk.shutdown(&mut firmware.bus()), Ok(()));
    assert!(!afk.is_started());
}

#[test]
fn ring_space_is_counted() {
    assert!(has_space(0, 0, 63, 64));
    assert!(!has_space(0, 0, 64, 64));
    assert!(has_space(64, 64, 64, 128));
    assert!(has_space(64, 32, 16, 64));
    assert!(!has_space(32, 64, 32, 128));
}

#[test]
fn room_for_a_message_is_found() {
    let ring = AfkRingBuffer { hdr: 0x1000, bufsz: 256, ready: true };
    assert_eq!(check_room(&ring, 0, 0, 176), Ok(()));
    assert_eq!(check_room(&ring, 0, 0, 177), Err(AfkError::TxFull));
    assert_eq!(check_room(&ring, 64, 0, 48), Err(AfkError::TxFull));
    assert_eq!(check_room(&ring, 64, 64, 176), Ok(()));
    assert_eq!(check_room(&ring, 0, 0, usize::MAX), Err(AfkError::TxFull));
    assert_eq!(check_room(&ring, 0, 0, 0xffff_fff0), Err(AfkError::TxFull));
    assert_eq!(check_room(&ring, 1000, 0, 48), Ok(()));
    assert_eq!(check_room(&ring, 0, 320, 0), Err(AfkError::PointerOutOfRange));
    assert_eq!(check_room(&ring, 2000, 320, 0), Err(AfkError::PointerOutOfRange));
}

#[test]
fn ring_pointers_of_the_other_side_may_be_large() {
    let firmware = Firmware::new();
    let mut afk = started(&firmware);
    firmware.poke(SHARED + 64, 0x8000, 4);
    assert_eq!(afk.send(&mut firmware.bus(), 3, 4, &[1]), Ok(()));
    assert_eq!(firmware.peek(SHARED + 128, 4), 64);
}

fn epic_headers(category: u8, msg_type: u16) -> Vec<u8> {
    let mut payload = vec![0u8; 40];
    payload[21] = category;
    payload[22..24].copy_from_slice(&msg_type.to_le_bytes());
    payload
}

fn announce(name: &str) -> Vec<u8> {
    let mut payload = epic_headers(0, 0x30);
    let mut field = name.as_bytes().to_vec();
    field.resize(32, 0);
    payload.extend_from_slice(&field);
    payload
}

/// A notification, and how many messages the driver had sent before.
type Note = (u32, u16, Vec<u8>, usize);

/// Writes notifications down.
struct Listener {
    firmware: Firmware,
    notes: Rc<RefCell<Vec<Note>>>,
}

impl NotifyHandler for Listener {
    fn notify(&mut self, channel: u32, subtype: u16, data: &[u8]) {
        let sent = self.firmware.0.borrow().sent.len();
        self.notes.borrow_mut().push((channel, subtype, data.to_vec(), sent));
    }
}

fn listener(firmware: &Firmware) -> (Listener, Rc<RefCell<Vec<Note>>>) {
    let notes = Rc::new(RefCell::new(Vec::new()));
    (Listener { firmware: firmware.clone(), notes: notes.clone() }, notes)
}

fn endpoint(firmware: &Firmware) -> EpicEndpoint<Listener> {
    let mut source = pages(3);
    EpicEndpoint::new(&mut firmware.bus(), &mut source, rtkit(), 0x23).ok().unwrap()
}

#[test]
fn services_announce_themselves() {
    let firmware = Firmware::new();
    let mut epic = endpoint(&firmware);
    assert_eq!(
        epic.wait_for_services(&mut firmware.bus(), 1, 10_000),
        Err(EpicError::NoServices)
    );
    firmware.deliver(5, 0, &announce("disp0-service"));
    firmware.deliver(6, 0, &announce("caf\u{e9}"));
    firmware.deliver(5, 0, &announce("again"));
    assert_eq!(epic.wait_for_services(&mut firmware.bus(), 2, 10_000), Ok(()));
    assert_eq!(epic.service_names(), vec!["disp0-service", "caf\u{e9}"]);
    assert_eq!(epic.find_service("disp0").unwrap().channel, 5);
    assert!(epic.find_service("disp1").is_none());
    assert_eq!(epic.find_service_by_channel(6).unwrap().name, "caf\u{e9}");
    assert_eq!(epic.wait_for_services(&mut firmware.bus(), 3, 10_000), Ok(()));
}

#[test]
fn broken_names_are_repaired() {
    let firmware = Firmware::new();
    let mut epic = endpoint(&firmware);
    let mut payload = announce("ab");
    payload[41] = 0xff;
    firmware.deliver(5, 0, &payload);
    epic.poll(&mut firmware.bus());
    assert_eq!(epic.service_names(), vec!["a\u{fffd}"]);
}

fn note(data: &[u8]) -> Vec<u8> {
    let mut payload = epic_headers(0x10, 0xc0);
    payload.extend_from_slice(data);
    payload
}

#[test]
fn notifications_reach_the_handler() {
    let firmware = Firmware::new();
    let mut epic = endpoint(&firmware);
    let (handler, notes) = listener(&firmware);
    firmware.deliver(2, 0, &note(&[1]));
    epic.poll(&mut firmware.bus());
    epic.set_notify_handler(handler);
    firmware.deliver(2, 0, &note(&[7, 8]));
    firmware.deliver(2, 0, &note(&[]));
    epic.poll(&mut firmware.bus());
    let sent = firmware.0.borrow().sent.len();
    assert_eq!(*notes.borrow(), vec![(2, 0xc0, vec![7, 8], sent)]);
    let (other, later) = listener(&firmware);
    epic.set_notify_handler(other);
    firmware.deliver(3, 0, &note(&[9]));
    epic.poll(&mut firmware.bus());
    assert_eq!(notes.borrow().len(), 1);
    assert_eq!(*later.borrow(), vec![(3, 0xc0, vec![9], sent)]);
}

#[test]
fn notifications_are_handed_over_at_once() {
    let firmware = Firmware::new();
    let mut epic = endpoint(&firmware);
    let (handler, notes) = listener(&firmware);
    epic.set_notify_handler(handler);
    let sent = firmware.0.borrow().sent.len();
    firmware.deliver(2, 0, &note(&[1]));
    firmware.deliver(2, 4, &epic_headers(0x20, 0xc0));
    firmware.deliver(2, 0, &note(&[2]));
    epic.poll(&mut firmware.bus());
    assert_eq!(
        *notes.borrow(),
        vec![(2, 0xc0, vec![1], sent), (2, 0xc0, vec![2], sent + 1)]
    );
    notes.borrow_mut().clear();
    firmware.deliver(4, 0, &note(&[3]));
    firmware.deliver(4, 4, &reply(0, 0));
    firmware.deliver(4, 0, &note(&[4]));
    assert_eq!(epic.call_by_channel(&mut firmware.bus(), 4, 1, 2, &[]), Ok(vec![]));
    assert_eq!(*notes.borrow(), vec![(4, 0xc0, vec![3], sent + 2)]);
}

fn reply(retcode: u32, rxlen: u32) -> Vec<u8> {
    let mut payload = epic_headers(0x20, 0xc0);
    payload.extend_from_slice(&retcode.to_le_bytes());
    payload.extend_from_slice(&[0; 16]);
    payload.extend_from_slice(&rxlen.to_le_bytes());
    payload.extend_from_slice(&[0; 6]);
    payload
}

#[test]
fn commands_are_answered() {
    let firmware = Firmware::new();
    let mut epic = endpoint(&firmware);
    firmware.put(epic.dma.rx_virt, &[9, 8, 7]);
    firmware.deliver(4, 4, &reply(0, 3));
    assert_eq!(
        epic.call_by_channel(&mut firmware.bus(), 4, 1, 0x11, &[5, 6]),
        Ok(vec![9, 8, 7])
    );
    let tx = epic.dma.tx_virt;
    assert_eq!(firmware.peek(tx + 2, 2), 1);
    assert_eq!(firmware.peek(tx + 4, 4), 0x11);
    assert_eq!(firmware.peek(tx + 8, 8), (0x6970_6378 << 32) | 2);
    assert_eq!(firmware.peek(tx + 64, 2), 0x0605);
    let service = EpicService { name: String::from("x"), channel: 4, seq: 0 };
    firmware.deliver(4, 4, &reply(3, 0));
    assert_eq!(
        epic.call(&mut firmware.bus(), &service, 0, 0, &[]),
        Err(EpicError::CommandFailed(3))
    );
    firmware.deliver(4, 4, &reply(0, 0x4001));
    assert_eq!(
        epic.call(&mut firmware.bus(), &service, 0, 0, &[]),
        Err(EpicError::ReplyTooLong)
    );
    firmware.deliver(4, 4, &epic_headers(0x20, 0));
    assert_eq!(
        epic.call(&mut firmware.bus(), &service, 0, 0, &[]),
        Err(EpicError::ReplyTooShort)
    );
    assert_eq!(
        epic.call(&mut firmware.bus(), &service, 0, 0, &[]),
        Err(EpicError::ReplyTimeout)
    );
    assert_eq!(
        epic.send_command(&mut firmware.bus(), 4, 0, 0, &[0; 0x4000]),
        Err(EpicError::CommandTooLarge)
    );
}

#[test]
fn services_need_their_buffers() {
    let firmware = Firmware::new();
    let mut source = pages(1);
    let r: Result<EpicEndpoint<Listener>, EpicError> =
        EpicEndpoint::new(&mut firmware.bus(), &mut source, rtkit(), 0x23);
    assert!(matches!(r, Err(EpicError::TxBuffer)));
    let firmware = Firmware::new();
    let mut source = pages(2);
    let r: Result<EpicEndpoint<Listener>, EpicError> =
        EpicEndpoint::new(&mut firmware.bus(), &mut source, rtkit(), 0x23);
    assert!(matches!(r, Err(EpicError::RxBuffer)));
}
