//! A bounded record of what the decoder driver did.

use vstd::prelude::*;

verus! {

/// Trace event category.
#[derive(Clone, Copy, Debug, PartialEq, Eq, Structural)]
pub enum AvdTraceKind {
    /// Platform probe or resource discovery.
    Probe,
    /// Firmware staging or state transition.
    Firmware,
    /// Mailbox word to the coprocessor.
    MailboxTx,
    /// Mailbox word from the coprocessor.
    MailboxRx,
    /// Decode request submission.
    DecodeSubmit,
    /// Decode completion notification.
    DecodeComplete,
    /// Hardware or firmware fault.
    Fault,
}

/// One trace event.
#[derive(Clone, Copy, Debug, PartialEq, Eq, Structural)]
pub struct AvdTraceEvent {
    /// Sequence number assigned by the trace log.
    pub sequence: u64,
    /// Event category.
    pub kind: AvdTraceKind,
    /// First event-specific value.
    pub arg0: u64,
    /// Second event-specific value.
    pub arg1: u64,
}

/// Fixed-capacity trace log.
pub struct AvdTraceLog {
    entries: Vec<AvdTraceEvent>,
    next_sequence: u64,
    capacity: usize,
}

/// What a log holds.
pub struct TraceView {
    /// Retained events, oldest first.
    pub entries: Seq<AvdTraceEvent>,
    /// Sequence number of the next event.
    pub next_sequence: u64,
    /// Number of events that are retained at most.
    pub capacity: nat,
}

/// The number behind a sequence number.
pub open spec fn next_number(sequence: u64) -> u64 {
    if sequence == u64::MAX {
        0
    } else {
        (sequence + 1) as u64
    }
}

/// The last `n` entries of a run.
pub open spec fn newest(entries: Seq<AvdTraceEvent>, n: nat) -> Seq<AvdTraceEvent> {
    if entries.len() <= n {
        entries
    } else {
        entries.skip(entries.len() - n)
    }
}

impl TraceView {
    /// No more is retained than the capacity allows.
    pub open spec fn wf(self) -> bool {
        self.entries.len() <= self.capacity
    }

    /// The log behind one more event: it is numbered, and the oldest leaves
    /// where there is no room.
    pub open spec fn traced(self, kind: AvdTraceKind, arg0: u64, arg1: u64) -> TraceView {
        let event = AvdTraceEvent { sequence: self.next_sequence, kind, arg0, arg1 };
        TraceView {
            entries: newest(self.entries.push(event), self.capacity),
            next_sequence: next_number(self.next_sequence),
            capacity: self.capacity,
        }
    }
}

impl AvdTraceLog {
    pub closed spec fn view(&self) -> TraceView {
        TraceView {
            entries: self.entries@,
            next_sequence: self.next_sequence,
            capacity: self.capacity as nat,
        }
    }

    /// Create an empty trace log.
    pub fn new(capacity: usize) -> (r: Self)
        ensures
            r@ == (TraceView { entries: Seq::empty(), next_sequence: 0, capacity: capacity as nat }),
            r@.wf(),
    {
        AvdTraceLog { entries: Vec::new(), next_sequence: 0, capacity }
    }

    /// Append one trace event.
    pub fn push(&mut self, kind: AvdTraceKind, arg0: u64, arg1: u64)
        requires
            old(self)@.wf(),
        ensures
            final(self)@ == old(self)@.traced(kind, arg0, arg1),
            final(self)@.wf(),
    {
        let ghost before = self.entries@;
        let ghost event = AvdTraceEvent { sequence: self.next_sequence, kind, arg0, arg1 };
        if self.capacity == 0 {
            self.next_sequence = self.next_sequence.wrapping_add(1);
            assert(self.entries@ =~= newest(before.push(event), 0));
            return;
        }
        if self.entries.len() == self.capacity {
            self.entries.remove(0);
        }
        let event = AvdTraceEvent { sequence: self.next_sequence, kind, arg0, arg1 };
        self.next_sequence = self.next_sequence.wrapping_add(1);
        self.entries.push(event);
        assert(self.entries@ =~= newest(before.push(event), self.capacity as nat));
    }

    /// Return retained trace events, oldest first.
    pub fn entries(&self) -> (r: &[AvdTraceEvent])
        ensures
            r@ == self@.entries,
    {
        self.entries.as_slice()
    }

    /// Return the configured event capacity.
    pub fn capacity(&self) -> (r: usize)
        ensures
            r == self@.capacity,
    {
        self.capacity
    }

    /// Remove all retained events.
    pub fn clear(&mut self)
        ensures
            final(self)@ == (TraceView { entries: Seq::empty(), ..old(self)@ }),
            final(self)@.wf(),
    {
        self.entries.clear();
    }
}

/// The events retained of a run, pushed one behind the other.
pub open spec fn traced_all(log: TraceView, events: Seq<(AvdTraceKind, u64, u64)>) -> TraceView
    decreases events.len(),
{
    if events.len() == 0 {
        log
    } else {
        let e = events.last();
        traced_all(log, events.drop_last()).traced(e.0, e.1, e.2)
    }
}

/// Sequence numbers of retained events follow one another without a gap, up to
/// the number before the next one.
pub open spec fn consecutive(log: TraceView) -> bool {
    forall|i: int|
        0 <= i < log.entries.len() ==> (#[trigger] log.entries[i]).sequence as int == (
        log.next_sequence - log.entries.len() + i) % 0x1_0000_0000_0000_0000
}

/// Tracing keeps the numbers of the retained events consecutive.
pub proof fn tracing_keeps_numbers_consecutive(
    log: TraceView,
    kind: AvdTraceKind,
    arg0: u64,
    arg1: u64,
)
    requires
        log.wf(),
        consecutive(log),
    ensures
        consecutive(log.traced(kind, arg0, arg1)),
        log.traced(kind, arg0, arg1).wf(),
{
    let after = log.traced(kind, arg0, arg1);
    let event = AvdTraceEvent { sequence: log.next_sequence, kind, arg0, arg1 };
    let all = log.entries.push(event);
    let dropped = all.len() - after.entries.len();
    assert forall|i: int| 0 <= i < after.entries.len() implies (
    #[trigger] after.entries[i]).sequence as int == (after.next_sequence - after.entries.len() + i)
        % 0x1_0000_0000_0000_0000 by {
        assert(after.entries[i] == all[i + dropped]);
        if i + dropped < log.entries.len() {
            assert(all[i + dropped] == log.entries[i + dropped]);
        }
    }
}

/// The last event that was pushed is the last one retained.
pub proof fn newest_event_is_retained(
    log: TraceView,
    kind: AvdTraceKind,
    arg0: u64,
    arg1: u64,
)
    requires
        log.wf(),
        log.capacity > 0,
    ensures
        log.traced(kind, arg0, arg1).entries.len() > 0,
        log.traced(kind, arg0, arg1).entries.last() == (AvdTraceEvent {
            sequence: log.next_sequence,
            kind,
            arg0,
            arg1,
        }),
{
}

/// The events of a run, numbered from `first` on.
pub open spec fn numbered(first: u64, events: Seq<(AvdTraceKind, u64, u64)>) -> Seq<AvdTraceEvent> {
    Seq::new(
        events.len(),
        |i: int|
            AvdTraceEvent {
                sequence: ((first + i) % 0x1_0000_0000_0000_0000) as u64,
                kind: events[i].0,
                arg0: events[i].1,
                arg1: events[i].2,
            },
    )
}

/// A run of events leaves the newest of them, numbered in order, and of what
/// was retained before only what still has room in front of them.
pub proof fn a_run_leaves_its_newest_events(
    log: TraceView,
    events: Seq<(AvdTraceKind, u64, u64)>,
)
    requires
        log.wf(),
    ensures
        traced_all(log, events).entries == newest(
            log.entries + numbered(log.next_sequence, events),
            log.capacity,
        ),
        traced_all(log, events).next_sequence as int == (log.next_sequence + events.len())
            % 0x1_0000_0000_0000_0000,
        traced_all(log, events).capacity == log.capacity,
    decreases events.len(),
{
    let all = log.entries + numbered(log.next_sequence, events);
    if events.len() == 0 {
        assert(all =~= log.entries);
    } else {
        let less = events.drop_last();
        let e = events.last();
        a_run_leaves_its_newest_events(log, less);
        let before = traced_all(log, less);
        let earlier = log.entries + numbered(log.next_sequence, less);
        let event = AvdTraceEvent {
            sequence: before.next_sequence,
            kind: e.0,
            arg0: e.1,
            arg1: e.2,
        };
        assert(all =~= earlier.push(event));
        assert(newest(newest(earlier, log.capacity).push(event), log.capacity) =~= newest(
            all,
            log.capacity,
        ));
    }
}

/// Capacity never changes and bounds what a run of events leaves behind.
pub proof fn capacity_bounds_every_run(log: TraceView, events: Seq<(AvdTraceKind, u64, u64)>)
    requires
        log.wf(),
    ensures
        traced_all(log, events).wf(),
        traced_all(log, events).capacity == log.capacity,
    decreases events.len(),
{
    if events.len() > 0 {
        capacity_bounds_every_run(log, events.drop_last());
    }
}

} // verus!
