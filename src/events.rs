//! Event streams: records that loaded programs emit through per-CPU buffers, handed to one
//! consumer in arrival order, each at most once.
use vstd::prelude::*;
use crate::section::copy_range;

verus! {

/// One record: the CPU it came from, its sequence number on that CPU, how many records that
/// CPU dropped before it, and its bytes.
#[derive(Debug)]
pub struct Event {
    pub cpu: u32,
    pub seq: u64,
    pub lost: u64,
    pub data: Vec<u8>,
}

pub struct EventView {
    pub cpu: u32,
    pub seq: u64,
    pub lost: u64,
    pub data: Seq<u8>,
}

impl View for Event {
    type V = EventView;

    open spec fn view(&self) -> EventView {
        EventView { cpu: self.cpu, seq: self.seq, lost: self.lost, data: self.data@ }
    }
}

pub open spec fn events_view(es: Seq<Event>) -> Seq<EventView> {
    es.map_values(|e: Event| e@)
}

/// A consumer's stream over the records polled from a ring-buffer map. Records are kept in
/// the order they were polled, so each CPU's records keep their order; `head` counts those
/// already delivered. A cancelled stream holds nothing and delivers nothing.
#[derive(Debug)]
pub struct EventStream {
    pending: Vec<Event>,
    head: usize,
    cancelled: bool,
}

pub struct EventStreamView {
    pub pending: Seq<EventView>,
    pub head: nat,
    pub cancelled: bool,
}

impl View for EventStream {
    type V = EventStreamView;

    closed spec fn view(&self) -> EventStreamView {
        EventStreamView {
            pending: events_view(self.pending@),
            head: self.head as nat,
            cancelled: self.cancelled,
        }
    }
}

pub open spec fn stream_wf(s: EventStreamView) -> bool {
    &&& s.head <= s.pending.len()
    &&& s.cancelled ==> s.pending.len() == 0 && s.head == 0
}

/// Polled records taken in; a cancelled stream drops them.
pub open spec fn stream_push(s: EventStreamView, recs: Seq<EventView>) -> EventStreamView {
    if s.cancelled {
        s
    } else {
        EventStreamView { pending: s.pending + recs, ..s }
    }
}

/// The next record, if one is buffered and the stream is not cancelled.
pub open spec fn stream_next(s: EventStreamView) -> (EventStreamView, Option<EventView>) {
    if s.cancelled || s.head >= s.pending.len() {
        (s, None)
    } else {
        (EventStreamView { head: s.head + 1, ..s }, Some(s.pending[s.head as int]))
    }
}

/// Cancelling: every buffered record is released and no more are taken.
pub open spec fn stream_cancel(s: EventStreamView) -> EventStreamView {
    EventStreamView { pending: Seq::empty(), head: 0, cancelled: true }
}

/// `n` calls of `next`: the stream after them and the records they delivered.
pub open spec fn stream_take(s: EventStreamView, n: nat) -> (EventStreamView, Seq<EventView>)
    decreases n,
{
    if n == 0 {
        (s, Seq::empty())
    } else {
        let (s1, got) = stream_take(s, (n - 1) as nat);
        let (s2, e) = stream_next(s1);
        (s2, match e {
            Some(ev) => got.push(ev),
            None => got,
        })
    }
}

impl EventStream {
    pub closed spec fn wf(&self) -> bool {
        stream_wf(self@) && self.head <= self.pending@.len()
    }

    pub fn new() -> (r: EventStream)
        ensures
            r.wf(),
            r@.pending.len() == 0,
            r@.head == 0,
            !r@.cancelled,
    {
        let r = EventStream { pending: Vec::new(), head: 0, cancelled: false };
        r
    }

    /// Takes in the records of one poll of a CPU's buffer, in their order.
    pub fn push(&mut self, recs: Vec<Event>)
        requires
            old(self).wf(),
        ensures
            final(self).wf(),
            final(self)@ == stream_push(old(self)@, events_view(recs@)),
    {
        if self.cancelled {
            return;
        }
        let mut recs = recs;
        let ghost want = self@.pending + events_view(recs@);
        // Moving `recs` onto the end of `pending` keeps their order.
        self.pending.append(&mut recs);
        assert(events_view(self.pending@) =~= want);
    }

    /// The next undelivered record; `None` when none is buffered or the stream is cancelled.
    pub fn next(&mut self) -> (r: Option<Event>)
        requires
            old(self).wf(),
        ensures
            final(self).wf(),
            (final(self)@, match r {
                Some(e) => Some(e@),
                None => None,
            }) == stream_next(old(self)@),
    {
        if self.cancelled || self.head >= self.pending.len() {
            return None;
        }
        let e = &self.pending[self.head];
        let data = copy_range(e.data.as_slice(), 0, e.data.len());
        assert(e.data@.subrange(0, e.data@.len() as int) =~= e.data@);
        let out = Event { cpu: e.cpu, seq: e.seq, lost: e.lost, data };
        assert(out@ == events_view(self.pending@)[self.head as int]);
        self.head = self.head + 1;
        Some(out)
    }

    /// Ends the stream: buffered records are released and none is delivered again.
    pub fn cancel(&mut self)
        ensures
            final(self).wf(),
            final(self)@ == stream_cancel(old(self)@),
    {
        self.pending = Vec::new();
        self.head = 0;
        self.cancelled = true;
        assert(events_view(self.pending@) =~= Seq::<EventView>::empty());
    }

    pub fn is_cancelled(&self) -> (r: bool)
        ensures
            r == self@.cancelled,
    {
        self.cancelled
    }
}

proof fn lemma_take_prefix(s: EventStreamView, k: nat)
    requires
        stream_wf(s),
        !s.cancelled,
        s.head + k <= s.pending.len(),
    ensures
        stream_take(s, k).0 == (EventStreamView { head: s.head + k, ..s }),
        stream_take(s, k).1 == s.pending.subrange(s.head as int, (s.head + k) as int),
    decreases k,
{
    if k == 0 {
        assert(s.pending.subrange(s.head as int, s.head as int) =~= Seq::<EventView>::empty());
    } else {
        lemma_take_prefix(s, (k - 1) as nat);
        assert(s.pending.subrange(s.head as int, (s.head + k) as int) =~= s.pending.subrange(
            s.head as int,
            (s.head + k - 1) as int,
        ).push(s.pending[(s.head + k - 1) as int]));
    }
}

proof fn lemma_cancelled_silent(s: EventStreamView, m: nat)
    requires
        s.cancelled,
    ensures
        stream_take(s, m).0 == s,
        stream_take(s, m).1.len() == 0,
    decreases m,
{
    if m > 0 {
        lemma_cancelled_silent(s, (m - 1) as nat);
    }
}

/// Consuming K of the N buffered records delivers the next K, each once and in order; once
/// the stream is cancelled it holds no record and any number of further calls deliver none.
pub proof fn lemma_cancel_after_consuming(s: EventStreamView, k: nat, m: nat)
    requires
        stream_wf(s),
        !s.cancelled,
        s.head + k <= s.pending.len(),
    ensures
        stream_take(s, k).1 == s.pending.subrange(s.head as int, (s.head + k) as int),
        stream_cancel(stream_take(s, k).0).pending.len() == 0,
        stream_take(stream_cancel(stream_take(s, k).0), m).1.len() == 0,
{
    lemma_take_prefix(s, k);
    lemma_cancelled_silent(stream_cancel(stream_take(s, k).0), m);
}

} // verus!
