//! The bookkeeping behind `/events`, `/events.json` and `/healthz`'s motion
//! fields: the motion state, and the numbered ring of recent events a
//! freshly-connected viewer is shown.

use vstd::prelude::*;

use std::collections::VecDeque;

use crate::detect::motion::detector::MotionKind;

verus! {

/// How many past events `/events.json` and a freshly-connected `/events`
/// client can see. Generous enough to cover "what happened while I wasn't
/// looking at the tab" without growing unbounded.
pub const RING_CAPACITY: usize = 50;

/// Surfaced on `/healthz` as `"motion"` (alongside `"off"` when detection -
/// and therefore motion - isn't running at all).
#[derive(Debug, Clone, Copy, PartialEq, Eq)]
pub enum MotionState {
    Idle,
    Active,
}

impl MotionState {
    pub fn as_str(self) -> (r: &'static str)
        ensures
            r@ == match self {
                MotionState::Idle => "idle"@,
                MotionState::Active => "active"@,
            },
    {
        match self {
            MotionState::Idle => "idle",
            MotionState::Active => "active",
        }
    }
}

impl MotionState {
    /// The state a published event leaves the hub in: active after a
    /// `Started`, idle after a `Stopped`.
    pub fn after(kind: MotionKind) -> (r: MotionState)
        ensures
            r == (if kind == MotionKind::Started { MotionState::Active } else { MotionState::Idle }),
    {
        match kind {
            MotionKind::Started => MotionState::Active,
            MotionKind::Stopped { .. } => MotionState::Idle,
        }
    }
}

/// The wire form of an event's kind: its name, and the episode's length
/// for a `stopped` one.
pub fn wire_kind(kind: MotionKind) -> (r: (&'static str, Option<u64>))
    ensures
        match kind {
            MotionKind::Started => r.0@ == "started"@ && r.1 is None,
            MotionKind::Stopped { duration_ms } => r.0@ == "stopped"@ && r.1 == Some(duration_ms),
        },
{
    match kind {
        MotionKind::Started => ("started", None),
        MotionKind::Stopped { duration_ms } => ("stopped", Some(duration_ms)),
    }
}

/// The last `n` items of `s`, or all of them if there are fewer.
pub open spec fn keep_last<T>(s: Seq<T>, n: int) -> Seq<T> {
    if s.len() > n {
        s.skip(s.len() - n)
    } else {
        s
    }
}

/// The recent-events ring and the sequence counter that numbers it, kept
/// together so one lock covers both.
pub struct EventRing<T> {
    seq: u64,
    events: VecDeque<T>,
}

impl<T> View for EventRing<T> {
    type V = (u64, Seq<T>);

    /// How many events were ever recorded, and the ones kept, oldest first.
    closed spec fn view(&self) -> (u64, Seq<T>) {
        (self.seq, self.events@)
    }
}

impl<T> EventRing<T> {
    /// The ring never holds more than [`RING_CAPACITY`] events.
    pub open spec fn wf(&self) -> bool {
        self@.1.len() <= RING_CAPACITY
    }

    pub fn new() -> (r: Self)
        ensures
            r@.0 == 0,
            r@.1 == Seq::<T>::empty(),
            r.wf(),
    {
        EventRing { seq: 0, events: VecDeque::with_capacity(RING_CAPACITY) }
    }

    /// The number the next recorded event gets.
    pub fn next_seq(&self) -> (r: u64)
        requires
            self@.0 < u64::MAX,
        ensures
            r == self@.0 + 1,
    {
        self.seq + 1
    }

    /// Records one event: numbers it, appends it, and evicts the oldest
    /// entry past [`RING_CAPACITY`]. Returns the event's number.
    pub fn push(&mut self, event: T) -> (seq: u64)
        requires
            old(self).wf(),
            old(self)@.0 < u64::MAX,
        ensures
            final(self).wf(),
            seq == old(self)@.0 + 1,
            final(self)@.0 == seq,
            final(self)@.1 == keep_last(old(self)@.1.push(event), RING_CAPACITY as int),
            final(self)@ == ring_push(old(self)@, event),
    {
        self.seq = self.seq + 1;
        self.events.push_back(event);
        if self.events.len() > RING_CAPACITY {
            let _ = self.events.pop_front();
        }
        proof {
            let s = old(self)@.1.push(event);
            if s.len() > RING_CAPACITY {
                assert(self.events@ =~= s.skip(s.len() - RING_CAPACITY));
            }
        }
        self.seq
    }

    /// Total events ever recorded.
    pub fn event_count(&self) -> (r: u64)
        ensures
            r == self@.0,
    {
        self.seq
    }

    /// How many events the ring holds.
    pub fn len(&self) -> (r: usize)
        ensures
            r == self@.1.len(),
    {
        self.events.len()
    }

    /// The `i`th event kept, oldest first.
    pub fn get(&self, i: usize) -> (r: &T)
        requires
            i < self@.1.len(),
        ensures
            *r == self@.1[i as int],
    {
        &self.events[i]
    }
}

/// The ring always holds exactly the most recent events ever recorded, up
/// to its capacity: trimming after every push is the same as trimming once
/// at the end.
pub proof fn law_ring_keeps_most_recent<T>(s: Seq<T>, e: T)
    ensures
        keep_last(keep_last(s, RING_CAPACITY as int).push(e), RING_CAPACITY as int) == keep_last(
            s.push(e),
            RING_CAPACITY as int,
        ),
{
    let c = RING_CAPACITY as int;
    let lhs = keep_last(keep_last(s, c).push(e), c);
    let rhs = keep_last(s.push(e), c);
    assert(lhs =~= rhs);
}

/// One recorded event's effect on a ring's view (count, kept events).
pub open spec fn ring_push<T>(v: (u64, Seq<T>), e: T) -> (u64, Seq<T>) {
    ((v.0 + 1) as u64, keep_last(v.1.push(e), RING_CAPACITY as int))
}

/// Recording `events`, oldest first, onto a ring whose view is `v`.
pub open spec fn ring_pushes<T>(v: (u64, Seq<T>), events: Seq<T>) -> (u64, Seq<T>)
    decreases events.len(),
{
    if events.len() == 0 {
        v
    } else {
        ring_push(ring_pushes(v, events.drop_last()), events.last())
    }
}

/// After `k` events are recorded on a fresh ring, the `k`th got number `k`,
/// the ring counts `k`, and it holds the last `min(k, RING_CAPACITY)` of
/// them, oldest first, ending with the newest.
pub proof fn law_ring_numbers_every_event<T>(events: Seq<T>)
    requires
        events.len() < u64::MAX,
    ensures
        ring_pushes((0u64, Seq::<T>::empty()), events) == (events.len() as u64, keep_last(
            events,
            RING_CAPACITY as int,
        )),
    decreases events.len(),
{
    if events.len() > 0 {
        let prev = events.drop_last();
        law_ring_numbers_every_event(prev);
        law_ring_keeps_most_recent(prev, events.last());
        assert(prev.push(events.last()) =~= events);
    } else {
        assert(keep_last(events, RING_CAPACITY as int) =~= Seq::<T>::empty());
    }
}

} // verus!
