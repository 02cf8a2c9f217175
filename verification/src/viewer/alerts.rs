//! The viewer page's motion-alert bookkeeping: which motion events raise
//! the alert banner (and chime), across live events, reconnect replays and
//! server restarts.
//!
//! Events are seen as `(seq, started)` pairs: the server's sequence number
//! and whether the event is a `started` (as opposed to a `stopped`) one.

use vstd::prelude::*;

use crate::detect::motion::hub::keep_last;

verus! {

/// How many raw events the page keeps in memory.
pub const MAX_EVENTS: usize = 50;

/// How many formatted lines the motion panel shows.
pub const MAX_DISPLAY_ITEMS: usize = 6;

/// The page's event list after a live event `e`: appended, and the oldest
/// dropped once there are more than [`MAX_EVENTS`].
pub open spec fn after_live_event<T>(events: Seq<T>, e: T) -> Seq<T> {
    let t = events.push(e);
    if t.len() > MAX_EVENTS {
        t.skip(1)
    } else {
        t
    }
}

/// Appends a live event to the page's list, dropping the oldest past
/// [`MAX_EVENTS`].
pub fn remember_event<T>(events: &mut Vec<T>, e: T)
    ensures
        final(events)@ == after_live_event(old(events)@, e),
{
    events.push(e);
    if events.len() > MAX_EVENTS {
        let _ = events.remove(0);
        assert(events@ =~= after_live_event(old(events)@, e));
    }
}

/// A list of at most [`MAX_EVENTS`] stays that way, holding the most recent
/// events: one live event at a time, the page keeps the last
/// [`MAX_EVENTS`] of everything it was sent.
pub proof fn law_live_events_keep_the_most_recent<T>(events: Seq<T>, e: T)
    requires
        events.len() <= MAX_EVENTS,
    ensures
        after_live_event(events, e) == keep_last(events.push(e), MAX_EVENTS as int),
        after_live_event(events, e).len() <= MAX_EVENTS,
{
}

/// The largest sequence number among `evs`, or -1 if there are none.
pub open spec fn max_seq(evs: Seq<(u64, bool)>) -> i64
    decreases evs.len(),
{
    if evs.len() == 0 {
        -1i64
    } else {
        let m = max_seq(evs.drop_last());
        let s = evs.last().0 as i64;
        if s > m {
            s
        } else {
            m
        }
    }
}

/// The last `started` event among the first `n` of `evs` whose sequence
/// number is above `floor` (any, when `floor` is `None`).
pub open spec fn last_started_above(evs: Seq<(u64, bool)>, n: int, floor: Option<i64>) -> Option<int>
    decreases n,
{
    if n <= 0 {
        None
    } else if evs[n - 1].1 && (floor matches Some(f) ==> evs[n - 1].0 as i64 > f) {
        Some(n - 1)
    } else {
        last_started_above(evs, n - 1, floor)
    }
}

/// Whether a motion episode is in progress according to `evs`: the last
/// event was a `started` one.
pub open spec fn moving_after(evs: Seq<(u64, bool)>) -> bool {
    evs.len() > 0 && evs.last().1
}

/// Tracks which events have already raised an alert, so a reconnect that
/// replays history doesn't raise them again.
pub struct AlertTracker {
    seeded: bool,
    last_alerted_seq: i64,
}

/// The tracker's state: whether the first snapshot has been absorbed, and
/// the newest sequence number alerted on (-1 for none).
pub struct AlertView {
    pub seeded: bool,
    pub last_alerted_seq: i64,
}

impl View for AlertTracker {
    type V = AlertView;

    closed spec fn view(&self) -> AlertView {
        AlertView { seeded: self.seeded, last_alerted_seq: self.last_alerted_seq }
    }
}

impl AlertTracker {
    pub fn new() -> (r: Self)
        ensures
            !r@.seeded,
            r@.last_alerted_seq == -1,
    {
        AlertTracker { seeded: false, last_alerted_seq: -1 }
    }

    /// One live motion event. Every `started` event raises the alert (the
    /// return value), and is remembered as alerted.
    pub fn on_event(&mut self, seq: u64, started: bool) -> (alert: bool)
        ensures
            alert == started,
            final(self)@.seeded == old(self)@.seeded,
            final(self)@.last_alerted_seq == if started && seq as i64 > old(self)@.last_alerted_seq {
                seq as i64
            } else {
                old(self)@.last_alerted_seq
            },
    {
        if started {
            let s = #[verifier::truncate] (seq as i64);
            if s > self.last_alerted_seq {
                self.last_alerted_seq = s;
            }
        }
        started
    }

    /// A history snapshot, sent on every (re)connect. Returns the index of
    /// the one event to raise the alert for, if any:
    /// - the first snapshot after page load is absorbed silently;
    /// - a snapshot whose newest sequence number is below the last alerted
    ///   one means the server restarted: alert on its newest `started`;
    /// - otherwise (a reconnect after a network blip) alert on the newest
    ///   `started` event not yet alerted on.
    pub fn on_snapshot(&mut self, evs: &[(u64, bool)]) -> (alert: Option<usize>)
        ensures
            final(self)@.seeded,
            ({
                let m = max_seq(evs@);
                let old_last = old(self)@.last_alerted_seq;
                if !old(self)@.seeded {
                    alert is None && final(self)@.last_alerted_seq == m
                } else {
                    let pick = if m < old_last {
                        last_started_above(evs@, evs@.len() as int, None)
                    } else {
                        last_started_above(evs@, evs@.len() as int, Some(old_last))
                    };
                    &&& match pick {
                        Some(k) => alert == Some(k as usize) && final(self)@.last_alerted_seq
                            == evs@[k].0 as i64,
                        None => alert is None && final(self)@.last_alerted_seq == if m
                            < old_last {
                            -1i64
                        } else {
                            old_last
                        },
                    }
                }
            }),
    {
        let mut max: i64 = -1;
        let mut i: usize = 0;
        while i < evs.len()
            invariant
                i <= evs@.len(),
                max == max_seq(evs@.take(i as int)),
            decreases evs@.len() - i,
        {
            assert(evs@.take(i as int + 1).drop_last() == evs@.take(i as int));
            let s = #[verifier::truncate] (evs[i].0 as i64);
            if s > max {
                max = s;
            }
            i = i + 1;
        }
        assert(evs@.take(evs@.len() as int) == evs@);

        if !self.seeded {
            // First snapshot after page load: absorb history silently.
            self.seeded = true;
            self.last_alerted_seq = max;
            return None;
        }
        let floor = if max < self.last_alerted_seq {
            // seq reset = server restart. Re-alert on the latest started
            // event.
            self.last_alerted_seq = -1;
            None
        } else {
            // Reconnect after network blip: alert on unseen `started`
            // events, only the newest one.
            Some(self.last_alerted_seq)
        };
        let mut k = evs.len();
        while k > 0
            invariant
                k <= evs@.len(),
                self@.seeded,
                old(self)@.seeded,
                max == max_seq(evs@),
                floor == if max < old(self)@.last_alerted_seq {
                    None::<i64>
                } else {
                    Some(old(self)@.last_alerted_seq)
                },
                self@.last_alerted_seq == if max < old(self)@.last_alerted_seq {
                    -1i64
                } else {
                    old(self)@.last_alerted_seq
                },
                last_started_above(evs@, evs@.len() as int, floor) == last_started_above(
                    evs@,
                    k as int,
                    floor,
                ),
            decreases k,
        {
            let (seq, started) = evs[k - 1];
            let above = match floor {
                Some(f) => (#[verifier::truncate] (seq as i64)) > f,
                None => true,
            };
            if started && above {
                self.last_alerted_seq = #[verifier::truncate] (seq as i64);
                return Some(k - 1);
            }
            k = k - 1;
        }
        None
    }
}

/// Which of the page's kept events the panel lists, newest first: the last
/// [`MAX_DISPLAY_ITEMS`] of them, in reverse.
pub open spec fn display_order(n: int) -> Seq<int> {
    let shown = if n > MAX_DISPLAY_ITEMS { MAX_DISPLAY_ITEMS as int } else { n };
    Seq::new(shown as nat, |i: int| n - 1 - i)
}

/// The indices of the events the motion panel shows, newest first.
pub fn display_indices(n: usize) -> (r: Vec<usize>)
    ensures
        r@.map_values(|i: usize| i as int) == display_order(n as int),
{
    let start = if n > MAX_DISPLAY_ITEMS { n - MAX_DISPLAY_ITEMS } else { 0 };
    let mut r: Vec<usize> = Vec::new();
    let mut i = n;
    while i > start
        invariant
            start <= i <= n,
            start == if n > MAX_DISPLAY_ITEMS { n - MAX_DISPLAY_ITEMS } else { 0 },
            r@.len() == n - i,
            forall|j: int| 0 <= j < r@.len() ==> #[trigger] r@[j] as int == n - 1 - j,
        decreases i,
    {
        r.push(i - 1);
        i = i - 1;
    }
    assert(r@.map_values(|i: usize| i as int) =~= display_order(n as int));
    r
}

/// A snapshot replayed on reconnect never raises an alert for an event at
/// or below the newest one already alerted on, unless the server restarted
/// (its newest sequence number fell below that one).
pub proof fn law_no_repeat_alert_on_reconnect(evs: Seq<(u64, bool)>, last: i64, n: int)
    requires
        max_seq(evs) >= last,
        0 <= n <= evs.len(),
    ensures
        last_started_above(evs, n, Some(last)) matches Some(k) ==> evs[k].0 as i64 > last && evs[k].1,
    decreases n,
{
    if n > 0 {
        law_no_repeat_alert_on_reconnect(evs, last, n - 1);
    }
}

} // verus!
