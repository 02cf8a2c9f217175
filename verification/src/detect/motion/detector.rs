//! Turns a raw per-sample "is the masked region moving right now" boolean
//! into discrete `motion_started`/`motion_stopped` events, debounced so a
//! flickering score doesn't machine-gun events.
//!
//! Pure state machine: `now` is passed in by the caller on every call
//! rather than read from the clock internally, following the same pattern
//! as `Throttle::should_run` - it's what makes this trivially unit-testable
//! with fake time instead of real sleeps.

use vstd::prelude::*;

use crate::clock::{Duration, Instant, elapsed};

verus! {

#[derive(Debug, Clone, Copy)]
pub struct DebounceConfig {
    /// How long motion must persist before `Started` fires.
    pub sustain: Duration,
    /// How long stillness must persist (after the last moving sample)
    /// before `Stopped` fires.
    pub quiet: Duration,
    /// Minimum gap after a `Stopped` before a new episode can start.
    pub cooldown: Duration,
}

impl DebounceConfig {
    /// The debounce periods from their command-line millisecond values.
    pub fn from_millis(sustain_ms: u64, quiet_ms: u64, cooldown_ms: u64) -> (r: DebounceConfig)
        ensures
            r.sustain == Duration::from_millis_spec(sustain_ms),
            r.quiet == Duration::from_millis_spec(quiet_ms),
            r.cooldown == Duration::from_millis_spec(cooldown_ms),
    {
        DebounceConfig {
            sustain: Duration::from_millis(sustain_ms),
            quiet: Duration::from_millis(quiet_ms),
            cooldown: Duration::from_millis(cooldown_ms),
        }
    }
}

#[derive(Debug, Clone, Copy, PartialEq, Eq)]
pub enum MotionKind {
    Started,
    Stopped { duration_ms: u64 },
}

/// Where an episode stands.
#[derive(Debug, Clone, Copy)]
pub enum Phase {
    Still,
    Rising { since: Instant },
    Active { since: Instant, last_moving: Instant },
}

/// The debouncer's state: its phase and when the last episode stopped.
pub struct DetectorState {
    pub phase: Phase,
    pub last_stopped: Option<Instant>,
}

/// Whether an episode has been reported as started and not yet stopped.
pub open spec fn is_active(phase: Phase) -> bool {
    phase is Active
}

/// Whether `now` is still inside the cooldown after the last `Stopped`.
pub open spec fn in_cooldown(last_stopped: Option<Instant>, now: Instant, cooldown: Duration) -> bool {
    last_stopped matches Some(t) && now.nanos < t.nanos + cooldown.nanos
}

/// Whole milliseconds from `earlier` to `later` (zero if `later` isn't
/// after it).
pub open spec fn millis_between(later: Instant, earlier: Instant) -> u64 {
    (elapsed(later, earlier) / 1_000_000) as u64
}

/// One sample: the next phase, the next `last_stopped`, and the event the
/// sample fires, if any.
pub open spec fn observe_step(
    phase: Phase,
    last_stopped: Option<Instant>,
    cfg: DebounceConfig,
    now: Instant,
    moving: bool,
) -> (Phase, Option<Instant>, Option<MotionKind>) {
    match phase {
        Phase::Still => {
            if !moving {
                (Phase::Still, last_stopped, None)
            } else {
                (Phase::Rising { since: now }, last_stopped, None)
            }
        },
        Phase::Rising { since } => {
            if !moving {
                (Phase::Still, last_stopped, None)
            } else if elapsed(now, since) < cfg.sustain.nanos {
                (phase, last_stopped, None)
            } else if in_cooldown(last_stopped, now, cfg.cooldown) {
                (phase, last_stopped, None)
            } else {
                (Phase::Active { since, last_moving: now }, last_stopped, Some(MotionKind::Started))
            }
        },
        Phase::Active { since, last_moving } => {
            if moving {
                (Phase::Active { since, last_moving: now }, last_stopped, None)
            } else if elapsed(now, last_moving) < cfg.quiet.nanos {
                (phase, last_stopped, None)
            } else {
                (
                    Phase::Still,
                    Some(now),
                    Some(MotionKind::Stopped { duration_ms: millis_between(last_moving, since) }),
                )
            }
        },
    }
}

/// A forced end of the episode at `now`.
pub open spec fn close_step(phase: Phase, last_stopped: Option<Instant>, now: Instant) -> (
    Phase,
    Option<Instant>,
    Option<MotionKind>,
) {
    match phase {
        Phase::Active { since, .. } => (
            Phase::Still,
            Some(now),
            Some(MotionKind::Stopped { duration_ms: millis_between(now, since) }),
        ),
        _ => (Phase::Still, last_stopped, None),
    }
}

/// One monitored subject's motion state. The motion worker owns exactly
/// one of these for the lifetime of the process.
pub struct MotionDetector {
    phase: Phase,
    last_stopped: Option<Instant>,
    cfg: DebounceConfig,
}

impl View for MotionDetector {
    type V = DetectorState;

    closed spec fn view(&self) -> DetectorState {
        DetectorState { phase: self.phase, last_stopped: self.last_stopped }
    }
}

impl MotionDetector {
    /// The debounce windows this detector was made with.
    pub closed spec fn config(&self) -> DebounceConfig {
        self.cfg
    }

    pub fn new(cfg: DebounceConfig) -> (r: Self)
        ensures
            r@.phase is Still,
            r@.last_stopped is None,
            r.config() == cfg,
    {
        Self { phase: Phase::Still, last_stopped: None, cfg }
    }

    /// Feed one sample's motion verdict (`moving`, from a masked frame
    /// diff). Returns `Some` exactly on the sample that crosses a
    /// start/stop boundary.
    pub fn observe(&mut self, now: Instant, moving: bool) -> (r: Option<MotionKind>)
        ensures
            final(self).config() == old(self).config(),
            (final(self)@.phase, final(self)@.last_stopped, r) == observe_step(
                old(self)@.phase,
                old(self)@.last_stopped,
                old(self).config(),
                now,
                moving,
            ),
            // `Started` only begins an episode, and never inside the cooldown
            // or before motion has lasted `sustain`.
            r == Some(MotionKind::Started) ==> {
                &&& moving
                &&& !is_active(old(self)@.phase)
                &&& is_active(final(self)@.phase)
                &&& !in_cooldown(old(self)@.last_stopped, now, old(self).config().cooldown)
                &&& old(self)@.phase matches Phase::Rising { since }
                    && elapsed(now, since) >= old(self).config().sustain.nanos
            },
            // `Stopped` only ends an episode, once stillness has lasted `quiet`,
            // and starts the cooldown.
            r matches Some(MotionKind::Stopped { .. }) ==> {
                &&& !moving
                &&& is_active(old(self)@.phase)
                &&& !is_active(final(self)@.phase)
                &&& final(self)@.last_stopped == Some(now)
                &&& old(self)@.phase matches Phase::Active { last_moving, .. }
                    && elapsed(now, last_moving) >= old(self).config().quiet.nanos
            },
            // Without an event, whether an episode is running doesn't change.
            r is None ==> is_active(final(self)@.phase) == is_active(old(self)@.phase)
                && final(self)@.last_stopped == old(self)@.last_stopped,
    {
        match self.phase {
            Phase::Still => {
                if !moving {
                    return None;
                }
                // A sustain timer that starts *during* cooldown would let a
                // continuously-moving subject promote to `Active` the instant
                // cooldown expires, rather than needing a fresh `sustain`
                // window on top of it.
                self.phase = Phase::Rising { since: now };
                None
            },
            Phase::Rising { since } => {
                if !moving {
                    self.phase = Phase::Still;
                    return None;
                }
                if now.duration_since(since).nanos < self.cfg.sustain.nanos {
                    return None;
                }
                let in_cooldown = match self.last_stopped {
                    Some(t) => now.nanos < t.nanos || now.nanos - t.nanos < self.cfg.cooldown.nanos,
                    None => false,
                };
                if in_cooldown {
                    // Sustain met, but still cooling down from the last
                    // episode: stay in `Rising` (not `Still`) so continued
                    // motion promotes the instant cooldown lapses, instead of
                    // needing another full `sustain` window on top of it.
                    return None;
                }
                self.phase = Phase::Active { since, last_moving: now };
                Some(MotionKind::Started)
            },
            Phase::Active { since, last_moving } => {
                if moving {
                    self.phase = Phase::Active { since, last_moving: now };
                    return None;
                }
                if now.duration_since(last_moving).nanos < self.cfg.quiet.nanos {
                    return None;
                }
                let duration_ms = last_moving.duration_since(since).as_millis();
                self.phase = Phase::Still;
                self.last_stopped = Some(now);
                Some(MotionKind::Stopped { duration_ms })
            },
        }
    }

    /// Force-ends an in-flight episode without waiting out the `quiet`
    /// window - used when the subject leaves the frame entirely (no person
    /// box to sample motion against) or at shutdown. A `Rising` episode
    /// that hasn't reached `sustain` yet just resets, since it was never
    /// reported as `Started`.
    pub fn close(&mut self, now: Instant) -> (r: Option<MotionKind>)
        ensures
            final(self).config() == old(self).config(),
            (final(self)@.phase, final(self)@.last_stopped, r) == close_step(
                old(self)@.phase,
                old(self)@.last_stopped,
                now,
            ),
            !is_active(final(self)@.phase),
            r is Some <==> is_active(old(self)@.phase),
    {
        match self.phase {
            Phase::Active { since, .. } => {
                let duration_ms = now.duration_since(since).as_millis();
                self.phase = Phase::Still;
                self.last_stopped = Some(now);
                Some(MotionKind::Stopped { duration_ms })
            },
            Phase::Rising { .. } => {
                self.phase = Phase::Still;
                None
            },
            Phase::Still => None,
        }
    }
}

} // verus!

verus! {

/// One call on a [`MotionDetector`]: a sample, or a forced close.
#[derive(Debug, Clone, Copy, PartialEq, Eq)]
pub enum DetectorCall {
    Observe { now: Instant, moving: bool },
    Close { now: Instant },
}

/// One call's effect: the next phase and `last_stopped`, and the event it
/// fires, if any.
pub open spec fn call_step(
    phase: Phase,
    last_stopped: Option<Instant>,
    cfg: DebounceConfig,
    call: DetectorCall,
) -> (Phase, Option<Instant>, Option<MotionKind>) {
    match call {
        DetectorCall::Observe { now, moving } => observe_step(phase, last_stopped, cfg, now, moving),
        DetectorCall::Close { now } => close_step(phase, last_stopped, now),
    }
}

/// Makes `calls` one by one from the given state: the final phase and
/// `last_stopped`, and every event fired, in order.
pub open spec fn run_all(
    phase: Phase,
    last_stopped: Option<Instant>,
    cfg: DebounceConfig,
    calls: Seq<DetectorCall>,
) -> (Phase, Option<Instant>, Seq<MotionKind>)
    decreases calls.len(),
{
    if calls.len() == 0 {
        (phase, last_stopped, Seq::empty())
    } else {
        let step = call_step(phase, last_stopped, cfg, calls[0]);
        let rest = run_all(step.0, step.1, cfg, calls.drop_first());
        let fired = match step.2 {
            Some(e) => seq![e],
            None => Seq::empty(),
        };
        (rest.0, rest.1, fired + rest.2)
    }
}

/// Whether `events` strictly alternate between `Started` and `Stopped`,
/// beginning with `Stopped` exactly when an episode is already `active`.
pub open spec fn alternates(active: bool, events: Seq<MotionKind>) -> bool
    decreases events.len(),
{
    if events.len() == 0 {
        true
    } else {
        match events[0] {
            MotionKind::Started => !active && alternates(true, events.drop_first()),
            MotionKind::Stopped { .. } => active && alternates(false, events.drop_first()),
        }
    }
}

/// The phase's episode flag after `events` starting from `active`.
pub open spec fn active_after(active: bool, events: Seq<MotionKind>) -> bool {
    if events.len() == 0 {
        active
    } else {
        events.last() is Started
    }
}

/// Over any sequence of samples and forced closes, `Started` and `Stopped`
/// strictly alternate - a sustained movement fires `Started` exactly once,
/// and nothing fires again until a `Stopped` (from stillness or a close)
/// ends the episode - and an episode is in progress at the end exactly
/// when the last event was `Started`. From a fresh detector (not active)
/// the events therefore begin with `Started`.
pub proof fn law_events_alternate(
    phase: Phase,
    last_stopped: Option<Instant>,
    cfg: DebounceConfig,
    calls: Seq<DetectorCall>,
)
    ensures
        alternates(is_active(phase), run_all(phase, last_stopped, cfg, calls).2),
        is_active(run_all(phase, last_stopped, cfg, calls).0) == active_after(
            is_active(phase),
            run_all(phase, last_stopped, cfg, calls).2,
        ),
    decreases calls.len(),
{
    if calls.len() > 0 {
        let step = call_step(phase, last_stopped, cfg, calls[0]);
        law_events_alternate(step.0, step.1, cfg, calls.drop_first());
        let rest = run_all(step.0, step.1, cfg, calls.drop_first());
        let all = run_all(phase, last_stopped, cfg, calls);
        match step.2 {
            Some(e) => {
                assert(all.2 == seq![e] + rest.2);
                assert(all.2.drop_first() == rest.2);
                if rest.2.len() > 0 {
                    assert(all.2.last() == rest.2.last());
                }
            },
            None => {
                assert(all.2 == rest.2);
            },
        }
    }
}

/// A close ends whatever episode is in progress: it fires `Stopped`
/// exactly when one was active, afterwards no episode is active (a second
/// close fires nothing, and the next moving sample fires nothing), and a
/// close that fires nothing starts no cooldown.
pub proof fn law_close_ends_the_episode(
    phase: Phase,
    last_stopped: Option<Instant>,
    cfg: DebounceConfig,
    now: Instant,
    later: Instant,
)
    ensures
        close_step(phase, last_stopped, now).2 is Some <==> is_active(phase),
        close_step(phase, last_stopped, now).0 is Still,
        close_step(close_step(phase, last_stopped, now).0, close_step(phase, last_stopped, now).1, later).2 is None,
        observe_step(
            close_step(phase, last_stopped, now).0,
            close_step(phase, last_stopped, now).1,
            cfg,
            later,
            true,
        ).2 is None,
        !is_active(phase) ==> close_step(phase, last_stopped, now).1 == last_stopped,
{
}

/// A close that ends no episode leaves a fresh detector free to start one
/// at once: a movement sustained for the sustain window after it fires
/// `Started`, with no cooldown in the way.
pub proof fn law_idle_close_starts_no_cooldown(
    phase: Phase,
    cfg: DebounceConfig,
    now: Instant,
    first: Instant,
    second: Instant,
)
    requires
        !is_active(phase),
        second.nanos >= first.nanos + cfg.sustain.nanos,
    ensures
        ({
            let c = close_step(phase, None, now);
            let a = observe_step(c.0, c.1, cfg, first, true);
            let b = observe_step(a.0, a.1, cfg, second, true);
            &&& a.2 is None
            &&& b.2 == Some(MotionKind::Started)
        }),
{
}

/// When a call is made.
pub open spec fn call_time(call: DetectorCall) -> Instant {
    match call {
        DetectorCall::Observe { now, .. } => now,
        DetectorCall::Close { now } => now,
    }
}

/// Whether a call is a sample that saw movement.
pub open spec fn is_moving_sample(call: DetectorCall) -> bool {
    call matches DetectorCall::Observe { moving: true, .. }
}

/// How many moving samples end `calls`: the current run of movement, cut
/// by the latest still sample or close.
pub open spec fn trailing_run(calls: Seq<DetectorCall>) -> nat
    decreases calls.len(),
{
    if calls.len() == 0 || !is_moving_sample(calls.last()) {
        0
    } else {
        1 + trailing_run(calls.drop_last())
    }
}

/// The time of the latest call in `calls` that fired `Stopped`, made one
/// by one on a fresh detector.
pub open spec fn latest_stop(cfg: DebounceConfig, calls: Seq<DetectorCall>) -> Option<Instant>
    decreases calls.len(),
{
    if calls.len() == 0 {
        None
    } else {
        let before = run_all(Phase::Still, None, cfg, calls.drop_last());
        if call_step(before.0, before.1, cfg, calls.last()).2 matches Some(MotionKind::Stopped { .. }) {
            Some(call_time(calls.last()))
        } else {
            latest_stop(cfg, calls.drop_last())
        }
    }
}

/// The event one call fires, as a sequence of zero or one events.
pub open spec fn fired(e: Option<MotionKind>) -> Seq<MotionKind> {
    match e {
        Some(k) => seq![k],
        None => Seq::empty(),
    }
}

/// The time of the latest moving sample in `calls`.
pub open spec fn latest_moving(calls: Seq<DetectorCall>) -> Option<Instant>
    decreases calls.len(),
{
    if calls.len() == 0 {
        None
    } else if is_moving_sample(calls.last()) {
        Some(call_time(calls.last()))
    } else {
        latest_moving(calls.drop_last())
    }
}

/// The time of the first sample of the run of movement that fired the
/// latest `Started` in `calls`, made one by one on a fresh detector.
pub open spec fn latest_start(cfg: DebounceConfig, calls: Seq<DetectorCall>) -> Option<Instant>
    decreases calls.len(),
{
    if calls.len() == 0 {
        None
    } else {
        let before = run_all(Phase::Still, None, cfg, calls.drop_last());
        if call_step(before.0, before.1, cfg, calls.last()).2 == Some(MotionKind::Started)
            && trailing_run(calls) <= calls.len() {
            Some(call_time(calls[calls.len() - trailing_run(calls)]))
        } else {
            latest_start(cfg, calls.drop_last())
        }
    }
}

proof fn lemma_run_all_push(
    phase: Phase,
    last_stopped: Option<Instant>,
    cfg: DebounceConfig,
    calls: Seq<DetectorCall>,
    call: DetectorCall,
)
    ensures
        ({
            let before = run_all(phase, last_stopped, cfg, calls);
            let step = call_step(before.0, before.1, cfg, call);
            run_all(phase, last_stopped, cfg, calls.push(call)) == (
                step.0,
                step.1,
                before.2 + fired(step.2),
            )
        }),
    decreases calls.len(),
{
    let all = calls.push(call);
    if calls.len() == 0 {
        let step = call_step(phase, last_stopped, cfg, call);
        assert(all[0] == call);
        assert(all.drop_first() == Seq::<DetectorCall>::empty());
        let rest = run_all(step.0, step.1, cfg, all.drop_first());
        assert(rest == (step.0, step.1, Seq::<MotionKind>::empty()));
        assert(run_all(phase, last_stopped, cfg, all).2 == fired(step.2) + rest.2);
        assert(fired(step.2) + rest.2 == Seq::<MotionKind>::empty() + fired(step.2));
    } else {
        let first = call_step(phase, last_stopped, cfg, calls[0]);
        assert(all[0] == calls[0]);
        assert(all.drop_first() == calls.drop_first().push(call));
        lemma_run_all_push(first.0, first.1, cfg, calls.drop_first(), call);
        let rest = run_all(first.0, first.1, cfg, calls.drop_first());
        let step = call_step(rest.0, rest.1, cfg, call);
        assert(run_all(phase, last_stopped, cfg, all).2 == fired(first.2) + (rest.2 + fired(
            step.2,
        )));
        assert(run_all(phase, last_stopped, cfg, calls).2 == fired(first.2) + rest.2);
        assert(fired(first.2) + (rest.2 + fired(step.2)) == (fired(first.2) + rest.2) + fired(
            step.2,
        ));
    }
}

/// On a fresh detector, whenever no episode is in progress the phase is
/// read off the calls: `Still` after a still sample or close, and rising
/// since the first sample of the current run of movement otherwise; and
/// `last_stopped` is the time of the latest `Stopped`.
proof fn lemma_history_state(cfg: DebounceConfig, calls: Seq<DetectorCall>)
    ensures
        ({
            let st = run_all(Phase::Still, None, cfg, calls);
            &&& trailing_run(calls) <= calls.len()
            &&& st.1 == latest_stop(cfg, calls)
            &&& !is_active(st.0) ==> (if trailing_run(calls) == 0 {
                st.0 is Still
            } else {
                st.0 == Phase::Rising {
                    since: call_time(calls[calls.len() - trailing_run(calls)]),
                }
            })
            &&& is_active(st.0) ==> (latest_start(cfg, calls) matches Some(since) && latest_moving(
                calls,
            ) matches Some(last_moving) && st.0 == Phase::Active { since, last_moving })
        }),
    decreases calls.len(),
{
    if calls.len() > 0 {
        let prefix = calls.drop_last();
        let last = calls.last();
        lemma_history_state(cfg, prefix);
        assert(prefix.push(last) == calls);
        lemma_run_all_push(Phase::Still, None, cfg, prefix, last);
        let before = run_all(Phase::Still, None, cfg, prefix);
        if is_moving_sample(last) && trailing_run(prefix) > 0 {
            assert(calls[calls.len() - trailing_run(calls)] == prefix[prefix.len() - trailing_run(
                prefix,
            )]);
        }
        assert(calls.drop_last() == prefix);
    }
}

/// `Started` fires on a sample exactly when no episode is in progress (the
/// events so far do not end with an unmatched `Started`), the sample sees
/// movement, it is at least the second of an unbroken run of moving
/// samples, the run has lasted the sustain window, and the cooldown after
/// the latest `Stopped`, if any, has passed.
pub proof fn law_started_exactly_when(
    cfg: DebounceConfig,
    calls: Seq<DetectorCall>,
    now: Instant,
    moving: bool,
)
    ensures
        ({
            let st = run_all(Phase::Still, None, cfg, calls);
            let this = DetectorCall::Observe { now, moving };
            let run = trailing_run(calls.push(this));
            call_step(st.0, st.1, cfg, this).2 == Some(MotionKind::Started) <==> {
                &&& !active_after(false, st.2)
                &&& moving
                &&& run >= 2
                &&& elapsed(now, call_time(calls[calls.len() + 1 - run])) >= cfg.sustain.nanos
                &&& !in_cooldown(latest_stop(cfg, calls), now, cfg.cooldown)
            }
        }),
{
    law_events_alternate(Phase::Still, None, cfg, calls);
    lemma_history_state(cfg, calls);
    let this = DetectorCall::Observe { now, moving };
    assert(calls.push(this).drop_last() == calls);
    assert(calls.push(this).last() == this);
}

/// While an episode is in progress (the events so far end with an
/// unmatched `Started`), a sample fires `Stopped` exactly when it sees no
/// movement and the quiet window has passed since the latest moving sample,
/// and the reported duration runs from the first sample of the run that
/// fired `Started` to that latest moving sample; a sample never fires a
/// second `Started`.
pub proof fn law_stopped_exactly_when(
    cfg: DebounceConfig,
    calls: Seq<DetectorCall>,
    now: Instant,
    moving: bool,
)
    ensures
        ({
            let st = run_all(Phase::Still, None, cfg, calls);
            let fired_now = call_step(st.0, st.1, cfg, DetectorCall::Observe { now, moving }).2;
            active_after(false, st.2) ==> {
                &&& latest_start(cfg, calls) matches Some(since)
                &&& latest_moving(calls) matches Some(last_moving)
                &&& (fired_now == Some(MotionKind::Stopped { duration_ms: millis_between(last_moving, since) })
                    <==> !moving && elapsed(now, last_moving) >= cfg.quiet.nanos)
                &&& (fired_now is Some ==> fired_now == Some(
                    MotionKind::Stopped { duration_ms: millis_between(last_moving, since) },
                ))
            }
        }),
{
    law_events_alternate(Phase::Still, None, cfg, calls);
    lemma_history_state(cfg, calls);
}

/// A close on a detector that has taken `calls` fires `Stopped`, timed
/// from the first sample of the run that fired the open `Started` to the
/// close, exactly when an episode is in progress, and nothing otherwise;
/// afterwards no episode is in progress.
pub proof fn law_close_after_any_history(cfg: DebounceConfig, calls: Seq<DetectorCall>, now: Instant)
    ensures
        ({
            let st = run_all(Phase::Still, None, cfg, calls);
            let after = run_all(Phase::Still, None, cfg, calls.push(DetectorCall::Close { now }));
            &&& active_after(false, st.2) ==> (latest_start(cfg, calls) matches Some(since)
                && after.2 == st.2.push(MotionKind::Stopped { duration_ms: millis_between(now, since) }))
            &&& !active_after(false, st.2) ==> after.2 == st.2
            &&& !active_after(false, after.2)
        }),
{
    law_events_alternate(Phase::Still, None, cfg, calls);
    lemma_history_state(cfg, calls);
    lemma_run_all_push(Phase::Still, None, cfg, calls, DetectorCall::Close { now });
    law_events_alternate(Phase::Still, None, cfg, calls.push(DetectorCall::Close { now }));
    let st = run_all(Phase::Still, None, cfg, calls);
    assert(st.2 + Seq::<MotionKind>::empty() == st.2);
}

proof fn lemma_quiet_run_keeps_last_stopped(
    phase: Phase,
    last_stopped: Option<Instant>,
    cfg: DebounceConfig,
    calls: Seq<DetectorCall>,
)
    ensures
        run_all(phase, last_stopped, cfg, calls).2.len() == 0 ==> run_all(
            phase,
            last_stopped,
            cfg,
            calls,
        ).1 == last_stopped,
    decreases calls.len(),
{
    if calls.len() > 0 {
        let step = call_step(phase, last_stopped, cfg, calls[0]);
        lemma_quiet_run_keeps_last_stopped(step.0, step.1, cfg, calls.drop_first());
        let rest = run_all(step.0, step.1, cfg, calls.drop_first());
        if step.2 is Some {
            assert(run_all(phase, last_stopped, cfg, calls).2 == fired(step.2) + rest.2);
            assert(fired(step.2).len() == 1);
        }
    }
}

/// On a detector that has taken any calls without firing `Started`, a
/// close fires nothing and starts no cooldown: a movement then sustained
/// for the sustain window fires `Started` on its second sample.
pub proof fn law_idle_close_after_any_history(
    cfg: DebounceConfig,
    calls: Seq<DetectorCall>,
    now: Instant,
    first: Instant,
    second: Instant,
)
    requires
        forall|i: int|
            0 <= i < run_all(Phase::Still, None, cfg, calls).2.len() ==> run_all(
                Phase::Still,
                None,
                cfg,
                calls,
            ).2[i] != MotionKind::Started,
        second.nanos >= first.nanos + cfg.sustain.nanos,
    ensures
        ({
            let st = run_all(Phase::Still, None, cfg, calls);
            let c = close_step(st.0, st.1, now);
            let a = observe_step(c.0, c.1, cfg, first, true);
            let b = observe_step(a.0, a.1, cfg, second, true);
            &&& c.2 is None
            &&& a.2 is None
            &&& b.2 == Some(MotionKind::Started)
        }),
{
    law_events_alternate(Phase::Still, None, cfg, calls);
    lemma_quiet_run_keeps_last_stopped(Phase::Still, None, cfg, calls);
    let st = run_all(Phase::Still, None, cfg, calls);
    if st.2.len() > 0 {
        assert(st.2[0] != MotionKind::Started);
        assert(false);
    }
}

} // verus!
