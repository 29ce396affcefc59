//! Throttling: limiting how often a stream emits.
//!
//! The policy is to drop the excess: an item that becomes available sooner
//! than one interval after the last emitted item is discarded, never delayed
//! or kept for later.

use vstd::prelude::*;
use crate::trace::{is_trace, reversed, Event};

verus! {

/// Whether an item that becomes available at `now_ms` may be emitted, when
/// the last item was emitted at `last_emit_ms` (`None` before the first):
/// the first item always passes, a later one only a full interval after the
/// item emitted before it.
pub open spec fn admits(last_emit_ms: Option<u64>, interval_ms: u64, now_ms: u64) -> bool {
    match last_emit_ms {
        None => true,
        Some(last) => last + interval_ms <= now_ms,
    }
}

/// The state of a throttled stream: the interval it enforces and the moment
/// of its last emission.
#[derive(Clone, Copy, Debug, PartialEq, Eq, Structural)]
pub struct Throttle {
    pub interval_ms: u64,
    pub last_emit_ms: Option<u64>,
}

impl Throttle {
    /// A throttle that has emitted nothing yet.
    pub fn new(interval_ms: u64) -> (throttle: Throttle)
        ensures
            throttle == (Throttle { interval_ms, last_emit_ms: None }),
    {
        Throttle { interval_ms, last_emit_ms: None }
    }

    /// Decides the fate of an item that becomes available at `now_ms`:
    /// `true` emits it and restarts the interval, `false` drops it and leaves
    /// the state as it was.
    pub fn offer(&mut self, now_ms: u64) -> (admitted: bool)
        ensures
            admitted == admits(old(self).last_emit_ms, old(self).interval_ms, now_ms),
            final(self).interval_ms == old(self).interval_ms,
            final(self).last_emit_ms == if admitted {
                Some(now_ms)
            } else {
                old(self).last_emit_ms
            },
    {
        let admitted = match self.last_emit_ms {
            None => true,
            Some(last) => last <= now_ms && now_ms - last >= self.interval_ms,
        };
        if admitted {
            self.last_emit_ms = Some(now_ms);
        }
        admitted
    }
}

/// What a throttled stream emits of the events from index `i` on, when its
/// last emission was at `last_emit_ms`.
pub open spec fn throttled_from<T>(
    events: Seq<Event<T>>,
    interval_ms: u64,
    last_emit_ms: Option<u64>,
    i: int,
) -> Seq<Event<T>>
    decreases events.len() - i,
{
    if i < 0 || i >= events.len() {
        Seq::empty()
    } else if admits(last_emit_ms, interval_ms, events[i].at_ms) {
        seq![events[i]] + throttled_from(events, interval_ms, Some(events[i].at_ms), i + 1)
    } else {
        throttled_from(events, interval_ms, last_emit_ms, i + 1)
    }
}

/// What a freshly throttled stream emits of a source.
pub open spec fn throttled<T>(events: Seq<Event<T>>, interval_ms: u64) -> Seq<Event<T>> {
    throttled_from(events, interval_ms, None, 0)
}

/// Throttles a recorded stream: keeps the events that a throttle with the
/// given interval lets pass, in order, and drops the others.
pub fn throttle<T>(events: Vec<Event<T>>, interval_ms: u64) -> (out: Vec<Event<T>>)
    ensures
        out@ == throttled(events@, interval_ms),
{
    let ghost source = events@;
    let mut rest = reversed(events);
    let mut state = Throttle::new(interval_ms);
    let mut out: Vec<Event<T>> = Vec::new();
    while rest.len() > 0
        invariant
            rest.len() <= source.len(),
            forall|k: int| 0 <= k < rest.len() ==> rest[k] == source[source.len() - 1 - k],
            state.interval_ms == interval_ms,
            out@ + throttled_from(
                source,
                interval_ms,
                state.last_emit_ms,
                source.len() - rest.len(),
            ) == throttled(source, interval_ms),
        decreases rest.len(),
    {
        let event = rest.pop().unwrap();
        if state.offer(event.at_ms) {
            out.push(event);
        }
    }
    out
}

/// No two consecutive outputs of a throttled stream are closer together than
/// the interval, and the first output keeps that distance from the emission
/// before it, whatever the source emits and however fast.
pub proof fn lemma_throttled_from_spacing<T>(
    events: Seq<Event<T>>,
    interval_ms: u64,
    last_emit_ms: Option<u64>,
    i: int,
)
    requires
        0 <= i,
    ensures
        ({
            let out = throttled_from(events, interval_ms, last_emit_ms, i);
            &&& out.len() > 0 ==> admits(last_emit_ms, interval_ms, out[0].at_ms)
            &&& forall|k: int|
                0 < k < out.len() ==> out[k - 1].at_ms + interval_ms <= (#[trigger] out[k]).at_ms
        }),
    decreases events.len() - i,
{
    let out = throttled_from(events, interval_ms, last_emit_ms, i);
    if i < events.len() {
        if admits(last_emit_ms, interval_ms, events[i].at_ms) {
            let rest = throttled_from(events, interval_ms, Some(events[i].at_ms), i + 1);
            lemma_throttled_from_spacing(events, interval_ms, Some(events[i].at_ms), i + 1);
            assert forall|k: int| 0 < k < out.len() implies out[k - 1].at_ms + interval_ms <= (
            #[trigger] out[k]).at_ms by {
                assert(out[k] == rest[k - 1]);
                if k > 1 {
                    assert(out[k - 1] == rest[k - 2]);
                }
            }
        } else {
            lemma_throttled_from_spacing(events, interval_ms, last_emit_ms, i + 1);
        }
    }
}

/// No two consecutive outputs of a throttled stream are closer together than
/// the interval.
pub proof fn lemma_throttled_spacing<T>(events: Seq<Event<T>>, interval_ms: u64)
    ensures
        forall|k: int|
            0 < k < throttled(events, interval_ms).len() ==> throttled(
                events,
                interval_ms,
            )[k - 1].at_ms + interval_ms <= (#[trigger] throttled(events, interval_ms)[k]).at_ms,
{
    lemma_throttled_from_spacing(events, interval_ms, None, 0);
}

/// A throttled stream emits nothing of its own: every output is an event of
/// the source, and the outputs keep the order of the source.
pub proof fn lemma_throttled_from_picks<T>(
    events: Seq<Event<T>>,
    interval_ms: u64,
    last_emit_ms: Option<u64>,
    i: int,
) -> (picks: Seq<int>)
    requires
        0 <= i,
    ensures
        picks.len() == throttled_from(events, interval_ms, last_emit_ms, i).len(),
        forall|k: int|
            0 <= k < picks.len() ==> i <= #[trigger] picks[k] < events.len() && throttled_from(
                events,
                interval_ms,
                last_emit_ms,
                i,
            )[k] == events[picks[k]],
        forall|k: int, l: int| 0 <= k < l < picks.len() ==> picks[k] < picks[l],
    decreases events.len() - i,
{
    if i < events.len() {
        if admits(last_emit_ms, interval_ms, events[i].at_ms) {
            let rest = lemma_throttled_from_picks(
                events,
                interval_ms,
                Some(events[i].at_ms),
                i + 1,
            );
            seq![i] + rest
        } else {
            lemma_throttled_from_picks(events, interval_ms, last_emit_ms, i + 1)
        }
    } else {
        Seq::empty()
    }
}

/// Throttling keeps the order of time: the throttled stream of a trace is a
/// trace.
pub proof fn lemma_throttled_from_is_trace<T>(
    events: Seq<Event<T>>,
    interval_ms: u64,
    last_emit_ms: Option<u64>,
    i: int,
)
    requires
        is_trace(events),
        0 <= i,
    ensures
        is_trace(throttled_from(events, interval_ms, last_emit_ms, i)),
{
    let out = throttled_from(events, interval_ms, last_emit_ms, i);
    let picks = lemma_throttled_from_picks(events, interval_ms, last_emit_ms, i);
    assert forall|a: int, b: int| 0 <= a <= b < out.len() implies out[a].at_ms
        <= out[b].at_ms by {
        assert(picks[a] <= picks[b]);
    }
}

} // verus!
