//! Per-item deadlines: a stream that reports a timeout for a slow item
//! instead of waiting for it in silence, and keeps going afterwards.

use vstd::prelude::*;
use crate::trace::{is_trace, reversed, Event};

verus! {

/// The error a slot yields when its deadline passes before a value arrives.
#[derive(Clone, Copy, Debug, PartialEq, Eq, Structural)]
pub struct Elapsed;

/// Whether a value that arrives at `arrival_ms` meets the deadline of a wait
/// that started at `wait_started_ms` and may last `limit_ms`. A value that
/// arrives at the very moment of the deadline is in time.
pub open spec fn in_time(wait_started_ms: u64, limit_ms: u64, arrival_ms: u64) -> bool {
    arrival_ms <= wait_started_ms + limit_ms
}

/// Decides whether a value meets the deadline of the wait it ends.
pub fn arrives_in_time(wait_started_ms: u64, limit_ms: u64, arrival_ms: u64) -> (ok: bool)
    ensures
        ok == in_time(wait_started_ms, limit_ms, arrival_ms),
{
    arrival_ms <= wait_started_ms || arrival_ms - wait_started_ms <= limit_ms
}

/// The event by which a stream hands on an item of its source.
pub open spec fn delivery<T>(event: Event<T>) -> Event<Result<T, Elapsed>> {
    Event { at_ms: event.at_ms, item: Ok(event.item) }
}

/// The event by which a stream reports that the wait which started at
/// `wait_started_ms` ran out.
pub open spec fn expiry<T>(wait_started_ms: u64, limit_ms: u64) -> Event<Result<T, Elapsed>> {
    Event { at_ms: (wait_started_ms + limit_ms) as u64, item: Err(Elapsed) }
}

/// What a stream with a per-item deadline yields of the events from index
/// `i` on, when the wait for the next item started at `wait_started_ms`. An
/// item in time is handed on. For a late item the stream first yields the
/// timeout, at the deadline, and hands the item on when it arrives. Either
/// way the wait for the next item starts when the item is handed on, and the
/// stream ends when the source does.
pub open spec fn timed_from<T>(
    events: Seq<Event<T>>,
    limit_ms: u64,
    wait_started_ms: u64,
    i: int,
) -> Seq<Event<Result<T, Elapsed>>>
    decreases events.len() - i,
{
    if i < 0 || i >= events.len() {
        Seq::empty()
    } else if in_time(wait_started_ms, limit_ms, events[i].at_ms) {
        seq![delivery(events[i])] + timed_from(events, limit_ms, events[i].at_ms, i + 1)
    } else {
        seq![expiry(wait_started_ms, limit_ms), delivery(events[i])] + timed_from(
            events,
            limit_ms,
            events[i].at_ms,
            i + 1,
        )
    }
}

/// What a stream with a per-item deadline, polled from `started_ms` on,
/// yields of a source.
pub open spec fn timed<T>(events: Seq<Event<T>>, limit_ms: u64, started_ms: u64) -> Seq<
    Event<Result<T, Elapsed>>,
> {
    timed_from(events, limit_ms, started_ms, 0)
}

/// Puts a deadline of `limit_ms` on every wait for the next item of a
/// recorded stream that is polled from `started_ms` on.
pub fn with_timeout<T>(events: Vec<Event<T>>, limit_ms: u64, started_ms: u64) -> (out: Vec<
    Event<Result<T, Elapsed>>,
>)
    ensures
        out@ == timed(events@, limit_ms, started_ms),
{
    let ghost source = events@;
    let mut rest = reversed(events);
    let mut out: Vec<Event<Result<T, Elapsed>>> = Vec::new();
    let mut wait_started_ms = started_ms;
    while rest.len() > 0
        invariant
            rest.len() <= source.len(),
            forall|k: int| 0 <= k < rest.len() ==> rest[k] == source[source.len() - 1 - k],
            out@ + timed_from(source, limit_ms, wait_started_ms, source.len() - rest.len())
                == timed(source, limit_ms, started_ms),
        decreases rest.len(),
    {
        let event = rest.pop().unwrap();
        let at_ms = event.at_ms;
        if !arrives_in_time(wait_started_ms, limit_ms, at_ms) {
            out.push(Event { at_ms: wait_started_ms + limit_ms, item: Err(Elapsed) });
        }
        out.push(Event { at_ms, item: Ok(event.item) });
        wait_started_ms = at_ms;
    }
    out
}

/// A timeout does not close the stream. When the item at index `i` misses
/// its deadline the stream yields the timeout for that slot, at the
/// deadline, and then the late item itself; when the next item is in time
/// the slot after that yields its value.
pub proof fn lemma_timeout_then_value<T>(
    events: Seq<Event<T>>,
    limit_ms: u64,
    wait_started_ms: u64,
    i: int,
)
    requires
        0 <= i < events.len(),
        !in_time(wait_started_ms, limit_ms, events[i].at_ms),
    ensures
        ({
            let out = timed_from(events, limit_ms, wait_started_ms, i);
            &&& out.len() >= 2
            &&& out[0] == expiry::<T>(wait_started_ms, limit_ms)
            &&& out[0].at_ms < events[i].at_ms
            &&& out[1] == delivery(events[i])
            &&& (i + 1 < events.len() && in_time(events[i].at_ms, limit_ms, events[i + 1].at_ms))
                ==> out.len() >= 3 && out[2] == delivery(events[i + 1])
        }),
{
    let out = timed_from(events, limit_ms, wait_started_ms, i);
    let rest = timed_from(events, limit_ms, events[i].at_ms, i + 1);
    assert(out == seq![expiry(wait_started_ms, limit_ms), delivery(events[i])] + rest);
    if i + 1 < events.len() && in_time(events[i].at_ms, limit_ms, events[i + 1].at_ms) {
        assert(out[2] == rest[0]);
    }
}

/// The items that a stream of results hands on, without the timeouts.
pub open spec fn delivered<T>(out: Seq<Event<Result<T, Elapsed>>>) -> Seq<Event<T>>
    decreases out.len(),
{
    if out.len() == 0 {
        Seq::empty()
    } else {
        match out[0].item {
            Ok(item) => seq![Event { at_ms: out[0].at_ms, item }] + delivered(out.skip(1)),
            Err(_) => delivered(out.skip(1)),
        }
    }
}

/// A deadline loses no item and changes no order: without the timeouts, the
/// stream yields exactly what its source does.
pub proof fn lemma_timed_from_delivers_all<T>(
    events: Seq<Event<T>>,
    limit_ms: u64,
    wait_started_ms: u64,
    i: int,
)
    requires
        0 <= i <= events.len(),
    ensures
        delivered(timed_from(events, limit_ms, wait_started_ms, i)) == events.skip(i),
    decreases events.len() - i,
{
    let out = timed_from(events, limit_ms, wait_started_ms, i);
    if i < events.len() {
        let rest = timed_from(events, limit_ms, events[i].at_ms, i + 1);
        lemma_timed_from_delivers_all(events, limit_ms, events[i].at_ms, i + 1);
        let handed = seq![delivery(events[i])] + rest;
        assert(handed.skip(1) =~= rest);
        assert(delivered(handed) == seq![events[i]] + delivered(rest));
        if !in_time(wait_started_ms, limit_ms, events[i].at_ms) {
            assert(out.skip(1) =~= handed);
        }
    }
}

/// A deadline keeps the order of time: when the source is a trace and the
/// wait for its next item starts no later than that item arrives, what the
/// stream yields is a trace, and nothing of it happens before the wait
/// started.
pub proof fn lemma_timed_from_is_trace<T>(
    events: Seq<Event<T>>,
    limit_ms: u64,
    wait_started_ms: u64,
    i: int,
)
    requires
        is_trace(events),
        0 <= i <= events.len(),
        i < events.len() ==> wait_started_ms <= events[i].at_ms,
    ensures
        is_trace(timed_from(events, limit_ms, wait_started_ms, i)),
        forall|k: int|
            0 <= k < timed_from(events, limit_ms, wait_started_ms, i).len() ==> wait_started_ms
                <= (#[trigger] timed_from(events, limit_ms, wait_started_ms, i)[k]).at_ms,
    decreases events.len() - i,
{
    let out = timed_from(events, limit_ms, wait_started_ms, i);
    if i < events.len() {
        let rest = timed_from(events, limit_ms, events[i].at_ms, i + 1);
        lemma_timed_from_is_trace(events, limit_ms, events[i].at_ms, i + 1);
        let head = if in_time(wait_started_ms, limit_ms, events[i].at_ms) {
            seq![delivery(events[i])]
        } else {
            seq![expiry(wait_started_ms, limit_ms), delivery(events[i])]
        };
        assert forall|k: int| 0 <= k < out.len() implies wait_started_ms <= (
        #[trigger] out[k]).at_ms && (k >= head.len() ==> events[i].at_ms <= out[k].at_ms) by {
            if k >= head.len() {
                assert(out[k] == rest[k - head.len()]);
            }
        }
        assert forall|a: int, b: int| 0 <= a <= b < out.len() implies out[a].at_ms
            <= out[b].at_ms by {
            if a >= head.len() {
                assert(out[a] == rest[a - head.len()]);
                assert(out[b] == rest[b - head.len()]);
            }
        }
    }
}

/// The state of one slot of a stream with deadlines that is cut short after
/// a number of items.
#[derive(Clone, Copy, Debug, PartialEq, Eq, Structural)]
pub enum Slot {
    /// The consumer waits for the next value.
    Waiting,
    /// A value arrived before the deadline and is handed to the consumer.
    Ready,
    /// The deadline passed first; the consumer is handed a timeout.
    TimedOut,
    /// The stream has ended.
    Ended,
}

/// What can happen to a slot.
#[derive(Clone, Copy, Debug, PartialEq, Eq, Structural)]
pub enum Signal {
    /// A value arrived.
    ValueArrived,
    /// The deadline of the current wait passed.
    DeadlineElapsed,
    /// The consumer asks for the next item.
    Pulled,
    /// The budget of items is used up, or every source is exhausted.
    Finished,
}

/// The transitions of a slot: a wait ends with a value or with a timeout,
/// whichever comes first; the next pull starts the next wait after either;
/// the end of the stream ends every state for good. A signal that does not
/// fit the state changes nothing.
pub open spec fn spec_advance(slot: Slot, signal: Signal) -> Slot {
    match (slot, signal) {
        (Slot::Ended, _) => Slot::Ended,
        (_, Signal::Finished) => Slot::Ended,
        (Slot::Waiting, Signal::ValueArrived) => Slot::Ready,
        (Slot::Waiting, Signal::DeadlineElapsed) => Slot::TimedOut,
        (Slot::Ready, Signal::Pulled) => Slot::Waiting,
        (Slot::TimedOut, Signal::Pulled) => Slot::Waiting,
        (state, _) => state,
    }
}

/// Moves a slot to its next state.
pub fn advance(slot: Slot, signal: Signal) -> (next: Slot)
    ensures
        next == spec_advance(slot, signal),
{
    match slot {
        Slot::Ended => Slot::Ended,
        Slot::Waiting => match signal {
            Signal::Finished => Slot::Ended,
            Signal::ValueArrived => Slot::Ready,
            Signal::DeadlineElapsed => Slot::TimedOut,
            Signal::Pulled => Slot::Waiting,
        },
        Slot::Ready => match signal {
            Signal::Finished => Slot::Ended,
            Signal::Pulled => Slot::Waiting,
            _ => Slot::Ready,
        },
        Slot::TimedOut => match signal {
            Signal::Finished => Slot::Ended,
            Signal::Pulled => Slot::Waiting,
            _ => Slot::TimedOut,
        },
    }
}

/// The signal that ends a wait which started at `wait_started_ms`, when the
/// next value arrives at `arrival_ms`, or never (`None`).
pub open spec fn spec_wait_outcome(
    wait_started_ms: u64,
    limit_ms: u64,
    arrival_ms: Option<u64>,
) -> Signal {
    match arrival_ms {
        Some(at_ms) => if in_time(wait_started_ms, limit_ms, at_ms) {
            Signal::ValueArrived
        } else {
            Signal::DeadlineElapsed
        },
        None => Signal::DeadlineElapsed,
    }
}

/// Decides how a wait ends.
pub fn wait_outcome(wait_started_ms: u64, limit_ms: u64, arrival_ms: Option<u64>) -> (signal:
    Signal)
    ensures
        signal == spec_wait_outcome(wait_started_ms, limit_ms, arrival_ms),
{
    match arrival_ms {
        Some(at_ms) => if arrives_in_time(wait_started_ms, limit_ms, at_ms) {
            Signal::ValueArrived
        } else {
            Signal::DeadlineElapsed
        },
        None => Signal::DeadlineElapsed,
    }
}

/// Whether a stream that is cut short after `limit` items is over: its budget
/// is used up or both of its sources are exhausted.
pub open spec fn spec_is_finished(emitted: usize, limit: usize, left_open: bool, right_open: bool)
    -> bool {
    emitted >= limit || (!left_open && !right_open)
}

/// Decides whether a merged stream with a budget of items is over.
pub fn is_finished(emitted: usize, limit: usize, left_open: bool, right_open: bool) -> (done: bool)
    ensures
        done == spec_is_finished(emitted, limit, left_open, right_open),
{
    emitted >= limit || (!left_open && !right_open)
}

/// One timeout does not end a stream: a waiting slot whose value is late
/// times out, the next pull starts a new wait, and a value that meets the
/// deadline of that wait makes the slot ready.
pub proof fn lemma_slot_survives_timeout(
    wait_started_ms: u64,
    limit_ms: u64,
    late_ms: u64,
    next_started_ms: u64,
    next_ms: u64,
)
    requires
        !in_time(wait_started_ms, limit_ms, late_ms),
        in_time(next_started_ms, limit_ms, next_ms),
    ensures
        ({
            let timed_out = spec_advance(
                Slot::Waiting,
                spec_wait_outcome(wait_started_ms, limit_ms, Some(late_ms)),
            );
            let waiting = spec_advance(timed_out, Signal::Pulled);
            let ready = spec_advance(
                waiting,
                spec_wait_outcome(next_started_ms, limit_ms, Some(next_ms)),
            );
            &&& timed_out == Slot::TimedOut
            &&& waiting == Slot::Waiting
            &&& ready == Slot::Ready
        }),
{
}

/// The slot and the stream agree: what a stream with deadlines yields next
/// is the value when the waiting slot becomes ready, and the timeout when
/// the slot times out.
pub proof fn lemma_slot_follows_stream<T>(
    events: Seq<Event<T>>,
    limit_ms: u64,
    wait_started_ms: u64,
    i: int,
)
    requires
        0 <= i < events.len(),
    ensures
        ({
            let slot = spec_advance(
                Slot::Waiting,
                spec_wait_outcome(wait_started_ms, limit_ms, Some(events[i].at_ms)),
            );
            let out = timed_from(events, limit_ms, wait_started_ms, i);
            &&& out.len() > 0
            &&& slot == Slot::Ready || slot == Slot::TimedOut
            &&& slot == Slot::Ready <==> out[0] == delivery(events[i])
            &&& slot == Slot::TimedOut <==> out[0] == expiry::<T>(wait_started_ms, limit_ms)
        }),
{
    let out = timed_from(events, limit_ms, wait_started_ms, i);
    let rest = timed_from(events, limit_ms, events[i].at_ms, i + 1);
    if in_time(wait_started_ms, limit_ms, events[i].at_ms) {
        assert(out == seq![delivery(events[i])] + rest);
    } else {
        assert(out == seq![expiry(wait_started_ms, limit_ms), delivery(events[i])] + rest);
    }
}

/// The end is final: no signal moves a slot out of `Ended`, and `Finished`
/// ends a slot whatever its state.
pub proof fn lemma_slot_end_is_final(slot: Slot, signal: Signal)
    ensures
        spec_advance(Slot::Ended, signal) == Slot::Ended,
        spec_advance(slot, Signal::Finished) == Slot::Ended,
{
}

} // verus!
