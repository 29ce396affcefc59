//! Streams described by what they yield and when: a trace is the sequence of
//! a stream's items, each with the moment it became available. Merging two
//! streams and cutting a stream short are functions on traces.

use vstd::prelude::*;
use vstd::seq_lib::lemma_multiset_commutative;

verus! {

/// An item of a stream together with the moment, in milliseconds, at which
/// the stream yields it.
#[derive(Clone, Copy, Debug, PartialEq, Eq)]
pub struct Event<T> {
    pub at_ms: u64,
    pub item: T,
}

/// A trace lists events in the order in which they happen: time never runs
/// backwards.
pub open spec fn is_trace<T>(events: Seq<Event<T>>) -> bool {
    forall|i: int, j: int| 0 <= i <= j < events.len() ==> events[i].at_ms <= events[j].at_ms
}

/// The first `limit` items of a stream, or all of them when it ends earlier.
pub open spec fn taken<T>(items: Seq<T>, limit: nat) -> Seq<T> {
    if limit <= items.len() {
        items.take(limit as int)
    } else {
        items
    }
}

/// Yields at most `limit` items and then ends the stream, whatever the
/// source still holds.
pub fn take<T>(items: Vec<T>, limit: usize) -> (out: Vec<T>)
    ensures
        out@ == taken(items@, limit as nat),
{
    let mut out = items;
    if limit < out.len() {
        out.truncate(limit);
    }
    out
}

/// How many of the events from index `i` on a task gets done before its
/// driver returns at `end_ms`: the task works through its events in order
/// and is abandoned at the first that would happen later.
pub open spec fn done_from<T>(events: Seq<Event<T>>, end_ms: u64, i: int) -> nat
    decreases events.len() - i,
{
    if i < 0 || i >= events.len() || events[i].at_ms > end_ms {
        0
    } else {
        1 + done_from(events, end_ms, i + 1)
    }
}

/// What a spawned task gets done before its driver returns.
pub open spec fn done_before<T>(events: Seq<Event<T>>, end_ms: u64) -> Seq<Event<T>> {
    events.take(done_from(events, end_ms, 0) as int)
}

/// The count of finished events never exceeds what is left of the task.
pub proof fn lemma_done_from_bound<T>(events: Seq<Event<T>>, end_ms: u64, i: int)
    requires
        0 <= i <= events.len(),
    ensures
        i + done_from(events, end_ms, i) <= events.len(),
        forall|k: int| i <= k < i + done_from(events, end_ms, i) ==> events[k].at_ms <= end_ms,
        i + done_from(events, end_ms, i) < events.len() ==> events[i + done_from(
            events,
            end_ms,
            i,
        )].at_ms > end_ms,
    decreases events.len() - i,
{
    if i < events.len() && events[i].at_ms <= end_ms {
        lemma_done_from_bound(events, end_ms, i + 1);
    }
}

/// Cuts a spawned task off where its driver returns: the events up to
/// `end_ms` happen, in order, and the first later event and everything
/// behind it are abandoned.
pub fn abandon_after<T>(events: Vec<Event<T>>, end_ms: u64) -> (out: Vec<Event<T>>)
    ensures
        out@ == done_before(events@, end_ms),
        out.len() <= events.len(),
        forall|k: int| 0 <= k < out.len() ==> out[k] == events[k] && out[k].at_ms <= end_ms,
        out.len() < events.len() ==> events[out.len() as int].at_ms > end_ms,
{
    let mut done: usize = 0;
    proof {
        lemma_done_from_bound(events@, end_ms, 0);
    }
    while done < events.len() && events[done].at_ms <= end_ms
        invariant
            done <= events.len(),
            done + done_from(events@, end_ms, done as int) == done_from(events@, end_ms, 0),
        decreases events.len() - done,
    {
        done = done + 1;
    }
    take(events, done)
}

/// What is left to emit of two streams merged into one, when `i` events of
/// the left and `j` events of the right stream have been emitted: the event
/// that is ready first goes first, the left one when both are ready at the
/// same moment, and the merged stream ends when both sources are exhausted.
pub open spec fn merged_from<T>(
    left: Seq<Event<T>>,
    right: Seq<Event<T>>,
    i: int,
    j: int,
) -> Seq<Event<T>>
    decreases left.len() - i + right.len() - j,
{
    if i < 0 || j < 0 || i > left.len() || j > right.len() {
        Seq::empty()
    } else if i >= left.len() {
        if j >= right.len() {
            Seq::empty()
        } else {
            seq![right[j]] + merged_from(left, right, i, j + 1)
        }
    } else if j >= right.len() || left[i].at_ms <= right[j].at_ms {
        seq![left[i]] + merged_from(left, right, i + 1, j)
    } else {
        seq![right[j]] + merged_from(left, right, i, j + 1)
    }
}

/// Two streams merged into one.
pub open spec fn merged<T>(left: Seq<Event<T>>, right: Seq<Event<T>>) -> Seq<Event<T>> {
    merged_from(left, right, 0, 0)
}

/// The items of `items` in the opposite order, so that the first can be
/// taken out at the end.
pub fn reversed<T>(items: Vec<T>) -> (out: Vec<T>)
    ensures
        out@ == items@.reverse(),
{
    let mut rest = items;
    let mut out: Vec<T> = Vec::new();
    while rest.len() > 0
        invariant
            rest.len() <= items.len(),
            out.len() == items.len() - rest.len(),
            forall|k: int| 0 <= k < rest.len() ==> rest[k] == items[k],
            forall|k: int| 0 <= k < out.len() ==> out[k] == items[items.len() - 1 - k],
        decreases rest.len(),
    {
        let last = rest.pop().unwrap();
        out.push(last);
    }
    out
}

/// Interleaves two streams in the order in which their events become ready.
pub fn merge<T>(left: Vec<Event<T>>, right: Vec<Event<T>>) -> (out: Vec<Event<T>>)
    ensures
        out@ == merged(left@, right@),
{
    let ghost left_events = left@;
    let ghost right_events = right@;
    let mut left_rest = reversed(left);
    let mut right_rest = reversed(right);
    let mut out: Vec<Event<T>> = Vec::new();
    while left_rest.len() > 0 || right_rest.len() > 0
        invariant
            left_rest.len() <= left_events.len(),
            right_rest.len() <= right_events.len(),
            forall|k: int|
                0 <= k < left_rest.len() ==> left_rest[k] == left_events[left_events.len() - 1 - k],
            forall|k: int|
                0 <= k < right_rest.len() ==> right_rest[k] == right_events[right_events.len() - 1
                    - k],
            out@ + merged_from(
                left_events,
                right_events,
                left_events.len() - left_rest.len(),
                right_events.len() - right_rest.len(),
            ) == merged(left_events, right_events),
        decreases left_rest.len() + right_rest.len(),
    {
        let left_first = left_rest.len() > 0 && (right_rest.len() == 0 || left_rest[left_rest.len()
            - 1].at_ms <= right_rest[right_rest.len() - 1].at_ms);
        let next = if left_first {
            left_rest.pop().unwrap()
        } else {
            right_rest.pop().unwrap()
        };
        out.push(next);
    }
    out
}

/// Merging loses and invents nothing: what is left to emit is as long as
/// what the two sources still hold.
pub proof fn lemma_merged_from_len<T>(left: Seq<Event<T>>, right: Seq<Event<T>>, i: int, j: int)
    requires
        0 <= i <= left.len(),
        0 <= j <= right.len(),
    ensures
        merged_from(left, right, i, j).len() == (left.len() - i) + (right.len() - j),
    decreases left.len() - i + right.len() - j,
{
    if i >= left.len() {
        if j < right.len() {
            lemma_merged_from_len(left, right, i, j + 1);
        }
    } else if j >= right.len() || left[i].at_ms <= right[j].at_ms {
        lemma_merged_from_len(left, right, i + 1, j);
    } else {
        lemma_merged_from_len(left, right, i, j + 1);
    }
}

/// Merging interleaves: every event of either source is emitted once, and
/// nothing else is.
pub proof fn lemma_merged_from_interleaves<T>(
    left: Seq<Event<T>>,
    right: Seq<Event<T>>,
    i: int,
    j: int,
)
    requires
        0 <= i <= left.len(),
        0 <= j <= right.len(),
    ensures
        merged_from(left, right, i, j).to_multiset() == left.skip(i).to_multiset().add(
            right.skip(j).to_multiset(),
        ),
    decreases left.len() - i + right.len() - j,
{
    if i >= left.len() && j >= right.len() {
        assert(left.skip(i) =~= Seq::<Event<T>>::empty());
        assert(right.skip(j) =~= Seq::<Event<T>>::empty());
        lemma_multiset_commutative(Seq::<Event<T>>::empty(), Seq::<Event<T>>::empty());
    } else {
        let left_first = i < left.len() && (j >= right.len() || left[i].at_ms <= right[j].at_ms);
        if left_first {
            let rest = merged_from(left, right, i + 1, j);
            lemma_merged_from_interleaves(left, right, i + 1, j);
            assert(left.skip(i) =~= seq![left[i]] + left.skip(i + 1));
            lemma_multiset_commutative(seq![left[i]], rest);
            lemma_multiset_commutative(seq![left[i]], left.skip(i + 1));
        } else {
            let rest = merged_from(left, right, i, j + 1);
            lemma_merged_from_interleaves(left, right, i, j + 1);
            assert(right.skip(j) =~= seq![right[j]] + right.skip(j + 1));
            lemma_multiset_commutative(seq![right[j]], rest);
            lemma_multiset_commutative(seq![right[j]], right.skip(j + 1));
        }
    }
}

/// A merged stream cut short at `limit` emits exactly as many items as the
/// limit allows and the two sources hold together, and then ends.
pub proof fn lemma_merge_take_len<T>(left: Seq<Event<T>>, right: Seq<Event<T>>, limit: nat)
    ensures
        taken(merged(left, right), limit).len() == if limit <= left.len() + right.len() {
            limit
        } else {
            left.len() + right.len()
        },
{
    lemma_merged_from_len(left, right, 0, 0);
}

/// Every event left to emit by a merge of two traces happens no earlier than
/// `floor`, when that holds of what the sources still hold.
proof fn lemma_merged_from_floor<T>(
    left: Seq<Event<T>>,
    right: Seq<Event<T>>,
    i: int,
    j: int,
    floor: u64,
)
    requires
        0 <= i <= left.len(),
        0 <= j <= right.len(),
        forall|k: int| i <= k < left.len() ==> floor <= left[k].at_ms,
        forall|k: int| j <= k < right.len() ==> floor <= right[k].at_ms,
    ensures
        forall|k: int|
            0 <= k < merged_from(left, right, i, j).len() ==> floor <= (#[trigger] merged_from(
                left,
                right,
                i,
                j,
            )[k]).at_ms,
    decreases left.len() - i + right.len() - j,
{
    let all = merged_from(left, right, i, j);
    if i < left.len() || j < right.len() {
        let left_first = i < left.len() && (j >= right.len() || left[i].at_ms <= right[j].at_ms);
        let rest = if left_first {
            merged_from(left, right, i + 1, j)
        } else {
            merged_from(left, right, i, j + 1)
        };
        if left_first {
            lemma_merged_from_floor(left, right, i + 1, j, floor);
        } else {
            lemma_merged_from_floor(left, right, i, j + 1, floor);
        }
        assert forall|k: int| 0 <= k < all.len() implies floor <= (#[trigger] all[k]).at_ms by {
            if k > 0 {
                assert(all[k] == rest[k - 1]);
            }
        }
    }
}

/// Merging two traces gives a trace: the merged stream emits its events in
/// the order in which they become ready.
pub proof fn lemma_merged_from_is_trace<T>(
    left: Seq<Event<T>>,
    right: Seq<Event<T>>,
    i: int,
    j: int,
)
    requires
        is_trace(left),
        is_trace(right),
        0 <= i <= left.len(),
        0 <= j <= right.len(),
    ensures
        is_trace(merged_from(left, right, i, j)),
    decreases left.len() - i + right.len() - j,
{
    let all = merged_from(left, right, i, j);
    if i < left.len() || j < right.len() {
        let left_first = i < left.len() && (j >= right.len() || left[i].at_ms <= right[j].at_ms);
        let rest = if left_first {
            merged_from(left, right, i + 1, j)
        } else {
            merged_from(left, right, i, j + 1)
        };
        if left_first {
            lemma_merged_from_is_trace(left, right, i + 1, j);
            lemma_merged_from_floor(left, right, i + 1, j, left[i].at_ms);
        } else {
            lemma_merged_from_is_trace(left, right, i, j + 1);
            lemma_merged_from_floor(left, right, i, j + 1, right[j].at_ms);
        }
        assert forall|a: int, b: int| 0 <= a <= b < all.len() implies all[a].at_ms
            <= all[b].at_ms by {
            if a > 0 {
                assert(all[a] == rest[a - 1]);
                assert(all[b] == rest[b - 1]);
            } else if b > 0 {
                assert(all[b] == rest[b - 1]);
            }
        }
    }
}

} // verus!
