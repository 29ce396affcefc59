//! The demonstration pipeline: messages with a short deadline, merged with
//! throttled interval labels with a long one, cut short after a number of
//! items, and the lines that its consumer prints.

use vstd::prelude::*;
use vstd::string::*;
use crate::throttle::{lemma_throttled_from_is_trace, throttle, throttled};
use crate::timeout::{lemma_timed_from_is_trace, timed, with_timeout, Elapsed};
use crate::trace::{
    is_trace, lemma_merged_from_is_trace, lemma_merged_from_len, merge, merged, reversed, take,
    taken, Event,
};

verus! {

/// The deadline of every wait for a message, in milliseconds.
pub const MESSAGE_TIMEOUT_MS: u64 = 200;

/// The interval to which the interval labels are throttled, in milliseconds.
pub const THROTTLE_MS: u64 = 100;

/// The deadline of every wait for an interval label, in milliseconds.
pub const INTERVAL_TIMEOUT_MS: u64 = 10_000;

/// The number of items after which the pipeline ends.
pub const LIMIT: usize = 20;

/// What the pipeline yields of a stream of messages and a stream of interval
/// labels, both polled from 0 on.
pub open spec fn spec_pipeline(messages: Seq<Event<String>>, intervals: Seq<Event<String>>) -> Seq<
    Event<Result<String, Elapsed>>,
> {
    taken(
        merged(
            timed(messages, MESSAGE_TIMEOUT_MS, 0),
            timed(throttled(intervals, THROTTLE_MS), INTERVAL_TIMEOUT_MS, 0),
        ),
        LIMIT as nat,
    )
}

/// Runs the pipeline on two recorded streams.
pub fn pipeline(messages: Vec<Event<String>>, intervals: Vec<Event<String>>) -> (out: Vec<
    Event<Result<String, Elapsed>>,
>)
    ensures
        out@ == spec_pipeline(messages@, intervals@),
        out.len() <= LIMIT,
{
    let timed_messages = with_timeout(messages, MESSAGE_TIMEOUT_MS, 0);
    let timed_intervals = with_timeout(throttle(intervals, THROTTLE_MS), INTERVAL_TIMEOUT_MS, 0);
    take(merge(timed_messages, timed_intervals), LIMIT)
}

/// A line for the consumer to print, and the stream to print it to.
#[derive(Debug, Clone, PartialEq, Eq)]
pub enum Output {
    /// A line for standard output.
    Stdout(String),
    /// A line for standard error.
    Stderr(String),
}

/// The line that reports a timeout.
pub open spec fn problem_line() -> Seq<char> {
    "Problem: Elapsed(())"@
}

/// The line for one item of the pipeline: a value goes to standard output
/// as it is, a timeout to standard error as a problem.
pub fn render(item: Result<String, Elapsed>) -> (output: Output)
    ensures
        match item {
            Ok(text) => output == Output::Stdout(text),
            Err(_) => output matches Output::Stderr(line) && line@ == problem_line(),
        },
{
    match item {
        Ok(text) => Output::Stdout(text),
        Err(_) => Output::Stderr(String::from_str("Problem: Elapsed(())")),
    }
}

/// The lines for all items of a pipeline's output, one for one and in order.
pub fn render_all(items: Vec<Event<Result<String, Elapsed>>>) -> (lines: Vec<Output>)
    ensures
        lines.len() == items.len(),
        forall|i: int|
            0 <= i < lines.len() ==> match items[i].item {
                Ok(text) => #[trigger] lines[i] == Output::Stdout(text),
                Err(_) => lines[i] matches Output::Stderr(line) && line@ == problem_line(),
            },
{
    let ghost source = items@;
    let mut rest = reversed(items);
    let mut lines: Vec<Output> = Vec::new();
    while rest.len() > 0
        invariant
            rest.len() <= source.len(),
            lines.len() == source.len() - rest.len(),
            forall|k: int| 0 <= k < rest.len() ==> rest[k] == source[source.len() - 1 - k],
            forall|i: int|
                0 <= i < lines.len() ==> match source[i].item {
                    Ok(text) => #[trigger] lines[i] == Output::Stdout(text),
                    Err(_) => lines[i] matches Output::Stderr(line) && line@ == problem_line(),
                },
        decreases rest.len(),
    {
        let event = rest.pop().unwrap();
        lines.push(render(event.item));
    }
    lines
}

/// The pipeline emits exactly as many items as its limit allows and its two
/// timed sources hold together.
pub proof fn lemma_pipeline_len(messages: Seq<Event<String>>, intervals: Seq<Event<String>>)
    ensures
        ({
            let left = timed(messages, MESSAGE_TIMEOUT_MS, 0);
            let right = timed(throttled(intervals, THROTTLE_MS), INTERVAL_TIMEOUT_MS, 0);
            spec_pipeline(messages, intervals).len() == if LIMIT <= left.len() + right.len() {
                LIMIT as nat
            } else {
                left.len() + right.len()
            }
        }),
{
    let left = timed(messages, MESSAGE_TIMEOUT_MS, 0);
    let right = timed(throttled(intervals, THROTTLE_MS), INTERVAL_TIMEOUT_MS, 0);
    lemma_merged_from_len(left, right, 0, 0);
}

/// The pipeline emits in the order of time: its output for two traces is a
/// trace.
pub proof fn lemma_pipeline_is_trace(messages: Seq<Event<String>>, intervals: Seq<Event<String>>)
    requires
        is_trace(messages),
        is_trace(intervals),
    ensures
        is_trace(spec_pipeline(messages, intervals)),
{
    let throttled_intervals = throttled(intervals, THROTTLE_MS);
    let left = timed(messages, MESSAGE_TIMEOUT_MS, 0);
    let right = timed(throttled_intervals, INTERVAL_TIMEOUT_MS, 0);
    lemma_throttled_from_is_trace(intervals, THROTTLE_MS, None, 0);
    lemma_timed_from_is_trace(messages, MESSAGE_TIMEOUT_MS, 0, 0);
    lemma_timed_from_is_trace(throttled_intervals, INTERVAL_TIMEOUT_MS, 0, 0);
    lemma_merged_from_is_trace(left, right, 0, 0);
}

} // verus!
