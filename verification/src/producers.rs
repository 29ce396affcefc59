//! The sources of the demonstration streams: what each of them sends, and
//! after how long a pause.

use vstd::prelude::*;
use vstd::string::*;
use crate::text::{decimal, decimal_string};
use crate::trace::Event;

verus! {

/// How many messages the message source sends.
pub const MESSAGE_COUNT: usize = 10;

/// The pause before a message with an even index, in milliseconds.
pub const SHORT_PAUSE_MS: u64 = 100;

/// The pause before a message with an odd index, in milliseconds.
pub const LONG_PAUSE_MS: u64 = 300;

/// The pause before each count of the interval source, in milliseconds.
pub const TICK_MS: u64 = 1;

/// The pause after each word of the greeting, in milliseconds.
pub const GREETING_PAUSE_MS: u64 = 1000;

/// The letters that the message source sends, in order.
pub open spec fn letters() -> Seq<Seq<char>> {
    seq!["a"@, "b"@, "c"@, "d"@, "e"@, "f"@, "g"@, "h"@, "i"@, "j"@]
}

/// The letter of the message with the given index, or `None` past the last.
pub fn letter(index: usize) -> (found: Option<&'static str>)
    ensures
        index < MESSAGE_COUNT ==> found is Some && found->Some_0@ == letters()[index as int],
        index >= MESSAGE_COUNT ==> found is None,
{
    if index == 0 {
        Some("a")
    } else if index == 1 {
        Some("b")
    } else if index == 2 {
        Some("c")
    } else if index == 3 {
        Some("d")
    } else if index == 4 {
        Some("e")
    } else if index == 5 {
        Some("f")
    } else if index == 6 {
        Some("g")
    } else if index == 7 {
        Some("h")
    } else if index == 8 {
        Some("i")
    } else if index == 9 {
        Some("j")
    } else {
        None
    }
}

/// The pause before the message with the given index: short before an even
/// index, long before an odd one.
pub open spec fn spec_pause_ms(index: nat) -> u64 {
    if index % 2 == 0 {
        SHORT_PAUSE_MS
    } else {
        LONG_PAUSE_MS
    }
}

/// The pause before the message with the given index.
pub fn pause_ms(index: usize) -> (pause: u64)
    ensures
        pause == spec_pause_ms(index as nat),
{
    if index % 2 == 0 {
        SHORT_PAUSE_MS
    } else {
        LONG_PAUSE_MS
    }
}

/// The text of the message that carries a letter.
pub open spec fn spec_message_text(letter: Seq<char>) -> Seq<char> {
    "Message: '"@ + letter + "'"@
}

/// Writes the message that carries a letter.
pub fn message_text(letter: &str) -> (text: String)
    ensures
        text@ == spec_message_text(letter@),
{
    let mut text = String::from_str("Message: '");
    text.append(letter);
    text.append("'");
    text
}

/// The moment at which the message with the given index is sent, when the
/// source starts at 0: the pauses before it and before all earlier messages,
/// added up.
pub open spec fn spec_sent_at_ms(index: nat) -> nat
    decreases index,
{
    if index == 0 {
        spec_pause_ms(0) as nat
    } else {
        spec_sent_at_ms((index - 1) as nat) + spec_pause_ms(index) as nat
    }
}

/// No message is sent later than one long pause for every message up to it.
pub proof fn lemma_sent_at_bound(index: nat)
    ensures
        spec_sent_at_ms(index) <= (index + 1) * LONG_PAUSE_MS,
    decreases index,
{
    if index > 0 {
        lemma_sent_at_bound((index - 1) as nat);
    }
}

/// One step of the message source: a pause, then a message.
#[derive(Debug, Clone, PartialEq, Eq)]
pub struct Step {
    pub pause_ms: u64,
    pub text: String,
}

/// Everything the message source does, in order: for each letter the pause
/// that belongs to its index, then the message that carries it.
pub fn message_plan() -> (plan: Vec<Step>)
    ensures
        plan.len() == MESSAGE_COUNT,
        forall|i: int|
            0 <= i < plan.len() ==> (#[trigger] plan[i]).pause_ms == spec_pause_ms(i as nat)
                && plan[i].text@ == spec_message_text(letters()[i]),
{
    let mut plan: Vec<Step> = Vec::new();
    let mut index: usize = 0;
    while index < MESSAGE_COUNT
        invariant
            index <= MESSAGE_COUNT,
            plan.len() == index,
            forall|i: int|
                0 <= i < plan.len() ==> (#[trigger] plan[i]).pause_ms == spec_pause_ms(i as nat)
                    && plan[i].text@ == spec_message_text(letters()[i]),
        decreases MESSAGE_COUNT - index,
    {
        let text = message_text(letter(index).unwrap());
        plan.push(Step { pause_ms: pause_ms(index), text });
        index = index + 1;
    }
    plan
}

/// The stream of the message source, started at 0: each message with the
/// moment at which it is sent.
pub fn message_trace() -> (events: Vec<Event<String>>)
    ensures
        events.len() == MESSAGE_COUNT,
        forall|i: int|
            0 <= i < events.len() ==> (#[trigger] events[i]).at_ms == spec_sent_at_ms(i as nat)
                && events[i].item@ == spec_message_text(letters()[i]),
{
    let mut events: Vec<Event<String>> = Vec::new();
    let mut now_ms: u64 = 0;
    let mut index: usize = 0;
    while index < MESSAGE_COUNT
        invariant
            index <= MESSAGE_COUNT,
            events.len() == index,
            index == 0 ==> now_ms == 0,
            index > 0 ==> now_ms == spec_sent_at_ms((index - 1) as nat),
            forall|i: int|
                0 <= i < events.len() ==> (#[trigger] events[i]).at_ms == spec_sent_at_ms(i as nat)
                    && events[i].item@ == spec_message_text(letters()[i]),
        decreases MESSAGE_COUNT - index,
    {
        proof {
            if index > 0 {
                lemma_sent_at_bound((index - 1) as nat);
            }
        }
        now_ms = now_ms + pause_ms(index);
        let item = message_text(letter(index).unwrap());
        events.push(Event { at_ms: now_ms, item });
        index = index + 1;
    }
    events
}

/// The count that follows `count`, or `None` when the counter is exhausted.
pub fn next_count(count: u32) -> (next: Option<u32>)
    ensures
        count < u32::MAX ==> next == Some((count + 1) as u32),
        count == u32::MAX ==> next is None,
{
    count.checked_add(1)
}

/// The first count that the interval source sends.
pub const FIRST_COUNT: u32 = 1;

/// What the interval source does after it has tried to send `count`: when
/// the send was accepted it goes on with the next count, if there is one;
/// when the send was refused, its receiver is gone and it stops.
pub open spec fn spec_after_send(count: u32, accepted: bool) -> Option<u32> {
    if accepted && count < u32::MAX {
        Some((count + 1) as u32)
    } else {
        None
    }
}

/// Decides the next step of the interval source from the outcome of its
/// last send: the count to send next, or `None` to stop.
pub fn after_send(count: u32, accepted: bool) -> (next: Option<u32>)
    ensures
        next == spec_after_send(count, accepted),
{
    if accepted {
        next_count(count)
    } else {
        None
    }
}

/// What the message source does after it has tried to send the message
/// with the given index: when the send was accepted it goes on with the
/// next message, if there is one; when the send was refused, its receiver
/// is gone and it stops.
pub open spec fn spec_next_message(index: usize, accepted: bool) -> Option<usize> {
    if accepted && index + 1 < MESSAGE_COUNT {
        Some((index + 1) as usize)
    } else {
        None
    }
}

/// Decides the next step of the message source from the outcome of its
/// last send: the index of the message to send next, or `None` to stop.
pub fn next_message(index: usize, accepted: bool) -> (next: Option<usize>)
    ensures
        next == spec_next_message(index, accepted),
{
    if accepted && index < MESSAGE_COUNT - 1 {
        Some(index + 1)
    } else {
        None
    }
}

/// The stream of the interval source, started at 0, up to a number of
/// ticks: the counts from 1 on, one every tick.
pub fn interval_trace(ticks: u32) -> (events: Vec<Event<u32>>)
    ensures
        events.len() == ticks,
        forall|i: int|
            0 <= i < events.len() ==> (#[trigger] events[i]).at_ms == (i + 1) * TICK_MS
                && events[i].item == i + 1,
{
    let mut events: Vec<Event<u32>> = Vec::new();
    let mut count: u32 = 0;
    while count < ticks
        invariant
            count <= ticks,
            events.len() == count,
            forall|i: int|
                0 <= i < events.len() ==> (#[trigger] events[i]).at_ms == (i + 1) * TICK_MS
                    && events[i].item == i + 1,
        decreases ticks - count,
    {
        count = count + 1;
        events.push(Event { at_ms: count as u64 * TICK_MS, item: count });
    }
    events
}

/// The label of a count.
pub open spec fn spec_interval_label(count: u32) -> Seq<char> {
    "Interval #"@ + decimal(count as nat)
}

/// Writes the label of a count.
pub fn interval_label(count: u32) -> (label: String)
    ensures
        label@ == spec_interval_label(count),
{
    let mut label = String::from_str("Interval #");
    let digits = decimal_string(count as u64);
    label.append(digits.as_str());
    label
}

/// Replaces every count of a stream by its label, one for one and in order.
pub fn labelled(events: &Vec<Event<u32>>) -> (out: Vec<Event<String>>)
    ensures
        out.len() == events.len(),
        forall|i: int|
            0 <= i < out.len() ==> (#[trigger] out[i]).at_ms == events[i].at_ms && out[i].item@
                == spec_interval_label(events[i].item),
{
    let mut out: Vec<Event<String>> = Vec::new();
    let mut i: usize = 0;
    while i < events.len()
        invariant
            i <= events.len(),
            out.len() == i,
            forall|k: int|
                0 <= k < out.len() ==> (#[trigger] out[k]).at_ms == events[k].at_ms && out[k].item@
                    == spec_interval_label(events[k].item),
        decreases events.len() - i,
    {
        out.push(Event { at_ms: events[i].at_ms, item: interval_label(events[i].item) });
        i = i + 1;
    }
    out
}

/// The words of the greeting, in the order in which they are sent.
pub open spec fn greeting_words() -> Seq<Seq<char>> {
    seq!["hi"@, "from"@, "the"@, "future"@]
}

/// The words of the greeting.
pub fn greeting() -> (words: Vec<String>)
    ensures
        words@.map_values(|word: String| word@) == greeting_words(),
{
    let mut words: Vec<String> = Vec::new();
    words.push(String::from_str("hi"));
    words.push(String::from_str("from"));
    words.push(String::from_str("the"));
    words.push(String::from_str("future"));
    words
}

} // verus!
