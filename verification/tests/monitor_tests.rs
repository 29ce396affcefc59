use coop_async::monitor::{
    pipeline, render, render_all, Output, INTERVAL_TIMEOUT_MS, LIMIT, MESSAGE_TIMEOUT_MS,
    THROTTLE_MS,
};
use coop_async::producers::{interval_trace, labelled, message_trace};
use coop_async::timeout::Elapsed;
use coop_async::trace::{abandon_after, Event};

fn out(line: &str) -> Output {
    Output::Stdout(line.to_string())
}

fn problem() -> Output {
    Output::Stderr("Problem: Elapsed(())".to_string())
}

#[test]
fn the_settings_of_the_pipeline() {
    assert_eq!(MESSAGE_TIMEOUT_MS, 200);
    assert_eq!(THROTTLE_MS, 100);
    assert_eq!(INTERVAL_TIMEOUT_MS, 10_000);
    assert_eq!(LIMIT, 20);
}

#[test]
fn a_value_is_printed_and_a_timeout_is_reported() {
    assert_eq!(render(Ok("Message: 'a'".to_string())), out("Message: 'a'"));
    assert_eq!(render(Err(Elapsed)), problem());
}

#[test]
fn the_demonstration_prints_twenty_lines_in_order_of_readiness() {
    let items = pipeline(message_trace(), labelled(&interval_trace(3000)));
    let times: Vec<u64> = items.iter().map(|event| event.at_ms).collect();
    assert_eq!(
        times,
        vec![
            1, 100, 101, 201, 300, 301, 400, 401, 500, 501, 601, 700, 701, 800, 801, 900, 901,
            1001, 1100, 1101
        ]
    );
    let lines = render_all(items);
    assert_eq!(
        lines,
        vec![
            out("Interval #1"),
            out("Message: 'a'"),
            out("Interval #101"),
            out("Interval #201"),
            problem(),
            out("Interval #301"),
            out("Message: 'b'"),
            out("Interval #401"),
            out("Message: 'c'"),
            out("Interval #501"),
            out("Interval #601"),
            problem(),
            out("Interval #701"),
            out("Message: 'd'"),
            out("Interval #801"),
            out("Message: 'e'"),
            out("Interval #901"),
            out("Interval #1001"),
            problem(),
            out("Interval #1101"),
        ]
    );
}

#[test]
fn the_pipeline_never_exceeds_its_limit() {
    for ticks in [0u32, 1, 150, 5000] {
        let items = pipeline(message_trace(), labelled(&interval_trace(ticks)));
        assert!(items.len() <= LIMIT);
    }
}

#[test]
fn without_intervals_the_messages_and_their_timeouts_fill_the_pipeline() {
    let lines = render_all(pipeline(message_trace(), Vec::new()));
    assert_eq!(
        lines,
        vec![
            out("Message: 'a'"),
            problem(),
            out("Message: 'b'"),
            out("Message: 'c'"),
            problem(),
            out("Message: 'd'"),
            out("Message: 'e'"),
            problem(),
            out("Message: 'f'"),
            out("Message: 'g'"),
            problem(),
            out("Message: 'h'"),
            out("Message: 'i'"),
            problem(),
            out("Message: 'j'"),
        ]
    );
}

#[test]
fn a_silent_interval_source_times_out_after_ten_seconds() {
    let late = vec![Event { at_ms: 10_001, item: "Interval #1".to_string() }];
    let items = pipeline(Vec::new(), late);
    assert_eq!(
        items,
        vec![
            Event { at_ms: 10_000, item: Err(Elapsed) },
            Event { at_ms: 10_001, item: Ok("Interval #1".to_string()) },
        ]
    );
}

#[test]
fn an_empty_pipeline_prints_nothing() {
    assert_eq!(render_all(pipeline(Vec::new(), Vec::new())), Vec::new());
}

#[test]
fn the_interval_source_is_abandoned_when_the_pipeline_ends() {
    let items = pipeline(message_trace(), labelled(&interval_trace(3000)));
    let ended_at_ms = items[items.len() - 1].at_ms;
    assert_eq!(ended_at_ms, 1101);
    let counted = abandon_after(interval_trace(3000), ended_at_ms);
    assert_eq!(counted.len(), 1101);
    assert_eq!(counted[counted.len() - 1], Event { at_ms: 1101, item: 1101 });
    let sent = abandon_after(message_trace(), ended_at_ms);
    assert_eq!(sent.len(), 5);
}
