use coop_async::producers::{
    after_send, greeting, interval_label, interval_trace, labelled, letter, message_plan,
    message_text, message_trace, next_count, next_message, pause_ms, Step, FIRST_COUNT,
    GREETING_PAUSE_MS, MESSAGE_COUNT,
};
use coop_async::trace::Event;

#[test]
fn pauses_alternate_between_short_and_long() {
    assert_eq!(pause_ms(0), 100);
    assert_eq!(pause_ms(1), 300);
    assert_eq!(pause_ms(8), 100);
    assert_eq!(pause_ms(9), 300);
    assert_eq!(pause_ms(usize::MAX), 300);
}

#[test]
fn letters_run_from_a_to_j() {
    let found: Vec<&str> = (0..MESSAGE_COUNT).map(|index| letter(index).unwrap()).collect();
    assert_eq!(found, vec!["a", "b", "c", "d", "e", "f", "g", "h", "i", "j"]);
    assert_eq!(letter(MESSAGE_COUNT), None);
    assert_eq!(letter(usize::MAX), None);
}

#[test]
fn a_message_quotes_its_letter() {
    assert_eq!(message_text("a"), "Message: 'a'");
    assert_eq!(message_text(""), "Message: ''");
    assert_eq!(message_text("it's"), "Message: 'it's'");
}

#[test]
fn the_plan_pairs_each_message_with_its_pause() {
    let plan = message_plan();
    assert_eq!(plan.len(), 10);
    assert_eq!(plan[0], Step { pause_ms: 100, text: "Message: 'a'".to_string() });
    assert_eq!(plan[1], Step { pause_ms: 300, text: "Message: 'b'".to_string() });
    assert_eq!(plan[9], Step { pause_ms: 300, text: "Message: 'j'".to_string() });
    let total: u64 = plan.iter().map(|step| step.pause_ms).sum();
    assert_eq!(total, 2000);
}

#[test]
fn messages_are_sent_at_the_sum_of_the_pauses() {
    let trace = message_trace();
    let times: Vec<u64> = trace.iter().map(|event| event.at_ms).collect();
    assert_eq!(times, vec![100, 400, 500, 800, 900, 1200, 1300, 1600, 1700, 2000]);
    assert_eq!(trace[2], Event { at_ms: 500, item: "Message: 'c'".to_string() });
}

#[test]
fn counts_go_up_by_one_until_the_counter_is_exhausted() {
    assert_eq!(next_count(0), Some(1));
    assert_eq!(next_count(41), Some(42));
    assert_eq!(next_count(u32::MAX - 1), Some(u32::MAX));
    assert_eq!(next_count(u32::MAX), None);
}

#[test]
fn the_interval_source_counts_from_one_every_tick() {
    assert_eq!(
        interval_trace(3),
        vec![
            Event { at_ms: 1, item: 1 },
            Event { at_ms: 2, item: 2 },
            Event { at_ms: 3, item: 3 },
        ]
    );
    assert_eq!(interval_trace(0), Vec::new());
}

#[test]
fn interval_labels_carry_the_count_in_decimal() {
    assert_eq!(interval_label(1), "Interval #1");
    assert_eq!(interval_label(0), "Interval #0");
    assert_eq!(interval_label(1205), "Interval #1205");
    assert_eq!(interval_label(u32::MAX), "Interval #4294967295");
}

#[test]
fn labelling_keeps_times_and_order() {
    let labelled_events = labelled(&interval_trace(2));
    assert_eq!(
        labelled_events,
        vec![
            Event { at_ms: 1, item: "Interval #1".to_string() },
            Event { at_ms: 2, item: "Interval #2".to_string() },
        ]
    );
}

#[test]
fn the_greeting_has_four_words_and_a_pause_of_a_second() {
    assert_eq!(greeting(), vec!["hi", "from", "the", "future"]);
    assert_eq!(GREETING_PAUSE_MS, 1000);
}

#[test]
fn the_interval_source_goes_on_after_an_accepted_send() {
    assert_eq!(FIRST_COUNT, 1);
    assert_eq!(after_send(1, true), Some(2));
    assert_eq!(after_send(41, true), Some(42));
    assert_eq!(after_send(u32::MAX - 1, true), Some(u32::MAX));
}

#[test]
fn the_interval_source_stops_when_its_receiver_is_gone() {
    assert_eq!(after_send(1, false), None);
    assert_eq!(after_send(0, false), None);
    assert_eq!(after_send(u32::MAX, false), None);
}

#[test]
fn the_interval_source_stops_when_its_counter_is_exhausted() {
    assert_eq!(after_send(u32::MAX, true), None);
}

#[test]
fn the_message_source_goes_through_its_messages_and_stops() {
    let mut sent = Vec::new();
    let mut next = Some(0);
    while let Some(index) = next {
        sent.push(index);
        next = next_message(index, true);
    }
    assert_eq!(sent, vec![0, 1, 2, 3, 4, 5, 6, 7, 8, 9]);
    assert_eq!(next_message(9, true), None);
    assert_eq!(next_message(usize::MAX, true), None);
}

#[test]
fn the_message_source_stops_when_its_receiver_is_gone() {
    assert_eq!(next_message(0, false), None);
    assert_eq!(next_message(4, false), None);
    assert_eq!(next_message(9, false), None);
}
