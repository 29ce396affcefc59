use coop_async::trace::{abandon_after, merge, reversed, take, Event};

fn events(list: &[(u64, &'static str)]) -> Vec<Event<&'static str>> {
    list.iter().map(|(at_ms, item)| Event { at_ms: *at_ms, item: *item }).collect()
}

#[test]
fn take_cuts_a_stream_short() {
    assert_eq!(take(vec![1, 2, 3, 4], 2), vec![1, 2]);
}

#[test]
fn take_of_a_short_stream_is_the_stream() {
    assert_eq!(take(vec![1, 2, 3], 3), vec![1, 2, 3]);
    assert_eq!(take(vec![1, 2, 3], 10), vec![1, 2, 3]);
}

#[test]
fn take_of_nothing_or_with_no_budget_is_empty() {
    assert_eq!(take(Vec::<u8>::new(), 5), Vec::<u8>::new());
    assert_eq!(take(vec![1, 2, 3], 0), Vec::<i32>::new());
}

#[test]
fn reversed_turns_the_order_round() {
    assert_eq!(reversed(vec![1, 2, 3]), vec![3, 2, 1]);
    assert_eq!(reversed(Vec::<u8>::new()), Vec::<u8>::new());
}

#[test]
fn merge_emits_in_the_order_of_readiness() {
    let left = events(&[(10, "a1"), (40, "a2"), (70, "a3")]);
    let right = events(&[(20, "b1"), (30, "b2"), (90, "b3")]);
    let expected = events(&[
        (10, "a1"),
        (20, "b1"),
        (30, "b2"),
        (40, "a2"),
        (70, "a3"),
        (90, "b3"),
    ]);
    assert_eq!(merge(left, right), expected);
}

#[test]
fn merge_puts_the_left_first_on_a_tie() {
    let left = events(&[(5, "left"), (9, "left again")]);
    let right = events(&[(5, "right"), (9, "right again")]);
    let expected = events(&[(5, "left"), (5, "right"), (9, "left again"), (9, "right again")]);
    assert_eq!(merge(left, right), expected);
}

#[test]
fn merge_ends_when_both_sources_are_exhausted() {
    let only = events(&[(1, "x"), (2, "y")]);
    assert_eq!(merge(only.clone(), Vec::new()), only);
    assert_eq!(merge(Vec::new(), only.clone()), only);
    assert_eq!(merge(Vec::<Event<u8>>::new(), Vec::new()), Vec::new());
}

#[test]
fn merge_then_take_emits_the_smaller_of_budget_and_supply() {
    let left = events(&[(1, "a"), (3, "c"), (5, "e")]);
    let right = events(&[(2, "b"), (4, "d")]);
    for budget in 0..8usize {
        let out = take(merge(left.clone(), right.clone()), budget);
        assert_eq!(out.len(), budget.min(5));
        let all = events(&[(1, "a"), (2, "b"), (3, "c"), (4, "d"), (5, "e")]);
        assert_eq!(out, all[..out.len()].to_vec());
    }
}

#[test]
fn a_task_is_abandoned_where_its_driver_returns() {
    let task = events(&[(1, "a"), (2, "b"), (3, "c"), (4, "d")]);
    assert_eq!(abandon_after(task.clone(), 2), events(&[(1, "a"), (2, "b")]));
    assert_eq!(abandon_after(task.clone(), 0), Vec::new());
    assert_eq!(abandon_after(task.clone(), 4), task);
    assert_eq!(abandon_after(task.clone(), u64::MAX), task);
    assert_eq!(abandon_after(Vec::<Event<u8>>::new(), 10), Vec::new());
}

#[test]
fn nothing_behind_the_first_late_event_happens() {
    let task = events(&[(1, "early"), (9, "late"), (2, "behind")]);
    assert_eq!(abandon_after(task, 5), events(&[(1, "early")]));
}
