use coop_async::channel::{relay, Channel, Received, SendError};

fn words(list: &[&str]) -> Vec<String> {
    list.iter().map(|word| word.to_string()).collect()
}

#[test]
fn messages_sent_before_any_is_received_arrive_in_send_order() {
    let sent = words(&["hi", "from", "the", "future"]);
    assert_eq!(relay(&sent), sent);
}

#[test]
fn relay_of_nothing_is_nothing() {
    assert_eq!(relay(&Vec::new()), Vec::<String>::new());
}

#[test]
fn relay_keeps_duplicates_and_order_of_many_messages() {
    let mut sent = Vec::new();
    for round in 0..200 {
        sent.push(format!("m{}", round % 7));
    }
    assert_eq!(relay(&sent), sent);
}

#[test]
fn try_recv_takes_the_oldest_message_first() {
    let mut channel = Channel::open();
    assert_eq!(channel.send("one".to_string()), Ok(()));
    assert_eq!(channel.send("two".to_string()), Ok(()));
    assert_eq!(channel.try_recv(), Received::Message("one".to_string()));
    assert_eq!(channel.send("three".to_string()), Ok(()));
    assert_eq!(channel.try_recv(), Received::Message("two".to_string()));
    assert_eq!(channel.try_recv(), Received::Message("three".to_string()));
    assert_eq!(channel.try_recv(), Received::Empty);
}

#[test]
fn an_open_empty_channel_is_empty_not_closed() {
    let mut channel = Channel::open();
    assert_eq!(channel.try_recv(), Received::Empty);
    assert_eq!(channel.try_recv(), Received::Empty);
}

#[test]
fn send_on_a_closed_channel_hands_the_message_back() {
    let mut channel = Channel::open();
    channel.close();
    assert_eq!(
        channel.send("lost".to_string()),
        Err(SendError("lost".to_string()))
    );
    assert_eq!(channel.try_recv(), Received::Closed);
}

#[test]
fn a_closed_channel_still_hands_out_what_waits_and_then_ends() {
    let mut channel = Channel::open();
    assert_eq!(channel.send("kept".to_string()), Ok(()));
    channel.close();
    assert_eq!(channel.try_recv(), Received::Message("kept".to_string()));
    assert_eq!(channel.try_recv(), Received::Closed);
    assert_eq!(channel.try_recv(), Received::Closed);
}

#[test]
fn send_all_counts_and_drain_empties() {
    let mut channel = Channel::open();
    assert_eq!(channel.send("first".to_string()), Ok(()));
    let more = words(&["second", "third"]);
    assert_eq!(channel.send_all(&more), 2);
    assert_eq!(channel.drain(), words(&["first", "second", "third"]));
    assert_eq!(channel.drain(), Vec::<String>::new());
    assert_eq!(channel.try_recv(), Received::Empty);
}

#[test]
fn send_all_on_a_closed_channel_sends_nothing() {
    let mut channel = Channel::open();
    channel.close();
    assert_eq!(channel.send_all(&words(&["a", "b"])), 0);
    assert_eq!(channel.drain(), Vec::<String>::new());
}
