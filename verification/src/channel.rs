//! A first-in first-out channel of text messages, kept in an unbounded
//! channel of `trpl`. Sending never waits; receiving hands out the messages
//! in the order in which they were sent.

use vstd::prelude::*;
use crate::text::texts;

verus! {

/// The sending half of an unbounded channel. Nothing is known of a value of
/// this type but what the functions below state.
#[verifier::external_type_specification]
#[verifier::external_body]
#[verifier::reject_recursive_types(T)]
pub struct ExSender<T>(trpl::Sender<T>);

/// The receiving half of an unbounded channel. Nothing is known of a value
/// of this type but what the functions below state.
#[verifier::external_type_specification]
#[verifier::external_body]
#[verifier::reject_recursive_types(T)]
pub struct ExReceiver<T>(trpl::Receiver<T>);

/// The messages that were sent to a receiver and not yet received, oldest
/// first.
pub uninterp spec fn queued(receiver: trpl::Receiver<String>) -> Seq<Seq<char>>;

/// Whether the channel of a receiver still takes messages: it does until
/// the receiver closes it.
pub uninterp spec fn accepting(receiver: trpl::Receiver<String>) -> bool;

/// Whether a sender belongs to the channel of a receiver.
pub uninterp spec fn feeds(sender: trpl::Sender<String>, receiver: trpl::Receiver<String>) -> bool;

/// Calls `trpl::channel` (tokio's `unbounded_channel`). Trusted: the two
/// halves belong to one channel, which is empty and open.
#[verifier::external_body]
fn raw_channel() -> (ends: (trpl::Sender<String>, trpl::Receiver<String>))
    ensures
        feeds(ends.0, ends.1),
        queued(ends.1) == Seq::<Seq<char>>::empty(),
        accepting(ends.1),
{
    trpl::channel()
}

/// Calls `Sender::send` (tokio's `UnboundedSender::send`). Trusted: on an
/// open channel the message is put behind those that wait and the call
/// succeeds; on a closed channel nothing changes and the message comes back
/// as the error. The receiver is taken only to say what it will see.
#[verifier::external_body]
#[allow(unused_variables)]
fn raw_send(
    sender: &trpl::Sender<String>,
    receiver: &mut trpl::Receiver<String>,
    message: String,
) -> (sent: Result<(), String>)
    requires
        feeds(*sender, *old(receiver)),
    ensures
        forall|any: trpl::Sender<String>|
            feeds(any, *old(receiver)) ==> #[trigger] feeds(any, *final(receiver)),
        accepting(*final(receiver)) == accepting(*old(receiver)),
        accepting(*old(receiver)) ==> sent is Ok
            && queued(*final(receiver)) == queued(*old(receiver)).push(message@),
        !accepting(*old(receiver)) ==> sent is Err && sent->Err_0@ == message@
            && queued(*final(receiver)) == queued(*old(receiver)),
{
    sender.send(message).map_err(|error| error.0)
}

/// Calls `Receiver::try_recv` (tokio's `UnboundedReceiver::try_recv`).
/// Trusted: it takes the oldest waiting message out, and returns `None`,
/// changing nothing, exactly when none waits.
#[verifier::external_body]
fn raw_try_recv(receiver: &mut trpl::Receiver<String>) -> (message: Option<String>)
    ensures
        forall|any: trpl::Sender<String>|
            feeds(any, *old(receiver)) ==> #[trigger] feeds(any, *final(receiver)),
        accepting(*final(receiver)) == accepting(*old(receiver)),
        queued(*old(receiver)).len() == 0 ==> message is None && queued(*final(receiver))
            == queued(*old(receiver)),
        queued(*old(receiver)).len() > 0 ==> message is Some
            && message->Some_0@ == queued(*old(receiver))[0]
            && queued(*final(receiver)) == queued(*old(receiver)).skip(1),
{
    receiver.try_recv().ok()
}

/// Calls `Receiver::close` (tokio's `UnboundedReceiver::close`). Trusted:
/// the channel takes no further message, and those that wait stay.
#[verifier::external_body]
fn raw_close(receiver: &mut trpl::Receiver<String>)
    ensures
        forall|any: trpl::Sender<String>|
            feeds(any, *old(receiver)) ==> #[trigger] feeds(any, *final(receiver)),
        !accepting(*final(receiver)),
        queued(*final(receiver)) == queued(*old(receiver)),
{
    receiver.close()
}

/// Calls `Receiver::is_closed` (tokio's `UnboundedReceiver::is_closed`).
/// Trusted: while a sender of the channel is alive, the channel is closed
/// exactly when the receiver has closed it. The sender is taken only to show
/// that one is alive.
#[verifier::external_body]
#[allow(unused_variables)]
fn raw_is_closed(sender: &trpl::Sender<String>, receiver: &trpl::Receiver<String>) -> (closed: bool)
    requires
        feeds(*sender, *receiver),
    ensures
        closed == !accepting(*receiver),
{
    receiver.is_closed()
}

/// The error of a send on a closed channel. It hands the message back.
#[derive(Debug, Clone, PartialEq, Eq)]
pub struct SendError(pub String);

/// What an attempt to receive finds.
#[derive(Debug, Clone, PartialEq, Eq)]
pub enum Received {
    /// The oldest waiting message.
    Message(String),
    /// Nothing waits, but the channel is open: a receiver would suspend here.
    Empty,
    /// Nothing waits and nothing will come: the end of the stream.
    Closed,
}

/// A channel with both of its halves.
pub struct Channel {
    sender: trpl::Sender<String>,
    receiver: trpl::Receiver<String>,
}

impl Channel {
    /// Whether the two halves belong to one channel, as they do in every
    /// value that `open` made and the methods below changed.
    pub closed spec fn wf(&self) -> bool {
        feeds(self.sender, self.receiver)
    }

    /// The messages that wait to be received, oldest first.
    pub closed spec fn pending(&self) -> Seq<Seq<char>> {
        queued(self.receiver)
    }

    /// Whether the channel still takes messages.
    pub closed spec fn is_open(&self) -> bool {
        accepting(self.receiver)
    }

    /// An open channel in which nothing waits.
    pub fn open() -> (channel: Channel)
        ensures
            channel.wf(),
            channel.pending() == Seq::<Seq<char>>::empty(),
            channel.is_open(),
    {
        let (sender, receiver) = raw_channel();
        Channel { sender, receiver }
    }

    /// Sends a message without waiting. On an open channel it joins the end
    /// of the queue; on a closed one the channel stays as it is and the
    /// message comes back in the error.
    pub fn send(&mut self, message: String) -> (sent: Result<(), SendError>)
        requires
            old(self).wf(),
        ensures
            final(self).wf(),
            final(self).is_open() == old(self).is_open(),
            old(self).is_open() ==> sent is Ok
                && final(self).pending() == old(self).pending().push(message@),
            !old(self).is_open() ==> sent is Err && sent->Err_0.0@ == message@
                && final(self).pending() == old(self).pending(),
    {
        match raw_send(&self.sender, &mut self.receiver, message) {
            Ok(()) => Ok(()),
            Err(message) => Err(SendError(message)),
        }
    }

    /// Takes the oldest waiting message. When nothing waits, tells whether
    /// more may come (`Empty`) or the stream has ended (`Closed`).
    pub fn try_recv(&mut self) -> (received: Received)
        requires
            old(self).wf(),
        ensures
            final(self).wf(),
            final(self).is_open() == old(self).is_open(),
            old(self).pending().len() > 0 ==> (received matches Received::Message(message)
                && message@ == old(self).pending()[0])
                && final(self).pending() == old(self).pending().skip(1),
            old(self).pending().len() == 0 && old(self).is_open() ==> received == Received::Empty
                && final(self).pending() == old(self).pending(),
            old(self).pending().len() == 0 && !old(self).is_open() ==> received == Received::Closed
                && final(self).pending() == old(self).pending(),
    {
        match raw_try_recv(&mut self.receiver) {
            Some(message) => Received::Message(message),
            None => if raw_is_closed(&self.sender, &self.receiver) {
                Received::Closed
            } else {
                Received::Empty
            },
        }
    }

    /// Closes the channel: later sends fail, and what waits can still be
    /// received.
    pub fn close(&mut self)
        requires
            old(self).wf(),
        ensures
            final(self).wf(),
            !final(self).is_open(),
            final(self).pending() == old(self).pending(),
    {
        raw_close(&mut self.receiver);
    }

    /// Sends every message of `messages`, in order. On an open channel all
    /// of them join the queue and the result is how many were sent; on a
    /// closed one nothing is sent.
    pub fn send_all(&mut self, messages: &Vec<String>) -> (sent: usize)
        requires
            old(self).wf(),
        ensures
            final(self).wf(),
            final(self).is_open() == old(self).is_open(),
            old(self).is_open() ==> sent == messages.len()
                && final(self).pending() == old(self).pending() + texts(messages@),
            !old(self).is_open() ==> sent == 0 && final(self).pending() == old(self).pending(),
    {
        let mut sent: usize = 0;
        while sent < messages.len()
            invariant
                self.wf(),
                sent <= messages.len(),
                self.is_open() == old(self).is_open(),
                old(self).is_open() ==> self.pending() == old(self).pending() + texts(
                    messages@,
                ).take(sent as int),
                !old(self).is_open() ==> sent == 0 && self.pending() == old(self).pending(),
            decreases messages.len() - sent,
        {
            match self.send(messages[sent].clone()) {
                Ok(()) => {
                    assert(texts(messages@).take(sent + 1) =~= texts(messages@).take(
                        sent as int,
                    ).push(messages@[sent as int]@));
                    sent = sent + 1;
                },
                Err(_) => {
                    return 0;
                },
            }
        }
        sent
    }

    /// Receives everything that waits, oldest first, and leaves the channel
    /// empty.
    pub fn drain(&mut self) -> (messages: Vec<String>)
        requires
            old(self).wf(),
        ensures
            final(self).wf(),
            texts(messages@) == old(self).pending(),
            final(self).pending() == Seq::<Seq<char>>::empty(),
            final(self).is_open() == old(self).is_open(),
    {
        let mut messages: Vec<String> = Vec::new();
        loop
            invariant
                self.wf(),
                self.is_open() == old(self).is_open(),
                texts(messages@) + self.pending() == old(self).pending(),
            ensures
                self.wf(),
                texts(messages@) == old(self).pending(),
                self.pending() == Seq::<Seq<char>>::empty(),
                self.is_open() == old(self).is_open(),
            decreases self.pending().len(),
        {
            let ghost before = texts(messages@);
            match self.try_recv() {
                Received::Message(message) => {
                    messages.push(message);
                    assert(texts(messages@) =~= before.push(message@));
                },
                _ => {
                    break;
                },
            }
        }
        messages
    }
}

/// Sends all of `messages` through a fresh channel before receiving any, and
/// receives them all: they come out in the exact order in which they went in.
pub fn relay(messages: &Vec<String>) -> (received: Vec<String>)
    ensures
        texts(received@) == texts(messages@),
{
    let mut channel = Channel::open();
    channel.send_all(messages);
    let received = channel.drain();
    received
}

} // verus!
