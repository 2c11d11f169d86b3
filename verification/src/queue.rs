//! The queue of transfers that curl has reported as finished.
use crossbeam_channel::{Receiver, Sender};
use vstd::prelude::*;

verus! {

/// How a transfer ended: well, or with a curl error code.
pub type TransferResult = Result<(), u32>;

/// The token of a finished transfer, and how the transfer ended.
pub type MultiMessage = (usize, TransferResult);

/// The type of a channel's sending end. Nothing is known of its inside.
#[verifier::external_type_specification]
#[verifier::external_body]
#[verifier::reject_recursive_types(T)]
pub struct ExSender<T>(crossbeam_channel::Sender<T>);

/// The type of a channel's receiving end. Nothing is known of its inside.
#[verifier::external_type_specification]
#[verifier::external_body]
#[verifier::reject_recursive_types(T)]
pub struct ExReceiver<T>(crossbeam_channel::Receiver<T>);

/// The messages that wait in a channel, the oldest first.
pub uninterp spec fn queued(receiver: Receiver<MultiMessage>) -> Seq<MultiMessage>;

/// Whether two ends belong to one unbounded channel that has no other ends.
pub uninterp spec fn is_channel(
    sender: Sender<MultiMessage>,
    receiver: Receiver<MultiMessage>,
) -> bool;

/// A first-in, first-out queue of finished transfers.
pub struct MultiMessages {
    sender: Sender<MultiMessage>,
    receiver: Receiver<MultiMessage>,
}

/// Calls `crossbeam_channel::unbounded`: the two ends of a new channel, in which
/// no message waits.
#[verifier::external_body]
fn unbounded() -> (ends: (Sender<MultiMessage>, Receiver<MultiMessage>))
    ensures
        is_channel(ends.0, ends.1),
        queued(ends.1) == Seq::<MultiMessage>::empty(),
{
    crossbeam_channel::unbounded()
}

/// Calls `crossbeam_channel::Sender::send`: the message is queued behind those
/// that wait. The call neither blocks nor fails, as the channel is unbounded and
/// its receiving end is alive.
#[verifier::external_body]
fn send(messages: &mut MultiMessages, message: MultiMessage)
    requires
        is_channel(old(messages).sender, old(messages).receiver),
    ensures
        is_channel(final(messages).sender, final(messages).receiver),
        queued(final(messages).receiver) == queued(old(messages).receiver).push(message),
{
    messages.sender.send(message).unwrap()
}

/// Calls `crossbeam_channel::Receiver::try_recv`: takes the oldest message that
/// waits. The call fails only where none waits, as the channel's sending end is
/// alive.
#[verifier::external_body]
fn try_recv(messages: &mut MultiMessages) -> (message: Option<MultiMessage>)
    requires
        is_channel(old(messages).sender, old(messages).receiver),
    ensures
        is_channel(final(messages).sender, final(messages).receiver),
        match message {
            Some(oldest) => queued(old(messages).receiver).len() > 0 && oldest == queued(
                old(messages).receiver,
            )[0] && queued(final(messages).receiver) == queued(
                old(messages).receiver,
            ).drop_first(),
            None => queued(old(messages).receiver).len() == 0 && queued(final(messages).receiver)
                == queued(old(messages).receiver),
        },
{
    messages.receiver.try_recv().ok()
}

impl View for MultiMessages {
    type V = Seq<MultiMessage>;

    /// The messages that wait, the oldest first.
    closed spec fn view(&self) -> Seq<MultiMessage> {
        queued(self.receiver)
    }
}

impl MultiMessages {
    /// The two ends belong to each other.
    pub closed spec fn wf(&self) -> bool {
        is_channel(self.sender, self.receiver)
    }

    /// The empty queue.
    pub fn new() -> (messages: Self)
        ensures
            messages.wf(),
            messages@ == Seq::<MultiMessage>::empty(),
    {
        let (sender, receiver) = unbounded();
        MultiMessages { sender, receiver }
    }

    /// Puts a message behind those that wait.
    pub fn push(&mut self, message: MultiMessage)
        requires
            old(self).wf(),
        ensures
            final(self).wf(),
            final(self)@ == old(self)@.push(message),
    {
        send(self, message)
    }

    /// Takes the oldest message, if one waits.
    pub fn pop(&mut self) -> (message: Option<MultiMessage>)
        requires
            old(self).wf(),
        ensures
            final(self).wf(),
            match message {
                Some(oldest) => old(self)@.len() > 0 && oldest == old(self)@[0] && final(self)@
                    == old(self)@.drop_first(),
                None => old(self)@.len() == 0 && final(self)@ == old(self)@,
            },
    {
        try_recv(self)
    }
}

} // verus!
