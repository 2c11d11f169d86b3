//! Handles, through which other threads speak to an agent.
use crate::message::Message;
use crate::requests::EasyHandle;
use vstd::prelude::*;

verus! {

/// How an agent's thread has ended.
#[derive(Debug)]
pub enum Exit<E> {
    /// It has returned.
    Returned(Result<(), E>),
    /// It has panicked.
    Panicked,
}

/// What came of joining an agent's thread.
#[derive(Debug)]
pub enum JoinResult<E> {
    /// The thread was joined before.
    AlreadyJoined,
    /// The agent has stopped without an error.
    Stopped,
    /// The agent has stopped with an error.
    Failed(E),
    /// The thread has panicked.
    Panic,
}

impl<E> JoinResult<E> {
    /// What came of joining a thread, given how it has ended, or `None` where
    /// it was joined before.
    pub open spec fn of(exit: Option<Exit<E>>) -> JoinResult<E> {
        match exit {
            None => JoinResult::AlreadyJoined,
            Some(Exit::Returned(Ok(()))) => JoinResult::Stopped,
            Some(Exit::Returned(Err(error))) => JoinResult::Failed(error),
            Some(Exit::Panicked) => JoinResult::Panic,
        }
    }

    /// What came of joining a thread, given how it has ended, or `None` where
    /// it was joined before.
    pub fn from_exit(exit: Option<Exit<E>>) -> (result: JoinResult<E>)
        ensures
            result == JoinResult::of(exit),
    {
        match exit {
            None => JoinResult::AlreadyJoined,
            Some(Exit::Returned(Ok(()))) => JoinResult::Stopped,
            Some(Exit::Returned(Err(error))) => JoinResult::Failed(error),
            Some(Exit::Panicked) => JoinResult::Panic,
        }
    }
}

/// Why a message cannot be sent.
#[derive(Debug)]
pub enum SendFailure<E> {
    /// The agent thread terminated with an error.
    Terminated(E),
    /// The agent thread panicked.
    Panicked,
    /// The agent thread terminated prematurely.
    Premature,
}

/// Why a message cannot be sent, given what came of joining the agent's thread.
pub open spec fn send_failure<E>(joined: JoinResult<E>) -> SendFailure<E> {
    match joined {
        JoinResult::Failed(error) => SendFailure::Terminated(error),
        JoinResult::Panic => SendFailure::Panicked,
        _ => SendFailure::Premature,
    }
}

/// A handle to an active agent running in a background thread, through which
/// the thread can be joined once.
#[derive(Debug)]
pub struct Handle<J> {
    join_handle: Option<J>,
}

impl<J> Handle<J> {
    /// The thread's join handle, until the thread is joined.
    pub closed spec fn joinable(&self) -> Option<J> {
        self.join_handle
    }

    /// Whether `taken` is the join handle that is taken out of this handle, which
    /// becomes `after`.
    pub open spec fn joins(self, after: Handle<J>, taken: Option<J>) -> bool {
        &&& taken == self.joinable()
        &&& after.joinable() is None
    }

    /// A handle to the agent whose thread `join_handle` joins.
    pub fn new(join_handle: J) -> (handle: Self)
        ensures
            handle.joinable() == Some(join_handle),
    {
        Handle { join_handle: Some(join_handle) }
    }

    /// Takes the thread's join handle, if it was not taken before.
    pub fn try_join(&mut self) -> (join_handle: Option<J>)
        ensures
            old(self).joins(*final(self), join_handle),
            join_handle == old(self).joinable(),
            final(self).joinable() is None,
    {
        self.join_handle.take()
    }
}

/// What is to be done next in order to send a message.
#[derive(Debug)]
pub enum SendAction<E> {
    /// Send the message to the agent.
    Send(Message),
    /// Wake the agent up, so that it will check its messages soon.
    Wake,
    /// Join the agent's thread.
    Join,
    /// Nothing: the message was sent, or the agent is closed.
    Return,
    /// Nothing: the message cannot be sent.
    Fail(SendFailure<E>),
}

/// What came of an action.
#[derive(Debug)]
pub enum SendReply<E> {
    /// Nothing was asked for yet.
    Begin,
    /// The message was sent.
    Sent,
    /// The agent is gone.
    Disconnected,
    /// The agent was woken up.
    Woken,
    /// The agent's thread was joined.
    Joined(JoinResult<E>),
}

/// Which reply the sender of a message waits for.
#[derive(Debug, Clone, Copy, PartialEq, Eq)]
pub enum SendPhase {
    /// That it can begin.
    New,
    /// Whether the message was sent.
    Sending,
    /// That the agent was woken up.
    Waking,
    /// Why the agent is gone.
    Diagnosing,
    /// That the agent, which was asked to close, has stopped.
    Closing,
    /// None.
    Finished,
}

/// A message that is being sent to the agent.
#[derive(Debug, Clone, Copy, PartialEq, Eq)]
pub struct Sending {
    /// The message.
    pub message: Message,
    /// Which reply is waited for.
    pub phase: SendPhase,
}

impl Sending {
    /// Whether a reply is one to the action that was handed out last.
    pub open spec fn spec_accepts<E>(self, reply: SendReply<E>) -> bool {
        match reply {
            SendReply::Begin => self.phase is New,
            SendReply::Sent => self.phase is Sending,
            SendReply::Disconnected => self.phase is Sending,
            SendReply::Woken => self.phase is Waking,
            SendReply::Joined(_) => self.phase is Diagnosing || self.phase is Closing,
        }
    }

    /// Goes on after a reply. Once a message is sent, the agent is woken up. If
    /// the agent is gone, its thread is joined to find out why, and sending
    /// fails. If the message asks the agent to close, its thread is joined in
    /// the end either way.
    pub open spec fn next<E>(self, reply: SendReply<E>) -> (SendPhase, SendAction<E>) {
        match reply {
            SendReply::Begin => (SendPhase::Sending, SendAction::Send(self.message)),
            SendReply::Sent => (SendPhase::Waking, SendAction::Wake),
            SendReply::Disconnected => (SendPhase::Diagnosing, SendAction::Join),
            SendReply::Woken => if self.message is Close {
                (SendPhase::Closing, SendAction::Join)
            } else {
                (SendPhase::Finished, SendAction::Return)
            },
            SendReply::Joined(joined) => if self.phase is Closing {
                (SendPhase::Finished, SendAction::Return)
            } else if self.message is Close {
                (SendPhase::Closing, SendAction::Join)
            } else {
                (SendPhase::Finished, SendAction::Fail(send_failure(joined)))
            },
        }
    }

    /// Begin executing a transfer with the agent.
    pub fn submit_request(request: EasyHandle) -> (sending: Self)
        ensures
            sending.message == Message::Execute(request),
            sending.phase is New,
    {
        Sending { message: Message::Execute(request), phase: SendPhase::New }
    }

    /// Shut the agent down, and wait until its thread has ended.
    pub fn close() -> (sending: Self)
        ensures
            sending.message is Close,
            sending.phase is New,
    {
        Sending { message: Message::Close, phase: SendPhase::New }
    }

    /// Whether a reply is one to the action that was handed out last.
    pub fn accepts<E>(&self, reply: &SendReply<E>) -> (result: bool)
        ensures
            result == self.spec_accepts(*reply),
    {
        match reply {
            SendReply::Begin => matches!(self.phase, SendPhase::New),
            SendReply::Sent => matches!(self.phase, SendPhase::Sending),
            SendReply::Disconnected => matches!(self.phase, SendPhase::Sending),
            SendReply::Woken => matches!(self.phase, SendPhase::Waking),
            SendReply::Joined(_) => matches!(
                self.phase,
                SendPhase::Diagnosing | SendPhase::Closing
            ),
        }
    }

    /// Goes on after a reply: hands out the next action.
    pub fn send_message<E>(&mut self, reply: SendReply<E>) -> (action: SendAction<E>)
        requires
            old(self).spec_accepts(reply),
        ensures
            final(self).message == old(self).message,
            (final(self).phase, action) == old(self).next(reply),
    {
        match reply {
            SendReply::Begin => {
                self.phase = SendPhase::Sending;
                SendAction::Send(self.message)
            },
            SendReply::Sent => {
                self.phase = SendPhase::Waking;
                SendAction::Wake
            },
            SendReply::Disconnected => {
                self.phase = SendPhase::Diagnosing;
                SendAction::Join
            },
            SendReply::Woken => {
                if let Message::Close = self.message {
                    self.phase = SendPhase::Closing;
                    SendAction::Join
                } else {
                    self.phase = SendPhase::Finished;
                    SendAction::Return
                }
            },
            SendReply::Joined(joined) => {
                if let SendPhase::Closing = self.phase {
                    self.phase = SendPhase::Finished;
                    SendAction::Return
                } else if let Message::Close = self.message {
                    self.phase = SendPhase::Closing;
                    SendAction::Join
                } else {
                    self.phase = SendPhase::Finished;
                    match joined {
                        JoinResult::Failed(error) => SendAction::Fail(
                            SendFailure::Terminated(error),
                        ),
                        JoinResult::Panic => SendAction::Fail(SendFailure::Panicked),
                        _ => SendAction::Fail(SendFailure::Premature),
                    }
                }
            },
        }
    }
}

} // verus!
