//! Blocking on a task, and waking the agent from one.
use crate::message::Message;
use vstd::prelude::*;

verus! {

/// What a thread that blocks on a task does next.
#[derive(Debug, PartialEq, Eq)]
pub enum JoinAction<T> {
    /// It polls the task.
    Poll,
    /// It sleeps until the task's waker is woken.
    Park,
    /// It returns the task's output.
    Return(T),
}

/// What came of an action.
#[derive(Debug, PartialEq, Eq)]
pub enum JoinReply<T> {
    /// Nothing was asked for yet.
    Begin,
    /// The task was polled: its output, or `None` where it is pending.
    Polled(Option<T>),
    /// The waker was woken.
    Unparked,
}

/// Which reply a thread that blocks on a task waits for.
#[derive(Debug, Clone, Copy, PartialEq, Eq)]
pub enum JoinPhase {
    /// That it can begin.
    New,
    /// What polling the task brings.
    Polling,
    /// That the task's waker is woken.
    Parked,
    /// None: the output is returned.
    Finished,
}

/// Whether a reply is one to the action that was handed out last.
pub open spec fn join_accepts<T>(phase: JoinPhase, reply: JoinReply<T>) -> bool {
    match reply {
        JoinReply::Begin => phase is New,
        JoinReply::Polled(_) => phase is Polling,
        JoinReply::Unparked => phase is Parked,
    }
}

/// Goes on after a reply: polls the task, sleeps after each poll that finds it
/// pending, and returns the output that a poll brings.
pub open spec fn join_next<T>(reply: JoinReply<T>) -> (JoinPhase, JoinAction<T>) {
    match reply {
        JoinReply::Begin => (JoinPhase::Polling, JoinAction::Poll),
        JoinReply::Polled(Some(output)) => (JoinPhase::Finished, JoinAction::Return(output)),
        JoinReply::Polled(None) => (JoinPhase::Parked, JoinAction::Park),
        JoinReply::Unparked => (JoinPhase::Polling, JoinAction::Poll),
    }
}

/// A thread that blocks on a task. A wake that comes before the sleep must end
/// the sleep at once, so that it is not lost: that is up to what puts the thread
/// to sleep.
#[derive(Debug, Clone, Copy, PartialEq, Eq)]
pub struct Joining {
    /// Which reply is waited for.
    pub phase: JoinPhase,
}

impl Joining {
    /// A thread that is about to block on a task.
    pub fn new() -> (joining: Self)
        ensures
            joining.phase is New,
    {
        Joining { phase: JoinPhase::New }
    }

    /// Whether a reply is one to the action that was handed out last.
    pub fn accepts<T>(&self, reply: &JoinReply<T>) -> (result: bool)
        ensures
            result == join_accepts(self.phase, *reply),
    {
        match reply {
            JoinReply::Begin => matches!(self.phase, JoinPhase::New),
            JoinReply::Polled(_) => matches!(self.phase, JoinPhase::Polling),
            JoinReply::Unparked => matches!(self.phase, JoinPhase::Parked),
        }
    }

    /// Goes on after a reply: hands out the next action.
    pub fn step<T>(&mut self, reply: JoinReply<T>) -> (action: JoinAction<T>)
        requires
            join_accepts(old(self).phase, reply),
        ensures
            (final(self).phase, action) == join_next(reply),
    {
        match reply {
            JoinReply::Begin => {
                self.phase = JoinPhase::Polling;
                JoinAction::Poll
            },
            JoinReply::Polled(Some(output)) => {
                self.phase = JoinPhase::Finished;
                JoinAction::Return(output)
            },
            JoinReply::Polled(None) => {
                self.phase = JoinPhase::Parked;
                JoinAction::Park
            },
            JoinReply::Unparked => {
                self.phase = JoinPhase::Polling;
                JoinAction::Poll
            },
        }
    }
}

/// What one wake of a waker that resumes a transfer does next.
#[derive(Debug, Clone, Copy, PartialEq, Eq)]
pub enum ResumeAction {
    /// It sends a message to the agent.
    Send(Message),
    /// It wakes the agent up.
    WakeAgent,
    /// It returns.
    Return,
}

/// What came of an action.
#[derive(Debug, Clone, Copy, PartialEq, Eq)]
pub enum ResumeReply {
    /// Nothing was asked for yet.
    Begin,
    /// The message was sent.
    Sent,
    /// The agent is gone.
    Disconnected,
    /// The agent was woken up.
    Woken,
}

/// Which reply a wake waits for.
#[derive(Debug, Clone, Copy, PartialEq, Eq)]
pub enum ResumePhase {
    /// That it can begin.
    New,
    /// Whether the message was sent.
    Sending,
    /// That the agent was woken up.
    Waking,
    /// None.
    Finished,
}

/// One wake of a waker that resumes a transfer.
#[derive(Debug, Clone, Copy, PartialEq, Eq)]
pub struct Resuming {
    /// The message that asks the agent to resume the transfer.
    pub message: Message,
    /// Which reply is waited for.
    pub phase: ResumePhase,
}

impl Resuming {
    /// Whether a reply is one to the action that was handed out last.
    pub open spec fn spec_accepts(self, reply: ResumeReply) -> bool {
        match reply {
            ResumeReply::Begin => self.phase is New,
            ResumeReply::Sent => self.phase is Sending,
            ResumeReply::Disconnected => self.phase is Sending,
            ResumeReply::Woken => self.phase is Waking,
        }
    }

    /// Goes on after a reply: sends the message, and wakes the agent up if, and
    /// only if, the message was sent.
    pub open spec fn next(self, reply: ResumeReply) -> (ResumePhase, ResumeAction) {
        match reply {
            ResumeReply::Begin => (ResumePhase::Sending, ResumeAction::Send(self.message)),
            ResumeReply::Sent => (ResumePhase::Waking, ResumeAction::WakeAgent),
            ResumeReply::Disconnected => (ResumePhase::Finished, ResumeAction::Return),
            ResumeReply::Woken => (ResumePhase::Finished, ResumeAction::Return),
        }
    }

    /// A wake of the waker that was given this message.
    pub fn new(message: Message) -> (resuming: Self)
        ensures
            resuming.message == message,
            resuming.phase is New,
    {
        Resuming { message, phase: ResumePhase::New }
    }

    /// Whether a reply is one to the action that was handed out last.
    pub fn accepts(&self, reply: &ResumeReply) -> (result: bool)
        ensures
            result == self.spec_accepts(*reply),
    {
        match reply {
            ResumeReply::Begin => matches!(self.phase, ResumePhase::New),
            ResumeReply::Sent => matches!(self.phase, ResumePhase::Sending),
            ResumeReply::Disconnected => matches!(self.phase, ResumePhase::Sending),
            ResumeReply::Woken => matches!(self.phase, ResumePhase::Waking),
        }
    }

    /// Goes on after a reply: hands out the next action.
    pub fn step(&mut self, reply: ResumeReply) -> (action: ResumeAction)
        requires
            old(self).spec_accepts(reply),
        ensures
            final(self).message == old(self).message,
            (final(self).phase, action) == old(self).next(reply),
    {
        match reply {
            ResumeReply::Begin => {
                self.phase = ResumePhase::Sending;
                ResumeAction::Send(self.message)
            },
            ResumeReply::Sent => {
                self.phase = ResumePhase::Waking;
                ResumeAction::WakeAgent
            },
            ResumeReply::Disconnected => {
                self.phase = ResumePhase::Finished;
                ResumeAction::Return
            },
            ResumeReply::Woken => {
                self.phase = ResumePhase::Finished;
                ResumeAction::Return
            },
        }
    }
}

} // verus!
