//! The steps by which an agent is spawned.
use crate::agent::AgentContext;
use crate::builder::{agent_thread_name, thread_name, AgentBuilder, Limits};
use crate::model::AgentState;
use vstd::prelude::*;

verus! {

/// What is to be done next in order to spawn an agent.
pub enum SpawnAction {
    /// Initialize libcurl, if necessary, on the current thread.
    InitCurl,
    /// Create the poller that drives curl's sockets.
    CreatePoller,
    /// Take the agent's number from the counter of agents.
    TakeNumber,
    /// Start the thread that runs the agent, under the given name.
    StartThread { name: String, agent: AgentContext },
    /// Wait until the agent has started, or its thread has ended.
    WaitReady,
    /// The agent is spawned; its handle can be handed out.
    Finish,
}

/// What came of a step.
#[derive(Debug)]
pub enum SpawnReply<E> {
    /// It was done.
    Completed,
    /// It failed.
    Failed(E),
    /// The agent has this number.
    Number(usize),
}

/// Which step of the spawning was handed out last.
#[derive(Debug, Clone, Copy, PartialEq, Eq)]
pub enum SpawnPhase {
    /// None.
    New,
    /// Initializing libcurl.
    InitializingCurl,
    /// Creating the poller.
    CreatingPoller,
    /// Taking the agent's number.
    TakingNumber,
    /// Starting the thread of the agent with this number.
    StartingThread { number: usize },
    /// Waiting for the agent.
    AwaitingReady,
    /// The last one, or one that has failed.
    Finished,
}

/// An agent that is being spawned.
pub struct Spawn {
    builder: AgentBuilder,
    phase: SpawnPhase,
}

/// The state of an agent that is being spawned.
pub struct SpawnState {
    /// The agent's configuration.
    pub limits: Limits,
    /// Which step was handed out last.
    pub phase: SpawnPhase,
}

impl SpawnState {
    /// Whether a reply is one to the step handed out last. Neither libcurl's
    /// initialization nor the wait reports a failure.
    pub open spec fn accepts<E>(self, reply: SpawnReply<E>) -> bool {
        match reply {
            SpawnReply::Completed => !(self.phase is TakingNumber) && !(self.phase is Finished),
            SpawnReply::Failed(_) => self.phase is CreatingPoller || self.phase is StartingThread,
            SpawnReply::Number(_) => self.phase is TakingNumber,
        }
    }

    /// The phase that follows a reply.
    pub open spec fn next_phase<E>(self, reply: SpawnReply<E>) -> SpawnPhase {
        match reply {
            SpawnReply::Completed => match self.phase {
                SpawnPhase::New => SpawnPhase::InitializingCurl,
                SpawnPhase::InitializingCurl => SpawnPhase::CreatingPoller,
                SpawnPhase::CreatingPoller => SpawnPhase::TakingNumber,
                SpawnPhase::StartingThread { .. } => SpawnPhase::AwaitingReady,
                _ => SpawnPhase::Finished,
            },
            SpawnReply::Failed(_) => SpawnPhase::Finished,
            SpawnReply::Number(number) => SpawnPhase::StartingThread { number },
        }
    }

    /// Whether an action is the one of the current phase. The thread is named
    /// after the agent's number, and runs an agent with the builder's limits.
    pub open spec fn is_action(self, action: SpawnAction) -> bool {
        match self.phase {
            SpawnPhase::New => false,
            SpawnPhase::InitializingCurl => action is InitCurl,
            SpawnPhase::CreatingPoller => action is CreatePoller,
            SpawnPhase::TakingNumber => action is TakeNumber,
            SpawnPhase::StartingThread { number } => match action {
                SpawnAction::StartThread { name, agent } => {
                    &&& name@ == thread_name(number as nat)
                    &&& agent.wf()
                    &&& agent@ == AgentState::init(self.limits.options())
                },
                _ => false,
            },
            SpawnPhase::AwaitingReady => action is WaitReady,
            SpawnPhase::Finished => action is Finish,
        }
    }
}

impl View for Spawn {
    type V = SpawnState;

    closed spec fn view(&self) -> SpawnState {
        SpawnState { limits: self.builder@, phase: self.phase }
    }
}

impl AgentBuilder {
    /// Spawn a new agent using the configuration in this builder.
    pub fn spawn(&self) -> (spawn: Spawn)
        ensures
            spawn@ == (SpawnState { limits: self@, phase: SpawnPhase::New }),
    {
        Spawn { builder: self.copied(), phase: SpawnPhase::New }
    }
}

impl Spawn {
    /// Whether a reply is one to the step handed out last.
    pub fn accepts<E>(&self, reply: &SpawnReply<E>) -> (result: bool)
        ensures
            result == self@.accepts(*reply),
    {
        match reply {
            SpawnReply::Completed => !matches!(
                self.phase,
                SpawnPhase::TakingNumber | SpawnPhase::Finished
            ),
            SpawnReply::Failed(_) => matches!(
                self.phase,
                SpawnPhase::CreatingPoller | SpawnPhase::StartingThread { .. }
            ),
            SpawnReply::Number(_) => matches!(self.phase, SpawnPhase::TakingNumber),
        }
    }

    /// Goes on after a reply: hands out the next step, or the error that the
    /// spawning has failed with.
    pub fn step<E>(&mut self, reply: SpawnReply<E>) -> (result: Result<SpawnAction, E>)
        requires
            old(self)@.accepts(reply),
        ensures
            final(self)@.limits == old(self)@.limits,
            final(self)@.phase == old(self)@.next_phase(reply),
            match result {
                Ok(action) => !(reply is Failed) && final(self)@.is_action(action),
                Err(error) => reply == SpawnReply::Failed(error),
            },
    {
        match reply {
            SpawnReply::Completed => match self.phase {
                SpawnPhase::New => {
                    self.phase = SpawnPhase::InitializingCurl;
                    Ok(SpawnAction::InitCurl)
                },
                SpawnPhase::InitializingCurl => {
                    self.phase = SpawnPhase::CreatingPoller;
                    Ok(SpawnAction::CreatePoller)
                },
                SpawnPhase::CreatingPoller => {
                    self.phase = SpawnPhase::TakingNumber;
                    Ok(SpawnAction::TakeNumber)
                },
                SpawnPhase::StartingThread { .. } => {
                    self.phase = SpawnPhase::AwaitingReady;
                    Ok(SpawnAction::WaitReady)
                },
                _ => {
                    self.phase = SpawnPhase::Finished;
                    Ok(SpawnAction::Finish)
                },
            },
            SpawnReply::Failed(error) => {
                self.phase = SpawnPhase::Finished;
                Err(error)
            },
            SpawnReply::Number(number) => {
                self.phase = SpawnPhase::StartingThread { number };
                let name = agent_thread_name(number);
                let agent = AgentContext::new(self.builder.multi_options());
                Ok(SpawnAction::StartThread { name, agent })
            },
        }
    }
}

} // verus!
