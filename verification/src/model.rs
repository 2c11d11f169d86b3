//! The agent as a mathematical state machine.
use crate::builder::MultiOption;
use crate::message::{finished, spec_wait_timeout, CurlMessage, Event, Message, SocketUpdate};
use crate::protocol::{Action, AfterRegistration, Attempt, Phase, Reply};
use crate::queue::MultiMessage;
use crate::requests::EasyHandle;
use crate::slab_model::SlabModel;
use crate::sockets::{Socket, SocketContext};
use vstd::prelude::*;

verus! {

/// The state of an agent.
#[verifier::ext_equal]
pub struct AgentState {
    /// The options to set on the multi handle.
    pub options: Seq<MultiOption>,
    /// The active transfers, by token.
    pub requests: SlabModel<EasyHandle>,
    /// Whether the agent was asked to close.
    pub close_requested: bool,
    /// The finished transfers that are still to be completed, in order.
    pub completions: Seq<MultiMessage>,
    /// The sockets watched for curl. A socket's key for curl and for the poller
    /// is one more than its key here, as 0 means to curl that it has none.
    pub sockets: SlabModel<SocketContext>,
    /// The sockets that were ready at the end of the last wait.
    pub socket_events: Seq<Event>,
    /// Which reply the agent waits for.
    pub phase: Phase,
}

/// Whether each event is about a key that was handed out.
pub open spec fn events_keyed(events: Seq<Event>) -> bool {
    forall|i: int| 0 <= i < events.len() ==> (#[trigger] events[i]).key > 0
}

/// Whether a socket is watched under the given key of curl and the poller.
pub open spec fn is_watched(sockets: SlabModel<SocketContext>, key: usize) -> bool {
    key > 0 && sockets.entries.contains_key((key - 1) as usize)
}

impl AgentState {
    /// A new agent, which has done nothing yet.
    pub open spec fn init(options: Seq<MultiOption>) -> AgentState {
        AgentState {
            options,
            requests: SlabModel::empty(),
            close_requested: false,
            completions: Seq::empty(),
            sockets: SlabModel::empty(),
            socket_events: Seq::empty(),
            phase: Phase::Configuring { next: 0 },
        }
    }

    /// What holds in every state of an agent.
    pub open spec fn wf(self) -> bool {
        &&& self.requests.wf()
        &&& self.sockets.wf()
        &&& self.completions.len() > 0 ==> self.phase is Removing || self.phase is Delivering
            || self.phase is Stopped
        &&& self.close_requested ==> self.phase is Stopped
        &&& events_keyed(self.socket_events)
        &&& match self.phase {
            Phase::Configuring { next } => next <= self.options.len(),
            Phase::Initializing { id, .. } => id == self.requests.next_key(),
            Phase::Adding { id, .. } => id == self.requests.next_key(),
            Phase::SettingToken { id, .. } => id == self.requests.next_key(),
            Phase::Assigning { event, .. } => self.records(event),
            Phase::Registering { event, after, .. } => {
                &&& self.records(event)
                &&& after matches AfterRegistration::Rearm(next) ==> next
                    <= self.socket_events.len()
            },
            Phase::Performing { next } => next <= self.socket_events.len(),
            _ => true,
        }
    }

    /// Whether a reply is one to the action that was handed out last, and one
    /// that the agent can go on from. It cannot go on if it would have to
    /// complete a transfer that is not active, if curl asks to stop
    /// watching a socket that is not watched, or if the poller reports on a key
    /// that was never handed out.
    pub open spec fn accepts<E>(self, reply: Reply<E>) -> bool {
        match reply {
            Reply::Completed => match self.phase {
                Phase::Receiving { .. } => false,
                Phase::Collecting => false,
                Phase::Updating => false,
                Phase::DrainingTimeouts => false,
                Phase::Waiting => false,
                Phase::Delivering => self.can_complete_next(),
                Phase::Stopped => false,
                _ => true,
            },
            Reply::Failed(_) => match self.phase {
                Phase::Configuring { next } => next > 0,
                Phase::InstallingSocketFunction => true,
                Phase::InstallingTimerFunction => true,
                Phase::Adding { .. } => true,
                Phase::SettingToken { .. } => true,
                Phase::Unpausing => true,
                Phase::Notifying => true,
                Phase::Removing { .. } => true,
                Phase::Deleting => true,
                Phase::Assigning { .. } => true,
                Phase::Registering { .. } => true,
                Phase::Waiting => true,
                Phase::Performing { .. } => true,
                _ => false,
            },
            Reply::Message(_) => self.phase is Receiving,
            Reply::NoMessage => self.phase == (Phase::Receiving { blocking: false }),
            Reply::Disconnected => self.phase is Receiving,
            Reply::CurlMessages(messages) => self.phase is Collecting && (AgentState {
                completions: self.completions + finished(messages@),
                ..self
            }).can_complete_next(),
            Reply::SocketUpdate(update) => self.phase is Updating && (update.events.remove
                ==> self.watches(update.key)),
            Reply::NoSocketUpdate => self.phase is Updating,
            Reply::Timeouts(_) => self.phase is DrainingTimeouts,
            Reply::Events(events) => self.phase is Waiting && events_keyed(events@),
        }
    }

    /// Whether the transfer that is to be completed next, if there is one, is
    /// active.
    pub open spec fn can_complete_next(self) -> bool {
        self.completions.len() > 0 ==> self.requests.entries.contains_key(self.completions[0].0)
    }

    /// Whether a socket is watched under the given key of curl and the poller.
    pub open spec fn watches(self, key: usize) -> bool {
        is_watched(self.sockets, key)
    }

    /// Whether an event states the interest that is recorded for a socket.
    pub open spec fn records(self, event: Event) -> bool {
        let context = self.sockets.entries[(event.key - 1) as usize];
        &&& self.watches(event.key)
        &&& event.readable == context.readable
        &&& event.writable == context.writable
    }

    /// The state in which the agent waits for the reply that `phase` names.
    pub open spec fn at(self, phase: Phase) -> AgentState {
        AgentState { phase, ..self }
    }

    /// Sets the options from index `next` on, and then goes on to have curl
    /// report its sockets.
    pub open spec fn configure(self, next: usize) -> (AgentState, Action) {
        if next < self.options.len() {
            (
                self.at(Phase::Configuring { next: (next + 1) as usize }),
                Action::SetOption(self.options[next as int]),
            )
        } else {
            (self.at(Phase::InstallingSocketFunction), Action::InstallSocketFunction)
        }
    }

    /// Turns to the messages of the handles: an agent that was asked to close
    /// drops its transfers and stops; any other waits for a message if it has
    /// no transfer, and only looks for one if it has.
    pub open spec fn poll_messages(self) -> (AgentState, Action) {
        if self.close_requested {
            (
                AgentState { requests: SlabModel::empty(), phase: Phase::Stopped, ..self },
                Action::Stop,
            )
        } else if self.requests.is_empty() {
            (self.at(Phase::Receiving { blocking: true }), Action::Receive)
        } else {
            (self.at(Phase::Receiving { blocking: false }), Action::TryReceive)
        }
    }

    /// Does what a message asks for. A request to resume a transfer that is not
    /// active is passed over.
    pub open spec fn handle_message(self, message: Message) -> (AgentState, Action) {
        match message {
            Message::Close => (AgentState { close_requested: true, ..self }).poll_messages(),
            Message::Execute(handle) => self.begin_request(handle),
            Message::UnpauseRead(token) => if self.requests.entries.contains_key(token) {
                (
                    self.at(Phase::Unpausing),
                    Action::UnpauseRead { handle: self.requests.entries[token] },
                )
            } else {
                self.poll_messages()
            },
            Message::UnpauseWrite(token) => if self.requests.entries.contains_key(token) {
                (
                    self.at(Phase::Unpausing),
                    Action::UnpauseWrite { handle: self.requests.entries[token] },
                )
            } else {
                self.poll_messages()
            },
        }
    }

    /// Begins a transfer: its identifier is the key that it will be stored
    /// under.
    pub open spec fn begin_request(self, handle: EasyHandle) -> (AgentState, Action) {
        let id = self.requests.next_key() as usize;
        (
            self.at(Phase::Initializing { handle, id }),
            Action::InitHandler {
                handle,
                id,
                on_read: Message::UnpauseRead(id),
                on_write: Message::UnpauseWrite(id),
            },
        )
    }

    /// Has curl look at its transfers.
    pub open spec fn notify_curl_of_timeout(self) -> (AgentState, Action) {
        (self.at(Phase::Notifying), Action::NotifyTimeout)
    }

    /// Turns to the transfers that have finished.
    pub open spec fn dispatch(self) -> (AgentState, Action) {
        (self.at(Phase::Collecting), Action::CollectMessages)
    }

    /// Completes the transfers that curl's messages report as finished.
    pub open spec fn complete_requests(self, messages: Seq<CurlMessage>) -> (AgentState, Action) {
        (AgentState {
            completions: self.completions + finished(messages),
            ..self
        }).complete_next()
    }

    /// Completes the next finished transfer, if one is left: it is no longer
    /// active.
    pub open spec fn complete_next(self) -> (AgentState, Action) {
        if self.completions.len() > 0 {
            let (token, result) = self.completions[0];
            let handle = self.requests.entries[token];
            (
                AgentState {
                    completions: self.completions.drop_first(),
                    requests: self.requests.remove(token),
                    phase: Phase::Removing { handle, result },
                    ..self
                },
                Action::RemoveHandle { handle },
            )
        } else {
            self.poll_io()
        }
    }

    /// Turns to the sockets, beginning with the updates that curl asks for.
    pub open spec fn poll_io(self) -> (AgentState, Action) {
        (self.at(Phase::Updating), Action::NextSocketUpdate)
    }

    /// Applies a socket update: forgets the socket, watches a new one, or
    /// changes the interest in one that is watched. A change to a socket that is
    /// not watched is passed over.
    pub open spec fn update_socket(self, update: SocketUpdate) -> (AgentState, Action) {
        let index = (update.key - 1) as usize;
        let readable = update.events.spec_readable();
        let writable = update.events.spec_writable();
        if update.events.remove {
            (
                AgentState {
                    sockets: self.sockets.remove(index),
                    phase: Phase::Deleting,
                    ..self
                },
                Action::PollerDelete { socket: update.socket },
            )
        } else if update.key == 0 {
            let key = (self.sockets.next_key() + 1) as usize;
            (
                AgentState {
                    sockets: self.sockets.insert(
                        SocketContext { socket: update.socket, readable, writable },
                    ),
                    phase: Phase::Assigning {
                        socket: update.socket,
                        event: Event { key, readable, writable },
                    },
                    ..self
                },
                Action::AssignSocket { socket: update.socket, key },
            )
        } else if self.watches(update.key) {
            (AgentState {
                sockets: self.sockets.update(
                    index,
                    SocketContext {
                        socket: self.sockets.entries[index].socket,
                        readable,
                        writable,
                    },
                ),
                ..self
            }).register(
                update.socket,
                Event { key: update.key, readable, writable },
                Attempt::Modify,
                AfterRegistration::NextUpdate,
            )
        } else {
            self.poll_io()
        }
    }

    /// Makes one attempt to register a socket with the poller.
    pub open spec fn register(
        self,
        socket: Socket,
        event: Event,
        attempt: Attempt,
        after: AfterRegistration,
    ) -> (AgentState, Action) {
        (
            self.at(Phase::Registering { socket, event, attempt, after }),
            match attempt {
                Attempt::Add => Action::PollerAdd { socket, event },
                Attempt::AddAfterModify => Action::PollerAdd { socket, event },
                Attempt::Modify => Action::PollerModify { socket, event },
                Attempt::ModifyAfterAdd => Action::PollerModify { socket, event },
            },
        )
    }

    /// The index of the first event, from `from` on, whose socket is watched,
    /// or the number of events if there is none.
    pub open spec fn next_watched(self, from: int) -> int
        decreases self.socket_events.len() - from,
    {
        if from >= self.socket_events.len() {
            self.socket_events.len() as int
        } else if self.watches(self.socket_events[from].key) {
            from
        } else {
            self.next_watched(from + 1)
        }
    }

    /// Registers the sockets that were ready, from index `from` on, with the
    /// poller again, since it reports on a socket only once. Sockets that are
    /// no longer watched are passed over.
    pub open spec fn rearm(self, from: int) -> (AgentState, Action) {
        let i = self.next_watched(from);
        if i < self.socket_events.len() {
            let key = self.socket_events[i].key;
            let context = self.sockets.entries[(key - 1) as usize];
            self.register(
                context.socket,
                Event { key, readable: context.readable, writable: context.writable },
                Attempt::Modify,
                AfterRegistration::Rearm((i + 1) as usize),
            )
        } else {
            (self.at(Phase::DrainingTimeouts), Action::DrainTimeouts)
        }
    }

    /// Waits for activity, given the timeouts that curl has asked for.
    pub open spec fn wait(self, timeouts: Seq<Option<u128>>) -> (AgentState, Action) {
        (
            AgentState { socket_events: Seq::empty(), phase: Phase::Waiting, ..self },
            Action::Wait { timeout: spec_wait_timeout(timeouts) as u64 },
        )
    }

    /// Tells curl of the end of the wait: that its timeout has passed if no
    /// socket is ready, or else which sockets are.
    pub open spec fn react(self, events: Seq<Event>) -> (AgentState, Action) {
        let state = AgentState { socket_events: events, ..self };
        if events.len() == 0 {
            state.notify_curl_of_timeout()
        } else {
            state.perform(0)
        }
    }

    /// Tells curl of the sockets that are ready, from index `from` on, and then
    /// turns to the messages again. Sockets that are no longer watched are
    /// passed over.
    pub open spec fn perform(self, from: int) -> (AgentState, Action) {
        let i = self.next_watched(from);
        if i < self.socket_events.len() {
            let event = self.socket_events[i];
            let context = self.sockets.entries[(event.key - 1) as usize];
            (
                self.at(Phase::Performing { next: (i + 1) as usize }),
                Action::SocketAction {
                    socket: context.socket,
                    readable: event.readable,
                    writable: event.writable,
                },
            )
        } else {
            self.poll_messages()
        }
    }

    /// Goes on after an action was done. In the phases left out here, an agent
    /// waits for another reply.
    pub open spec fn resume(self) -> (AgentState, Action) {
        match self.phase {
            Phase::Configuring { next } => self.configure(next),
            Phase::InstallingSocketFunction => (
                self.at(Phase::InstallingTimerFunction),
                Action::InstallTimerFunction,
            ),
            Phase::InstallingTimerFunction => (
                self.at(Phase::SignalingReady),
                Action::SignalReady,
            ),
            Phase::SignalingReady => self.poll_messages(),
            Phase::Initializing { handle, id } => (
                self.at(Phase::Adding { handle, id }),
                Action::AddHandle { handle },
            ),
            Phase::Adding { handle, id } => (
                self.at(Phase::SettingToken { handle, id }),
                Action::SetToken { handle, token: id },
            ),
            Phase::SettingToken { handle, .. } => (AgentState {
                requests: self.requests.insert(handle),
                ..self
            }).notify_curl_of_timeout(),
            Phase::Unpausing => self.poll_messages(),
            Phase::Notifying => self.poll_messages(),
            Phase::Removing { handle, result } => (
                self.at(Phase::Delivering),
                Action::DeliverResult { handle, result },
            ),
            Phase::Delivering => self.complete_next(),
            Phase::Deleting => self.poll_io(),
            Phase::Assigning { socket, event } => self.register(
                socket,
                event,
                Attempt::Add,
                AfterRegistration::NextUpdate,
            ),
            Phase::Registering { after, .. } => match after {
                AfterRegistration::NextUpdate => self.poll_io(),
                AfterRegistration::Rearm(next) => self.rearm(next as int),
            },
            Phase::Performing { next } => self.perform(next as int),
            _ => (self, Action::Stop),
        }
    }

    /// Goes on after an action failed. A transfer that cannot be resumed will
    /// fail on its own, and a socket that the poller cannot forget is most
    /// likely closed: either failure is passed over. A socket that cannot be
    /// added to the poller is modified instead, and the other way round. Any
    /// other failure stops the agent.
    pub open spec fn fail<E>(self, error: E) -> (AgentState, Result<Action, E>) {
        match self.phase {
            Phase::Unpausing => ok(self.resume()),
            Phase::Deleting => ok(self.resume()),
            Phase::Registering { socket, event, attempt: Attempt::Add, after } => ok(
                self.register(socket, event, Attempt::ModifyAfterAdd, after),
            ),
            Phase::Registering { socket, event, attempt: Attempt::Modify, after } => ok(
                self.register(socket, event, Attempt::AddAfterModify, after),
            ),
            _ => (self.at(Phase::Stopped), Err(error)),
        }
    }

    /// Goes on after a reply: the next state, and the next action, or the error
    /// that the agent has stopped with.
    pub open spec fn step<E>(self, reply: Reply<E>) -> (AgentState, Result<Action, E>) {
        match reply {
            Reply::Completed => ok(self.resume()),
            Reply::Failed(error) => self.fail(error),
            Reply::Message(message) => ok(self.handle_message(message)),
            Reply::NoMessage => ok(self.dispatch()),
            Reply::Disconnected => ok(
                (AgentState { close_requested: true, ..self }).poll_messages(),
            ),
            Reply::CurlMessages(messages) => ok(self.complete_requests(messages@)),
            Reply::SocketUpdate(update) => ok(self.update_socket(update)),
            Reply::NoSocketUpdate => ok(self.rearm(0)),
            Reply::Timeouts(timeouts) => ok(self.wait(timeouts@)),
            Reply::Events(events) => ok(self.react(events@)),
        }
    }
}

/// A step that does not stop the agent with an error.
pub open spec fn ok<E>(next: (AgentState, Action)) -> (AgentState, Result<Action, E>) {
    (next.0, Ok(next.1))
}

} // verus!
