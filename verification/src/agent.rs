//! The agent: the event loop that runs many curl transfers at once.
//!
//! The event loop is a traditional curl multi event loop with some extra
//! bookkeeping, cut at each point where it touches the outside world.
use crate::builder::MultiOption;
use crate::message::{
    finished, wait_timeout, CurlMessage, Event, Message, SocketEvents, SocketUpdate,
};
use crate::model::{events_keyed, AgentState};
use crate::protocol::{Action, AfterRegistration, Attempt, Phase, Reply};
use crate::queue::{MultiMessage, MultiMessages};
use crate::requests::{
    request_model, requests_clear, requests_get, requests_insert, requests_is_empty, requests_new,
    requests_remove, requests_vacant_key, EasyHandle,
};
use crate::slab_model::{
    lemma_empty_wf, lemma_insert_wf, lemma_remove_wf, lemma_update_wf, SlabModel,
};
use crate::sockets::{
    socket_model, sockets_get, sockets_get_mut, sockets_insert, sockets_new, sockets_remove,
    Socket, SocketContext,
};
use slab::Slab;
use vstd::prelude::*;

verus! {

/// Internal state of an agent thread.
pub struct AgentContext {
    /// The options to set on the multi handle.
    options: Vec<MultiOption>,
    /// Queue of finished transfers that curl has reported.
    multi_messages: MultiMessages,
    /// The finished transfer that is to be completed next, which is out of the
    /// queue already.
    completing: Option<MultiMessage>,
    /// Contains all of the active transfers.
    requests: Slab<EasyHandle>,
    /// Indicates if the thread has been requested to stop.
    close_requested: bool,
    /// All of the sockets that curl has asked us to keep track of.
    sockets: Slab<SocketContext>,
    /// Socket events that have occurred.
    socket_events: Vec<Event>,
    /// Which reply is waited for.
    phase: Phase,
}

impl View for AgentContext {
    type V = AgentState;

    closed spec fn view(&self) -> AgentState {
        AgentState {
            options: self.options@,
            requests: request_model(self.requests),
            close_requested: self.close_requested,
            completions: self.completions(),
            sockets: socket_model(self.sockets),
            socket_events: self.socket_events@,
            phase: self.phase,
        }
    }
}

impl AgentContext {
    /// The finished transfers that are still to be completed, in order.
    closed spec fn completions(&self) -> Seq<MultiMessage> {
        match self.completing {
            Some(message) => seq![message] + self.multi_messages@,
            None => self.multi_messages@,
        }
    }

    /// What holds of every agent.
    pub closed spec fn wf(&self) -> bool {
        &&& self.multi_messages.wf()
        &&& self.completing is None ==> self.multi_messages@.len() == 0
        &&& self@.wf()
    }

    /// The state of every agent is well formed.
    pub proof fn lemma_state_wf(&self)
        requires
            self.wf(),
        ensures
            self@.wf(),
    {
    }

    /// A new agent, which sets the given options when it starts. It hands out
    /// its first action in answer to `Reply::Completed`.
    pub fn new(options: Vec<MultiOption>) -> (agent: Self)
        ensures
            agent.wf(),
            agent@.wf(),
            agent@ == AgentState::init(options@),
    {
        let agent = AgentContext {
            options,
            multi_messages: MultiMessages::new(),
            completing: None,
            requests: requests_new(),
            close_requested: false,
            sockets: sockets_new(),
            socket_events: Vec::new(),
            phase: Phase::Configuring { next: 0 },
        };
        proof {
            lemma_empty_wf::<EasyHandle>();
            lemma_empty_wf::<SocketContext>();
            assert(request_model(agent.requests) =~= SlabModel::<EasyHandle>::empty());
            assert(socket_model(agent.sockets) =~= SlabModel::<SocketContext>::empty());
        }
        agent
    }

    /// Sets the options from index `next` on.
    fn configure(&mut self, next: usize) -> (action: Action)
        requires
            old(self).wf(),
            old(self)@.completions.len() == 0,
            !old(self)@.close_requested,
            next <= old(self)@.options.len(),
        ensures
            final(self).wf(),
            (final(self)@, action) == old(self)@.configure(next),
    {
        if next < self.options.len() {
            self.phase = Phase::Configuring { next: next + 1 };
            Action::SetOption(self.options[next])
        } else {
            self.phase = Phase::InstallingSocketFunction;
            Action::InstallSocketFunction
        }
    }

    /// Polls the message channel for new messages from any agent handles.
    ///
    /// If there are no active transfers right now, the agent will block until a
    /// message is received.
    fn poll_messages(&mut self) -> (action: Action)
        requires
            old(self).wf(),
            old(self)@.completions.len() == 0,
        ensures
            final(self).wf(),
            (final(self)@, action) == old(self)@.poll_messages(),
    {
        if self.close_requested {
            requests_clear(&mut self.requests);
            proof {
                lemma_empty_wf::<EasyHandle>();
            }
            self.phase = Phase::Stopped;
            Action::Stop
        } else if requests_is_empty(&self.requests) {
            self.phase = Phase::Receiving { blocking: true };
            Action::Receive
        } else {
            self.phase = Phase::Receiving { blocking: false };
            Action::TryReceive
        }
    }

    /// Does what a message asks for.
    fn handle_message(&mut self, message: Message) -> (action: Action)
        requires
            old(self).wf(),
            old(self)@.completions.len() == 0,
            !old(self)@.close_requested,
        ensures
            final(self).wf(),
            (final(self)@, action) == old(self)@.handle_message(message),
    {
        match message {
            Message::Close => {
                self.phase = Phase::Stopped;
                self.close_requested = true;
                self.poll_messages()
            },
            Message::Execute(handle) => self.begin_request(handle),
            Message::UnpauseRead(token) => {
                if let Some(handle) = requests_get(&self.requests, token) {
                    let handle = *handle;
                    self.phase = Phase::Unpausing;
                    Action::UnpauseRead { handle }
                } else {
                    self.poll_messages()
                }
            },
            Message::UnpauseWrite(token) => {
                if let Some(handle) = requests_get(&self.requests, token) {
                    let handle = *handle;
                    self.phase = Phase::Unpausing;
                    Action::UnpauseWrite { handle }
                } else {
                    self.poll_messages()
                }
            },
        }
    }

    /// Begins a transfer, for which a key is reserved.
    fn begin_request(&mut self, handle: EasyHandle) -> (action: Action)
        requires
            old(self).wf(),
            old(self)@.completions.len() == 0,
            !old(self)@.close_requested,
        ensures
            final(self).wf(),
            (final(self)@, action) == old(self)@.begin_request(handle),
    {
        let id = requests_vacant_key(&self.requests);
        self.phase = Phase::Initializing { handle, id };
        Action::InitHandler {
            handle,
            id,
            on_read: Message::UnpauseRead(id),
            on_write: Message::UnpauseWrite(id),
        }
    }

    /// Stores a transfer that has begun, under the key reserved for it.
    fn store_request(&mut self, handle: EasyHandle) -> (action: Action)
        requires
            old(self).wf(),
            old(self)@.phase is SettingToken,
            old(self)@.completions.len() == 0,
            !old(self)@.close_requested,
        ensures
            final(self).wf(),
            (final(self)@, action) == (AgentState {
                requests: old(self)@.requests.insert(handle),
                ..old(self)@
            }).notify_curl_of_timeout(),
    {
        proof {
            lemma_insert_wf(self@.requests, handle);
        }
        self.phase = Phase::Notifying;
        let _ = requests_insert(&mut self.requests, handle);
        // This will trigger curl to report its sockets very soon.
        self.notify_curl_of_timeout()
    }

    /// Has curl look at its transfers.
    fn notify_curl_of_timeout(&mut self) -> (action: Action)
        requires
            old(self).wf(),
            old(self)@.completions.len() == 0,
            !old(self)@.close_requested,
        ensures
            final(self).wf(),
            (final(self)@, action) == old(self)@.notify_curl_of_timeout(),
    {
        self.phase = Phase::Notifying;
        Action::NotifyTimeout
    }

    /// Collects messages from curl about transfers that have finished, whether
    /// successfully or with an error.
    fn dispatch(&mut self) -> (action: Action)
        requires
            old(self).wf(),
            old(self)@.completions.len() == 0,
            !old(self)@.close_requested,
        ensures
            final(self).wf(),
            (final(self)@, action) == old(self)@.dispatch(),
    {
        self.phase = Phase::Collecting;
        Action::CollectMessages
    }

    /// Completes the transfers that curl reports as finished.
    fn complete_requests(&mut self, messages: Vec<CurlMessage>) -> (action: Action)
        requires
            old(self).wf(),
            old(self)@.completions.len() == 0,
            !old(self)@.close_requested,
            old(self)@.accepts(Reply::<()>::CurlMessages(messages)),
        ensures
            final(self).wf(),
            (final(self)@, action) == old(self)@.complete_requests(messages@),
    {
        self.phase = Phase::Delivering;
        let ghost before = self@;
        let mut i: usize = 0;
        assert(messages@.take(0) =~= Seq::empty());
        while i < messages.len()
            invariant
                i <= messages.len(),
                self.multi_messages.wf(),
                self.completing is None,
                self@ == (AgentState {
                    completions: before.completions + finished(messages@.take(i as int)),
                    ..before
                }),
            decreases messages.len() - i,
        {
            assert(messages@.take(i + 1).drop_last() =~= messages@.take(i as int));
            let message = messages[i];
            if let Some(result) = message.result {
                if let Some(token) = message.token {
                    self.multi_messages.push((token, result));
                }
            }
            i = i + 1;
        }
        assert(messages@.take(i as int) =~= messages@);
        let ghost all = self@.completions;
        self.completing = self.multi_messages.pop();
        assert(self@.completions =~= all);
        self.complete_next()
    }

    /// Completes the next finished transfer, or turns to the sockets if none is
    /// left.
    fn complete_next(&mut self) -> (action: Action)
        requires
            old(self).wf(),
            old(self)@.phase is Delivering,
            old(self)@.can_complete_next(),
        ensures
            final(self).wf(),
            (final(self)@, action) == old(self)@.complete_next(),
    {
        let ghost before = self@;
        match self.completing {
            Some((token, result)) => {
                self.completing = self.multi_messages.pop();
                assert(self@.completions =~= before.completions.drop_first());
                self.complete_request(token, result)
            },
            None => self.poll_io(),
        }
    }

    /// Takes a finished transfer out of the active ones.
    fn complete_request(&mut self, token: usize, result: Result<(), u32>) -> (action: Action)
        requires
            old(self).wf(),
            old(self)@.phase is Delivering,
            old(self)@.requests.entries.contains_key(token),
        ensures
            final(self).wf(),
            ({
                let handle = old(self)@.requests.entries[token];
                &&& action == Action::RemoveHandle { handle }
                &&& final(self)@ == AgentState {
                    requests: old(self)@.requests.remove(token),
                    phase: Phase::Removing { handle, result },
                    ..old(self)@
                }
            }),
    {
        proof {
            lemma_remove_wf(self@.requests, token);
        }
        let handle = requests_remove(&mut self.requests, token);
        self.phase = Phase::Removing { handle, result };
        Action::RemoveHandle { handle }
    }

    /// Turns to the sockets, beginning with any requested socket updates.
    fn poll_io(&mut self) -> (action: Action)
        requires
            old(self).wf(),
            old(self)@.completions.len() == 0,
            !old(self)@.close_requested,
        ensures
            final(self).wf(),
            (final(self)@, action) == old(self)@.poll_io(),
    {
        self.phase = Phase::Updating;
        Action::NextSocketUpdate
    }

    /// Applies a socket update.
    fn update_socket(&mut self, socket: Socket, events: SocketEvents, key: usize) -> (action:
        Action)
        requires
            old(self).wf(),
            old(self)@.completions.len() == 0,
            !old(self)@.close_requested,
            old(self)@.phase is Updating,
            events.remove ==> old(self)@.watches(key),
        ensures
            final(self).wf(),
            (final(self)@, action) == old(self)@.update_socket(
                SocketUpdate { socket, events, key },
            ),
    {
        let ghost before = self@;
        let readable = events.readable();
        let writable = events.writable();
        if events.remove {
            // Curl is asking us to stop polling this socket. There is a good
            // chance that it has already closed the socket.
            proof {
                lemma_remove_wf(self@.sockets, (key - 1) as usize);
            }
            let _ = sockets_remove(&mut self.sockets, key - 1);
            self.phase = Phase::Deleting;
            Action::PollerDelete { socket }
        } else if key == 0 {
            // This is a new socket, at least from curl's perspective.
            let context = SocketContext { socket, readable, writable };
            let index = sockets_insert(&mut self.sockets, context);
            proof {
                lemma_insert_wf(before.sockets, context);
            }
            let event = Event { key: index + 1, readable, writable };
            self.phase = Phase::Assigning { socket, event };
            Action::AssignSocket { socket, key: index + 1 }
        } else {
            // This is a socket we have seen before and are already managing.
            match sockets_get_mut(&mut self.sockets, key - 1) {
                Some(context) => {
                    context.readable = readable;
                    context.writable = writable;
                    proof {
                        lemma_update_wf(
                            before.sockets,
                            (key - 1) as usize,
                            SocketContext {
                                socket: before.sockets.entries[(key - 1) as usize].socket,
                                readable,
                                writable,
                            },
                        );
                    }
                    self.poller_modify(
                        socket,
                        Event { key, readable, writable },
                        AfterRegistration::NextUpdate,
                    )
                },
                None => self.poll_io(),
            }
        }
    }

    /// Adds a socket to the poller.
    fn poller_add(&mut self, socket: Socket, event: Event, after: AfterRegistration) -> (action:
        Action)
        requires
            old(self).wf(),
            old(self)@.completions.len() == 0,
            !old(self)@.close_requested,
            old(self)@.records(event),
            after matches AfterRegistration::Rearm(next) ==> next <= old(
                self,
            )@.socket_events.len(),
        ensures
            final(self).wf(),
            (final(self)@, action) == old(self)@.register(socket, event, Attempt::Add, after),
    {
        self.phase = Phase::Registering { socket, event, attempt: Attempt::Add, after };
        Action::PollerAdd { socket, event }
    }

    /// Changes the poller's interest in a socket.
    fn poller_modify(&mut self, socket: Socket, event: Event, after: AfterRegistration) -> (action:
        Action)
        requires
            old(self).wf(),
            old(self)@.completions.len() == 0,
            !old(self)@.close_requested,
            old(self)@.records(event),
            after matches AfterRegistration::Rearm(next) ==> next <= old(
                self,
            )@.socket_events.len(),
        ensures
            final(self).wf(),
            (final(self)@, action) == old(self)@.register(socket, event, Attempt::Modify, after),
    {
        self.phase = Phase::Registering { socket, event, attempt: Attempt::Modify, after };
        Action::PollerModify { socket, event }
    }

    /// Finds the next event, from index `from` on, whose socket is watched.
    fn next_watched(&self, from: usize) -> (found: Option<(usize, Event, SocketContext)>)
        requires
            self.wf(),
            from <= self@.socket_events.len(),
        ensures
            match found {
                Some((i, event, context)) => {
                    &&& from <= i < self@.socket_events.len() <= usize::MAX
                    &&& i == self@.next_watched(from as int)
                    &&& event == self@.socket_events[i as int]
                    &&& self@.watches(event.key)
                    &&& context == self@.sockets.entries[(event.key - 1) as usize]
                },
                None => self@.next_watched(from as int) == self@.socket_events.len(),
            },
    {
        let mut i = from;
        while i < self.socket_events.len()
            invariant
                self.wf(),
                from <= i <= self@.socket_events.len(),
                self@.next_watched(from as int) == self@.next_watched(i as int),
            decreases self@.socket_events.len() - i,
        {
            let event = self.socket_events[i];
            assert(event == self@.socket_events[i as int]);
            if let Some(context) = sockets_get(&self.sockets, event.key - 1) {
                return Some((i, event, *context));
            }
            i = i + 1;
        }
        None
    }

    /// Since our I/O events are oneshot, makes sure we re-register sockets with
    /// the poller that previously were triggered last time we polled.
    fn rearm(&mut self, from: usize) -> (action: Action)
        requires
            old(self).wf(),
            old(self)@.completions.len() == 0,
            !old(self)@.close_requested,
            from <= old(self)@.socket_events.len(),
        ensures
            final(self).wf(),
            (final(self)@, action) == old(self)@.rearm(from as int),
    {
        match self.next_watched(from) {
            Some((i, event, context)) => self.poller_modify(
                context.socket,
                Event {
                    key: event.key,
                    readable: context.readable,
                    writable: context.writable,
                },
                AfterRegistration::Rearm(i + 1),
            ),
            None => {
                self.phase = Phase::DrainingTimeouts;
                Action::DrainTimeouts
            },
        }
    }

    /// Blocks until activity is detected or a timeout passes.
    fn wait(&mut self, timeouts: Vec<Option<u128>>) -> (action: Action)
        requires
            old(self).wf(),
            old(self)@.completions.len() == 0,
            !old(self)@.close_requested,
        ensures
            final(self).wf(),
            (final(self)@, action) == old(self)@.wait(timeouts@),
    {
        // The latest timeout value from curl, limited to a maximum we chose.
        let timeout = wait_timeout(&timeouts);
        // Clear all events from previous polling.
        self.socket_events = Vec::new();
        self.phase = Phase::Waiting;
        Action::Wait { timeout }
    }

    /// Tells curl of the end of the wait.
    fn react(&mut self, events: Vec<Event>) -> (action: Action)
        requires
            old(self).wf(),
            old(self)@.completions.len() == 0,
            !old(self)@.close_requested,
            old(self)@.phase is Waiting,
            events_keyed(events@),
        ensures
            final(self).wf(),
            (final(self)@, action) == old(self)@.react(events@),
    {
        self.socket_events = events;
        // If no events are returned, then the timeout was likely reached.
        if self.socket_events.len() == 0 {
            self.notify_curl_of_timeout()
        } else {
            self.perform(0)
        }
    }

    /// Tells curl of the sockets that are ready, from index `from` on.
    fn perform(&mut self, from: usize) -> (action: Action)
        requires
            old(self).wf(),
            old(self)@.completions.len() == 0,
            !old(self)@.close_requested,
            from <= old(self)@.socket_events.len(),
        ensures
            final(self).wf(),
            (final(self)@, action) == old(self)@.perform(from as int),
    {
        match self.next_watched(from) {
            Some((i, event, context)) => {
                self.phase = Phase::Performing { next: i + 1 };
                Action::SocketAction {
                    socket: context.socket,
                    readable: event.readable,
                    writable: event.writable,
                }
            },
            None => self.poll_messages(),
        }
    }

    /// Goes on after an action was done.
    fn resume(&mut self) -> (action: Action)
        requires
            old(self).wf(),
            old(self)@.accepts::<()>(Reply::Completed),
        ensures
            final(self).wf(),
            (final(self)@, action) == old(self)@.resume(),
    {
        match self.phase {
            Phase::Configuring { next } => self.configure(next),
            Phase::InstallingSocketFunction => {
                self.phase = Phase::InstallingTimerFunction;
                Action::InstallTimerFunction
            },
            Phase::InstallingTimerFunction => {
                self.phase = Phase::SignalingReady;
                Action::SignalReady
            },
            Phase::SignalingReady => self.poll_messages(),
            Phase::Initializing { handle, id } => {
                self.phase = Phase::Adding { handle, id };
                Action::AddHandle { handle }
            },
            Phase::Adding { handle, id } => {
                self.phase = Phase::SettingToken { handle, id };
                Action::SetToken { handle, token: id }
            },
            Phase::SettingToken { handle, .. } => self.store_request(handle),
            Phase::Unpausing => self.poll_messages(),
            Phase::Notifying => self.poll_messages(),
            Phase::Removing { handle, result } => {
                self.phase = Phase::Delivering;
                Action::DeliverResult { handle, result }
            },
            Phase::Delivering => self.complete_next(),
            Phase::Deleting => self.poll_io(),
            Phase::Assigning { socket, event } => self.poller_add(
                socket,
                event,
                AfterRegistration::NextUpdate,
            ),
            Phase::Registering { after, .. } => match after {
                AfterRegistration::NextUpdate => self.poll_io(),
                AfterRegistration::Rearm(next) => self.rearm(next),
            },
            Phase::Performing { next } => self.perform(next),
            _ => Action::Stop,
        }
    }

    /// Goes on after an action failed.
    fn fail<E>(&mut self, error: E) -> (result: Result<Action, E>)
        requires
            old(self).wf(),
            old(self)@.accepts(Reply::Failed(error)),
        ensures
            final(self).wf(),
            (final(self)@, result) == old(self)@.fail(error),
    {
        match self.phase {
            // The failure does not affect the normal state of the transfer,
            // which is kept alive until it fails through the normal means.
            Phase::Unpausing => Ok(self.resume()),
            Phase::Deleting => Ok(self.resume()),
            // This new socket might re-use a file descriptor that was
            // previously closed, but is still registered with the poller.
            Phase::Registering { socket, event, attempt: Attempt::Add, after } => {
                let attempt = Attempt::ModifyAfterAdd;
                self.phase = Phase::Registering { socket, event, attempt, after };
                Ok(Action::PollerModify { socket, event })
            },
            Phase::Registering { socket, event, attempt: Attempt::Modify, after } => {
                let attempt = Attempt::AddAfterModify;
                self.phase = Phase::Registering { socket, event, attempt, after };
                Ok(Action::PollerAdd { socket, event })
            },
            _ => {
                self.phase = Phase::Stopped;
                Err(error)
            },
        }
    }

    /// Whether the agent can go on from a reply.
    pub fn accepts<E>(&self, reply: &Reply<E>) -> (result: bool)
        requires
            self.wf(),
        ensures
            result == self@.accepts(*reply),
    {
        match reply {
            Reply::Completed => match self.phase {
                Phase::Receiving { .. } => false,
                Phase::Collecting => false,
                Phase::Updating => false,
                Phase::DrainingTimeouts => false,
                Phase::Waiting => false,
                Phase::Delivering => match self.completing {
                    Some((token, _)) => requests_get(&self.requests, token).is_some(),
                    None => true,
                },
                Phase::Stopped => false,
                _ => true,
            },
            Reply::Failed(_) => match self.phase {
                Phase::Configuring { next } => next > 0,
                Phase::InstallingSocketFunction => true,
                Phase::InstallingTimerFunction => true,
                Phase::Adding { .. } => true,
                Phase::SettingToken { .. } => true,
                Phase::Unpausing => true,
                Phase::Notifying => true,
                Phase::Removing { .. } => true,
                Phase::Deleting => true,
                Phase::Assigning { .. } => true,
                Phase::Registering { .. } => true,
                Phase::Waiting => true,
                Phase::Performing { .. } => true,
                _ => false,
            },
            Reply::Message(_) => matches!(self.phase, Phase::Receiving { .. }),
            Reply::NoMessage => matches!(self.phase, Phase::Receiving { blocking: false }),
            Reply::Disconnected => matches!(self.phase, Phase::Receiving { .. }),
            Reply::CurlMessages(messages) => matches!(self.phase, Phase::Collecting)
                && match first_finished(messages) {
                Some(token) => requests_get(&self.requests, token).is_some(),
                None => true,
            },
            Reply::SocketUpdate(update) => matches!(self.phase, Phase::Updating) && (
            !update.events.remove || (update.key > 0 && sockets_get(
                &self.sockets,
                update.key - 1,
            ).is_some())),
            Reply::NoSocketUpdate => matches!(self.phase, Phase::Updating),
            Reply::Timeouts(_) => matches!(self.phase, Phase::DrainingTimeouts),
            Reply::Events(events) => matches!(self.phase, Phase::Waiting) && all_keyed(events),
        }
    }

    /// Goes on after a reply: hands out the next action, or the error that the
    /// agent has stopped with.
    pub fn step<E>(&mut self, reply: Reply<E>) -> (result: Result<Action, E>)
        requires
            old(self).wf(),
            old(self)@.accepts(reply),
        ensures
            final(self).wf(),
            final(self)@.wf(),
            (final(self)@, result) == old(self)@.step(reply),
    {
        match reply {
            Reply::Completed => Ok(self.resume()),
            Reply::Failed(error) => self.fail(error),
            Reply::Message(message) => Ok(self.handle_message(message)),
            Reply::NoMessage => Ok(self.dispatch()),
            Reply::Disconnected => {
                self.phase = Phase::Stopped;
                self.close_requested = true;
                Ok(self.poll_messages())
            },
            Reply::CurlMessages(messages) => Ok(self.complete_requests(messages)),
            Reply::SocketUpdate(update) => Ok(
                self.update_socket(update.socket, update.events, update.key),
            ),
            Reply::NoSocketUpdate => Ok(self.rearm(0)),
            Reply::Timeouts(timeouts) => Ok(self.wait(timeouts)),
            Reply::Events(events) => Ok(self.react(events)),
        }
    }
}

/// The token of the first finished transfer that messages report, if they report
/// one.
fn first_finished(messages: &Vec<CurlMessage>) -> (token: Option<usize>)
    ensures
        token is Some <==> finished(messages@).len() > 0,
        token is Some ==> token->0 == finished(messages@)[0].0,
{
    let mut i: usize = 0;
    assert(messages@.take(0) =~= Seq::empty());
    while i < messages.len()
        invariant
            i <= messages.len(),
            finished(messages@.take(i as int)).len() == 0,
        decreases messages.len() - i,
    {
        assert(messages@.take(i + 1).drop_last() =~= messages@.take(i as int));
        let message = messages[i];
        if message.result.is_some() {
            if let Some(token) = message.token {
                proof {
                    lemma_finished_prefix(messages@, i + 1);
                    let part = finished(messages@.take(i + 1));
                    assert(part[0].0 == token);
                    assert(part[0] == finished(messages@)[0]);
                }
                return Some(token);
            }
        }
        i = i + 1;
    }
    assert(messages@.take(i as int) =~= messages@);
    None
}

/// Whether all events are about keys that were handed out.
fn all_keyed(events: &Vec<Event>) -> (result: bool)
    ensures
        result == events_keyed(events@),
{
    let mut i: usize = 0;
    while i < events.len()
        invariant
            i <= events.len(),
            forall|j: int| 0 <= j < i ==> (#[trigger] events@[j]).key > 0,
        decreases events.len() - i,
    {
        if events[i].key == 0 {
            assert(!events_keyed(events@));
            return false;
        }
        i = i + 1;
    }
    true
}

/// The finished transfers of the first messages come first among those of all
/// messages.
proof fn lemma_finished_prefix(messages: Seq<CurlMessage>, n: int)
    requires
        0 <= n <= messages.len(),
    ensures
        finished(messages.take(n)).is_prefix_of(finished(messages)),
    decreases messages.len(),
{
    if n == messages.len() {
        assert(messages.take(n) =~= messages);
    } else {
        lemma_finished_prefix(messages.drop_last(), n);
        assert(messages.drop_last().take(n) =~= messages.take(n));
    }
}

} // verus!
