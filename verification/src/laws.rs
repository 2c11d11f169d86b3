//! What holds of the agent as a whole, once its thread runs.
use crate::builder::MultiOption;
use crate::message::{
    finished, CurlMessage, Event, Message, SocketEvents, SocketUpdate, WAIT_TIMEOUT,
};
use crate::model::{is_watched, AgentState};
use crate::protocol::{Action, AfterRegistration, Attempt, Phase, Reply};
use crate::queue::{MultiMessage, TransferResult};
use crate::requests::EasyHandle;
use crate::slab_model::{
    lemma_insert_wf, lemma_next_key_is_free, lemma_remove_wf, lemma_update_wf, SlabModel,
};
use crate::sockets::{Socket, SocketContext};
use crate::step_laws::{
    law_reports_are_messages_with_result_and_token, law_what_steps_leave_alone,
};
use crate::task::{ResumeAction, ResumeReply, Resuming};
use vstd::prelude::*;

verus! {

/// The state of an agent after the next `n` of its actions were done without a
/// failure, and the actions that it hands out on the way.
pub open spec fn drive(s: AgentState, n: nat) -> (AgentState, Seq<Action>)
    decreases n,
{
    if n == 0 {
        (s, Seq::empty())
    } else {
        let (t, result) = s.step(Reply::<()>::Completed);
        let (u, actions) = drive(t, (n - 1) as nat);
        (u, seq![result->Ok_0] + actions)
    }
}

/// Whether an agent accepts that its next `n` actions were done without a failure.
pub open spec fn can_drive(s: AgentState, n: nat) -> bool
    decreases n,
{
    n == 0 || {
        let (t, result) = s.step(Reply::<()>::Completed);
        s.accepts(Reply::<()>::Completed) && result is Ok && can_drive(t, (n - 1) as nat)
    }
}

/// Whether the machine can hold one transfer and one socket more: their keys
/// have to fit.
pub open spec fn has_room(s: AgentState) -> bool {
    &&& s.requests.next_key() <= usize::MAX
    &&& s.sockets.next_key() < usize::MAX
    &&& s.options.len() <= usize::MAX
    &&& s.socket_events.len() <= usize::MAX
}

/// Every step keeps what holds of an agent: the keys of its slabs stay in order,
/// the identifier of a transfer that is being begun stays the one that it will
/// be stored under, and the interest that is being registered with the poller
/// is the one that is recorded.
pub proof fn law_step_keeps_invariant<E>(s: AgentState, reply: Reply<E>)
    requires
        s.wf(),
        has_room(s),
        s.accepts(reply),
    ensures
        s.step(reply).0.wf(),
{
    match reply {
        Reply::SocketUpdate(update) => {
            let index = (update.key - 1) as usize;
            let readable = update.events.spec_readable();
            let writable = update.events.spec_writable();
            if update.events.remove {
                lemma_remove_wf(s.sockets, index);
            } else if update.key == 0 {
                lemma_insert_wf(s.sockets, SocketContext { socket: update.socket, readable, writable });
            } else if s.watches(update.key) {
                lemma_update_wf(
                    s.sockets,
                    index,
                    SocketContext { socket: s.sockets.entries[index].socket, readable, writable },
                );
            }
        },
        Reply::CurlMessages(messages) => {
            assert(s.completions + finished(messages@) =~= finished(messages@));
            if finished(messages@).len() > 0 {
                lemma_remove_wf(s.requests, finished(messages@)[0].0);
            }
        },
        Reply::NoSocketUpdate => {
            lemma_next_watched(s, 0);
        },
        Reply::Events(events) => {
            lemma_next_watched(AgentState { socket_events: events@, ..s }, 0);
        },
        Reply::Completed => {
            match s.phase {
                Phase::SettingToken { handle, .. } => {
                    lemma_insert_wf(s.requests, handle);
                },
                Phase::Delivering => {
                    if s.completions.len() > 0 {
                        lemma_remove_wf(s.requests, s.completions[0].0);
                    }
                },
                Phase::Registering { after: AfterRegistration::Rearm(next), .. } => {
                    lemma_next_watched(s, next as int);
                },
                Phase::Performing { next } => {
                    lemma_next_watched(s, next as int);
                },
                _ => {},
            }
        },
        _ => {},
    }
}

/// The next watched event is where the search says.
proof fn lemma_next_watched(s: AgentState, from: int)
    requires
        0 <= from <= s.socket_events.len(),
    ensures
        from <= s.next_watched(from) <= s.socket_events.len(),
        s.next_watched(from) < s.socket_events.len() ==> s.watches(
            s.socket_events[s.next_watched(from)].key,
        ),
    decreases s.socket_events.len() - from,
{
    if from < s.socket_events.len() && !s.watches(s.socket_events[from].key) {
        lemma_next_watched(s, from + 1);
    }
}

/// Which event is the next watched one does not depend on the phase.
proof fn lemma_next_watched_at(s: AgentState, phase: Phase, from: int)
    requires
        0 <= from,
    ensures
        s.at(phase).next_watched(from) == s.next_watched(from),
    decreases s.socket_events.len() - from,
{
    if from < s.socket_events.len() {
        lemma_next_watched_at(s, phase, from + 1);
    }
}

/// An agent waits for a message only while it has no transfer, and looks for one
/// without waiting only while it has a transfer; it does neither once it was
/// asked to close.
pub proof fn law_blocks_only_when_idle<E>(s: AgentState, reply: Reply<E>)
    requires
        s.accepts(reply),
    ensures
        s.step(reply).1 == Ok::<Action, E>(Action::Receive) ==> s.step(
            reply,
        ).0.requests.is_empty() && !s.step(reply).0.close_requested,
        s.step(reply).1 == Ok::<Action, E>(Action::TryReceive) ==> !s.step(
            reply,
        ).0.requests.is_empty() && !s.step(reply).0.close_requested,
{
}

/// An agent that is asked to close, or whose handles are all gone, stops at once
/// without an error, and drops all of its transfers.
pub proof fn law_close_stops<E>(s: AgentState)
    ensures
        s.step(Reply::<E>::Message(Message::Close)) == s.step(Reply::<E>::Disconnected),
        s.step(Reply::<E>::Disconnected).1 == Ok::<Action, E>(Action::Stop),
        s.step(Reply::<E>::Disconnected).0.phase is Stopped,
        s.step(Reply::<E>::Disconnected).0.requests.is_empty(),
{
}

/// An agent stops, without an error, only when it was asked to close or its
/// handles are gone.
pub proof fn law_stops_only_on_close<E>(s: AgentState, reply: Reply<E>)
    requires
        s.wf(),
        s.accepts(reply),
        s.step(reply).1 == Ok::<Action, E>(Action::Stop),
    ensures
        reply is Disconnected || reply == Reply::<E>::Message(Message::Close),
{
}

/// An agent becomes one that was asked to close by a message that asks for it, or
/// by the loss of its handles, and in no other way; and it stays one. Of what it
/// keeps, a message that asks it to close changes only the transfers.
pub proof fn law_how_close_is_requested<E>(s: AgentState, reply: Reply<E>)
    requires
        s.accepts(reply),
    ensures
        s.step(reply).0.close_requested <==> s.close_requested || reply is Disconnected || reply
            == Reply::<E>::Message(Message::Close),
        reply == Reply::<E>::Message(Message::Close) ==> s.step(reply).0 == (AgentState {
            close_requested: true,
            requests: SlabModel::empty(),
            phase: Phase::Stopped,
            ..s
        }),
{
}

/// An agent that has stopped does nothing any more.
pub proof fn law_stopped_is_final<E>(s: AgentState, reply: Reply<E>)
    requires
        s.phase is Stopped,
    ensures
        !s.accepts(reply),
{
}

/// An agent stops with an error only if an action has failed, and then with the
/// error that this action has failed with. It has stopped exactly when it hands
/// out an error or says so.
pub proof fn law_error_is_passed_on<E>(s: AgentState, reply: Reply<E>)
    requires
        s.accepts(reply),
    ensures
        s.step(reply).1 is Err ==> reply == Reply::Failed(s.step(reply).1->Err_0),
        s.step(reply).0.phase is Stopped <==> s.step(reply).1 is Err || s.step(reply).1
            == Ok::<Action, E>(Action::Stop),
{
}

/// The failure of any action but three stops the agent with that failure: those
/// to resume a transfer, to have the poller forget a socket, and to register a
/// socket with the poller for the first time.
pub proof fn law_failure_stops<E>(s: AgentState, error: E)
    requires
        s.accepts(Reply::Failed(error)),
        !(s.phase is Unpausing),
        !(s.phase is Deleting),
        s.phase matches Phase::Registering { attempt, .. } ==> attempt is AddAfterModify
            || attempt is ModifyAfterAdd,
    ensures
        s.step(Reply::Failed(error)) == (s.at(Phase::Stopped), Err::<Action, E>(error)),
{
}

/// It makes no difference whether a transfer could be resumed, or whether the
/// poller could forget a socket.
pub proof fn law_tolerated_failures<E>(s: AgentState, error: E)
    requires
        s.phase is Unpausing || s.phase is Deleting,
    ensures
        s.step(Reply::Failed(error)) == s.step(Reply::<E>::Completed),
{
}

/// A socket that cannot be added to the poller is modified with the same
/// interest, and the other way round. It makes no difference which of the two
/// calls succeeds. If both fail, the agent stops with the second failure.
pub proof fn law_registration_is_retried<E>(
    s: AgentState,
    socket: Socket,
    event: Event,
    attempt: Attempt,
    after: AfterRegistration,
    first: E,
    second: E,
)
    requires
        s.phase == (Phase::Registering { socket, event, attempt, after }),
        attempt is Add || attempt is Modify,
    ensures
        s.step(Reply::Failed(first)).1 == Ok::<Action, E>(
            if attempt is Add {
                Action::PollerModify { socket, event }
            } else {
                Action::PollerAdd { socket, event }
            },
        ),
        s.step(Reply::Failed(first)).0.step(Reply::<E>::Completed) == s.step(Reply::<E>::Completed),
        s.step(Reply::Failed(first)).0.step(Reply::Failed(second)) == (
            s.at(Phase::Stopped),
            Err::<Action, E>(second),
        ),
{
    if let AfterRegistration::Rearm(next) = after {
        lemma_next_watched_at(s, s.step(Reply::Failed(first)).0.phase, next as int);
    }
}

/// An agent waits for activity for the lesser of its maximum and the time that
/// curl asked for last; for its maximum where curl asked for none.
pub proof fn law_wait_is_bounded<E>(s: AgentState, reply: Reply<E>, timeout: u64)
    requires
        s.accepts(reply),
        s.step(reply).1 == Ok::<Action, E>(Action::Wait { timeout }),
    ensures
        timeout <= WAIT_TIMEOUT,
        reply is Timeouts,
        reply->Timeouts_0@.len() == 0 || reply->Timeouts_0@.last() is None ==> timeout
            == WAIT_TIMEOUT,
        reply->Timeouts_0@.len() > 0 && reply->Timeouts_0@.last() is Some ==> {
            let latest = reply->Timeouts_0@.last()->0;
            &&& timeout <= latest
            &&& timeout == latest || timeout == WAIT_TIMEOUT
        },
{
}

/// The active transfers change in three ways only: one whose token was set is
/// added under its identifier, one that has finished is removed, and all are
/// dropped when the agent stops without an error.
pub proof fn law_how_transfers_change<E>(s: AgentState, reply: Reply<E>)
    requires
        s.wf(),
        s.accepts(reply),
    ensures
        ({
            let (t, result) = s.step(reply);
            ||| t.requests == s.requests
            ||| s.phase is SettingToken && t.requests == s.requests.insert(
                s.phase->SettingToken_handle,
            )
            ||| t.phase is Removing && exists|token: usize|
                {
                    &&& t.requests == #[trigger] s.requests.remove(token)
                    &&& s.requests.entries.contains_key(token)
                    &&& s.requests.entries[token] == t.phase->Removing_handle
                }
            ||| result == Ok::<Action, E>(Action::Stop) && t.requests.is_empty()
        }),
{
    if reply is CurlMessages {
        let completions = s.completions + finished(reply->CurlMessages_0@);
        assert(completions =~= finished(reply->CurlMessages_0@));
        assert(completions.len() > 0 ==> s.step(reply).0.requests == s.requests.remove(
            completions[0].0,
        ));
    } else if reply is Completed && s.phase is Delivering {
        assert(s.completions.len() > 0 ==> s.step(reply).0.requests == s.requests.remove(
            s.completions[0].0,
        ));
    }
}

/// The watched sockets change only when curl asks for it, and then only the one
/// that curl names.
pub proof fn law_how_sockets_change<E>(s: AgentState, reply: Reply<E>, key: usize)
    requires
        s.wf(),
        has_room(s),
        s.accepts(reply),
    ensures
        !(reply is SocketUpdate) ==> s.step(reply).0.sockets == s.sockets,
        reply matches Reply::SocketUpdate(update) ==> key != update.key && s.watches(key)
            ==> s.step(reply).0.watches(key) && s.step(reply).0.sockets.entries[(key - 1) as usize]
            == s.sockets.entries[(key - 1) as usize],
{
    if s.sockets.next_key() >= 0 {
        lemma_next_key_is_free(s.sockets, s.sockets.next_key() as usize);
    }
}

/// A transfer that is begun without a failure becomes active under an identifier
/// that no active transfer has. Its handler learns the identifier and the
/// messages that carry it, curl gets it as the token, and curl is then made to
/// look at its transfers.
pub proof fn law_begin_makes_active<E>(s: AgentState, handle: EasyHandle)
    requires
        s.wf(),
        has_room(s),
        s.phase is Receiving,
    ensures
        ({
            let id = s.requests.next_key() as usize;
            let (t, first) = s.step(Reply::<E>::Message(Message::Execute(handle)));
            let (u, actions) = drive(t, 4);
            &&& can_drive(t, 4)
            &&& !s.requests.entries.contains_key(id)
            &&& first == Ok::<Action, E>(
                Action::InitHandler {
                    handle,
                    id,
                    on_read: Message::UnpauseRead(id),
                    on_write: Message::UnpauseWrite(id),
                },
            )
            &&& actions == seq![
                Action::AddHandle { handle },
                Action::SetToken { handle, token: id },
                Action::NotifyTimeout,
                Action::TryReceive,
            ]
            &&& u.requests.entries == s.requests.entries.insert(id, handle)
            &&& u == AgentState {
                requests: s.requests.insert(handle),
                phase: Phase::Receiving { blocking: false },
                ..s
            }
        }),
{
    let id = s.requests.next_key() as usize;
    lemma_next_key_is_free(s.requests, id);
    lemma_insert_wf(s.requests, handle);
    reveal_with_fuel(drive, 5);
    reveal_with_fuel(can_drive, 5);
    let (t, _) = s.step(Reply::<E>::Message(Message::Execute(handle)));
    let after = s.requests.insert(handle);
    assert(after.entries.contains_key(id));
    assert(!after.is_empty());
    assert(drive(t, 4).1 =~= seq![
        Action::AddHandle { handle },
        Action::SetToken { handle, token: id },
        Action::NotifyTimeout,
        Action::TryReceive,
    ]);
}

/// The messages that a transfer's handler was given resume this transfer as long
/// as it is active.
pub proof fn law_resume_reaches_transfer<E>(s: AgentState, handle: EasyHandle, id: usize)
    requires
        s.requests.entries.contains_key(id),
        s.requests.entries[id] == handle,
    ensures
        s.step(Reply::<E>::Message(Message::UnpauseRead(id))) == (
            s.at(Phase::Unpausing),
            Ok::<Action, E>(Action::UnpauseRead { handle }),
        ),
        s.step(Reply::<E>::Message(Message::UnpauseWrite(id))) == (
            s.at(Phase::Unpausing),
            Ok::<Action, E>(Action::UnpauseWrite { handle }),
        ),
{
}

/// A request to resume a transfer that is not active changes nothing: the agent
/// turns to the next message.
pub proof fn law_unknown_transfer_is_passed_over<E>(s: AgentState, id: usize)
    requires
        s.wf(),
        s.phase is Receiving,
        !s.requests.entries.contains_key(id),
    ensures
        s.step(Reply::<E>::Message(Message::UnpauseRead(id))) == s.step(
            Reply::<E>::Message(Message::UnpauseWrite(id)),
        ),
        s.step(Reply::<E>::Message(Message::UnpauseRead(id))).0 == s.at(
            Phase::Receiving { blocking: s.requests.is_empty() },
        ),
        s.step(Reply::<E>::Message(Message::UnpauseRead(id))).1 == Ok::<Action, E>(
            if s.requests.is_empty() {
                Action::Receive
            } else {
                Action::TryReceive
            },
        ),
{
}

/// A key that becomes vacant is the next to be handed out, and what is stored
/// and removed again leaves no trace but that.
pub proof fn law_vacated_key_is_reused<V>(s: SlabModel<V>, value: V)
    requires
        s.wf(),
        s.next_key() <= usize::MAX,
    ensures
        s.insert(value).entries[s.next_key() as usize] == value,
        s.insert(value).remove(s.next_key() as usize).entries == s.entries,
        s.insert(value).remove(s.next_key() as usize).next_key() == s.next_key(),
{
    let key = s.next_key() as usize;
    lemma_next_key_is_free(s, key);
    lemma_insert_wf(s, value);
    lemma_remove_wf(s.insert(value), key);
    assert(s.insert(value).remove(key).entries =~= s.entries);
}

/// A new socket gets a key other than 0, under which it is recorded, assigned
/// and added to the poller: readable where curl asks for input or for both
/// directions, writable where it asks for output or for both directions. Nothing
/// else changes that the agent keeps.
pub proof fn law_new_socket_is_watched<E>(s: AgentState, update: SocketUpdate)
    requires
        s.wf(),
        has_room(s),
        s.phase is Updating,
        update.key == 0,
        !update.events.remove,
    ensures
        ({
            let key = (s.sockets.next_key() + 1) as usize;
            let readable = update.events.input || update.events.input_and_output;
            let writable = update.events.output || update.events.input_and_output;
            let (t, first) = s.step(Reply::<E>::SocketUpdate(update));
            let (u, actions) = drive(t, 2);
            &&& can_drive(t, 2)
            &&& key > 0
            &&& !s.watches(key)
            &&& first == Ok::<Action, E>(Action::AssignSocket { socket: update.socket, key })
            &&& actions == seq![
                Action::PollerAdd {
                    socket: update.socket,
                    event: Event { key, readable, writable },
                },
                Action::NextSocketUpdate,
            ]
            &&& u.phase is Updating
            &&& u.watches(key)
            &&& u.sockets.entries == s.sockets.entries.insert(
                (key - 1) as usize,
                SocketContext { socket: update.socket, readable, writable },
            )
            &&& u == AgentState { sockets: u.sockets, ..s }
        }),
{
    lemma_next_key_is_free(s.sockets, s.sockets.next_key() as usize);
    reveal_with_fuel(drive, 3);
    reveal_with_fuel(can_drive, 3);
    let (t, _) = s.step(Reply::<E>::SocketUpdate(update));
    let key = (s.sockets.next_key() + 1) as usize;
    assert(drive(t, 2).1 =~= seq![
        Action::PollerAdd {
            socket: update.socket,
            event: Event {
                key,
                readable: update.events.spec_readable(),
                writable: update.events.spec_writable(),
            },
        },
        Action::NextSocketUpdate,
    ]);
}

/// A socket that curl no longer wants to be watched is forgotten, by the agent
/// and by the poller. Nothing else changes that the agent keeps, and the agent
/// turns to the next update.
pub proof fn law_removed_socket_is_forgotten<E>(s: AgentState, update: SocketUpdate)
    requires
        s.accepts(Reply::<E>::SocketUpdate(update)),
        update.events.remove,
    ensures
        !s.step(Reply::<E>::SocketUpdate(update)).0.watches(update.key),
        s.step(Reply::<E>::SocketUpdate(update)).1 == Ok::<Action, E>(
            Action::PollerDelete { socket: update.socket },
        ),
        ({
            let t = s.step(Reply::<E>::SocketUpdate(update)).0;
            let (u, next) = t.step(Reply::<E>::Completed);
            &&& t.sockets.entries == s.sockets.entries.remove((update.key - 1) as usize)
            &&& u == AgentState { sockets: t.sockets, ..s }
            &&& next == Ok::<Action, E>(Action::NextSocketUpdate)
        }),
{
}

/// A change of interest in a watched socket is recorded, and handed to the
/// poller under the same key: readable where curl asks for input or for both
/// directions, writable where it asks for output or for both directions. Nothing
/// else changes that the agent keeps, and the agent turns to the next update.
pub proof fn law_changed_interest_is_recorded<E>(s: AgentState, update: SocketUpdate)
    requires
        s.phase is Updating,
        s.watches(update.key),
        !update.events.remove,
    ensures
        ({
            let event = Event {
                key: update.key,
                readable: update.events.input || update.events.input_and_output,
                writable: update.events.output || update.events.input_and_output,
            };
            let index = (update.key - 1) as usize;
            let (t, result) = s.step(Reply::<E>::SocketUpdate(update));
            let (u, next) = t.step(Reply::<E>::Completed);
            &&& t.records(event)
            &&& t.sockets.entries == s.sockets.entries.insert(
                index,
                SocketContext {
                    socket: s.sockets.entries[index].socket,
                    readable: event.readable,
                    writable: event.writable,
                },
            )
            &&& result == Ok::<Action, E>(Action::PollerModify { socket: update.socket, event })
            &&& u == AgentState { sockets: t.sockets, ..s }
            &&& next == Ok::<Action, E>(Action::NextSocketUpdate)
        }),
{
}

/// A change of interest in a socket that is not watched changes nothing: the
/// agent turns to the next update.
pub proof fn law_unknown_socket_is_passed_over<E>(s: AgentState, update: SocketUpdate)
    requires
        s.phase is Updating,
        update.key > 0,
        !s.watches(update.key),
        !update.events.remove,
    ensures
        s.step(Reply::<E>::SocketUpdate(update)) == (
            s,
            Ok::<Action, E>(Action::NextSocketUpdate),
        ),
{
}

/// The events, in order, whose sockets are watched.
pub open spec fn watched_events(
    sockets: SlabModel<SocketContext>,
    events: Seq<Event>,
) -> Seq<Event> {
    events.filter(
        |event: Event| event.key > 0 && sockets.entries.contains_key((event.key - 1) as usize),
    )
}

/// The action that registers the socket of an event with the poller again, with
/// the interest that is recorded for it.
pub open spec fn modification(sockets: SlabModel<SocketContext>, event: Event) -> Action {
    let context = sockets.entries[(event.key - 1) as usize];
    Action::PollerModify {
        socket: context.socket,
        event: Event {
            key: event.key,
            readable: context.readable,
            writable: context.writable,
        },
    }
}

/// The action that tells curl of an event.
pub open spec fn notification(sockets: SlabModel<SocketContext>, event: Event) -> Action {
    Action::SocketAction {
        socket: sockets.entries[(event.key - 1) as usize].socket,
        readable: event.readable,
        writable: event.writable,
    }
}

/// The watched events from an index on: the one at the index, if it is watched,
/// and those after it.
proof fn lemma_watched_events_step(
    sockets: SlabModel<SocketContext>,
    events: Seq<Event>,
    from: int,
)
    requires
        0 <= from < events.len(),
    ensures
        is_watched(sockets, events[from].key) ==> watched_events(sockets, events.skip(from))
            == seq![events[from]] + watched_events(sockets, events.skip(from + 1)),
        !is_watched(sockets, events[from].key) ==> watched_events(sockets, events.skip(from))
            == watched_events(sockets, events.skip(from + 1)),
{
    let watched = |event: Event|
        event.key > 0 && sockets.entries.contains_key((event.key - 1) as usize);
    let first = seq![events[from]];
    assert(events.skip(from) =~= first + events.skip(from + 1));
    Seq::filter_distributes_over_add(first, events.skip(from + 1), watched);
    assert(first.drop_last() =~= Seq::empty());
    reveal(Seq::filter);
    assert(first.drop_last().filter(watched) =~= Seq::empty());
    if watched(events[from]) {
        assert(first.filter(watched) =~= first);
    } else {
        assert(first.filter(watched) =~= Seq::empty());
        assert(Seq::empty() + events.skip(from + 1).filter(watched) =~= events.skip(
            from + 1,
        ).filter(watched));
    }
}

/// The re-registration of the ready sockets from an index on.
proof fn lemma_rearm(s: AgentState, from: int)
    requires
        0 <= from <= s.socket_events.len() <= usize::MAX,
    ensures
        ({
            let again = watched_events(s.sockets, s.socket_events.skip(from));
            let (t, first) = s.rearm(from);
            let (u, actions) = drive(t, again.len());
            &&& can_drive(t, again.len())
            &&& seq![first] + actions == again.map_values(
                |event: Event| modification(s.sockets, event),
            ).push(Action::DrainTimeouts)
            &&& u == s.at(Phase::DrainingTimeouts)
        }),
    decreases s.socket_events.len() - from,
{
    let again = watched_events(s.sockets, s.socket_events.skip(from));
    let modify = |event: Event| modification(s.sockets, event);
    let (t, first) = s.rearm(from);
    if from == s.socket_events.len() {
        assert(s.socket_events.skip(from) =~= Seq::empty());
        reveal(Seq::filter);
        assert(again =~= Seq::empty());
        assert(seq![first] + drive(t, 0).1 =~= again.map_values(modify).push(
            Action::DrainTimeouts,
        ));
    } else {
        lemma_watched_events_step(s.sockets, s.socket_events, from);
        let rest = watched_events(s.sockets, s.socket_events.skip(from + 1));
        if s.watches(s.socket_events[from].key) {
            lemma_rearm(t, from + 1);
            assert(again.len() == rest.len() + 1);
            let (t2, second) = t.resume();
            let (u, actions) = drive(t2, rest.len());
            assert(drive(t, again.len()) == (u, seq![second] + actions));
            assert(seq![first] + drive(t, again.len()).1 =~= again.map_values(modify).push(
                Action::DrainTimeouts,
            ));
        } else {
            lemma_rearm(s, from + 1);
        }
    }
}

/// Once curl asks for no further socket update, each socket that was ready at
/// the end of the last wait and is still watched is registered with the poller
/// again, in order and with the interest that is recorded for it; nothing else
/// happens until the next wait is prepared.
pub proof fn law_ready_sockets_are_rearmed<E>(s: AgentState)
    requires
        s.accepts(Reply::<E>::NoSocketUpdate),
        has_room(s),
    ensures
        ({
            let again = s.socket_events.filter(
                |event: Event|
                    event.key > 0 && s.sockets.entries.contains_key((event.key - 1) as usize),
            );
            let (t, first) = s.step(Reply::<E>::NoSocketUpdate);
            let (u, actions) = drive(t, again.len());
            &&& can_drive(t, again.len())
            &&& first is Ok
            &&& seq![first->Ok_0] + actions == again.map_values(
                |event: Event|
                    Action::PollerModify {
                        socket: s.sockets.entries[(event.key - 1) as usize].socket,
                        event: Event {
                            key: event.key,
                            readable: s.sockets.entries[(event.key - 1) as usize].readable,
                            writable: s.sockets.entries[(event.key - 1) as usize].writable,
                        },
                    },
            ).push(Action::DrainTimeouts)
            &&& u == AgentState { phase: Phase::DrainingTimeouts, ..s }
        }),
{
    lemma_rearm(s, 0);
    assert(s.socket_events.skip(0) =~= s.socket_events);
    let again = watched_events(s.sockets, s.socket_events);
    let modify = |event: Event|
        Action::PollerModify {
            socket: s.sockets.entries[(event.key - 1) as usize].socket,
            event: Event {
                key: event.key,
                readable: s.sockets.entries[(event.key - 1) as usize].readable,
                writable: s.sockets.entries[(event.key - 1) as usize].writable,
            },
        };
    assert(again.map_values(|event: Event| modification(s.sockets, event))
        =~= again.map_values(modify));
}

/// The notification of curl about the ready sockets from an index on.
proof fn lemma_perform(s: AgentState, from: int)
    requires
        0 <= from <= s.socket_events.len() <= usize::MAX,
    ensures
        ({
            let ready = watched_events(s.sockets, s.socket_events.skip(from));
            let (t, first) = s.perform(from);
            let (u, actions) = drive(t, ready.len());
            &&& can_drive(t, ready.len())
            &&& seq![first] + actions == ready.map_values(
                |event: Event| notification(s.sockets, event),
            ).push(s.poll_messages().1)
            &&& u == s.poll_messages().0
        }),
    decreases s.socket_events.len() - from,
{
    let ready = watched_events(s.sockets, s.socket_events.skip(from));
    let notify = |event: Event| notification(s.sockets, event);
    let (t, first) = s.perform(from);
    if from == s.socket_events.len() {
        assert(s.socket_events.skip(from) =~= Seq::empty());
        reveal(Seq::filter);
        assert(ready =~= Seq::empty());
        assert(seq![first] + drive(t, 0).1 =~= ready.map_values(notify).push(
            s.poll_messages().1,
        ));
    } else {
        lemma_watched_events_step(s.sockets, s.socket_events, from);
        let rest = watched_events(s.sockets, s.socket_events.skip(from + 1));
        if s.watches(s.socket_events[from].key) {
            lemma_perform(t, from + 1);
            assert(ready.len() == rest.len() + 1);
            let (t2, second) = t.resume();
            let (u, actions) = drive(t2, rest.len());
            assert(drive(t, ready.len()) == (u, seq![second] + actions));
            assert(seq![first] + drive(t, ready.len()).1 =~= ready.map_values(notify).push(
                s.poll_messages().1,
            ));
        } else {
            lemma_perform(s, from + 1);
        }
    }
}

/// After a wait that has found sockets ready, curl is told of each of them that
/// is watched, in order; then the agent turns to its messages again.
pub proof fn law_curl_learns_of_ready_sockets<E>(s: AgentState, events: Vec<Event>)
    requires
        s.accepts(Reply::<E>::Events(events)),
        0 < events@.len() <= usize::MAX,
    ensures
        ({
            let ready = events@.filter(
                |event: Event|
                    event.key > 0 && s.sockets.entries.contains_key((event.key - 1) as usize),
            );
            let idle = s.requests.entries == Map::<usize, EasyHandle>::empty();
            let (t, first) = s.step(Reply::<E>::Events(events));
            let (u, actions) = drive(t, ready.len());
            &&& can_drive(t, ready.len())
            &&& first is Ok
            &&& seq![first->Ok_0] + actions == ready.map_values(
                |event: Event|
                    Action::SocketAction {
                        socket: s.sockets.entries[(event.key - 1) as usize].socket,
                        readable: event.readable,
                        writable: event.writable,
                    },
            ).push(
                if s.close_requested {
                    Action::Stop
                } else if idle {
                    Action::Receive
                } else {
                    Action::TryReceive
                },
            )
            &&& s.close_requested ==> u == AgentState {
                socket_events: events@,
                requests: SlabModel::empty(),
                phase: Phase::Stopped,
                ..s
            }
            &&& !s.close_requested ==> u == AgentState {
                socket_events: events@,
                phase: Phase::Receiving { blocking: idle },
                ..s
            }
        }),
{
    lemma_perform(AgentState { socket_events: events@, ..s }, 0);
    assert(events@.skip(0) =~= events@);
    let ready = watched_events(s.sockets, events@);
    let notify = |event: Event|
        Action::SocketAction {
            socket: s.sockets.entries[(event.key - 1) as usize].socket,
            readable: event.readable,
            writable: event.writable,
        };
    assert(ready.map_values(|event: Event| notification(s.sockets, event))
        =~= ready.map_values(notify));
}

/// Whether each of the finished transfers is active and listed once.
pub open spec fn completable(
    requests: SlabModel<EasyHandle>,
    completions: Seq<MultiMessage>,
) -> bool {
    &&& forall|i: int|
        0 <= i < completions.len() ==> requests.entries.contains_key(
            (#[trigger] completions[i]).0,
        )
    &&& forall|i: int, j: int|
        0 <= i < j < completions.len() ==> (#[trigger] completions[i]).0 != (
        #[trigger] completions[j]).0
}

/// The actions that complete finished transfers, two for each: to take it out of
/// the multi handle, and to tell its handler how it ended.
pub open spec fn completion_actions(
    requests: SlabModel<EasyHandle>,
    completions: Seq<MultiMessage>,
) -> Seq<Action> {
    Seq::new(
        2 * completions.len(),
        |i: int|
            {
                let handle = requests.entries[completions[i / 2].0];
                if i % 2 == 0 {
                    Action::RemoveHandle { handle }
                } else {
                    Action::DeliverResult { handle, result: completions[i / 2].1 }
                }
            },
    )
}

/// The tokens of finished transfers, in order.
pub open spec fn tokens(completions: Seq<MultiMessage>) -> Seq<usize> {
    completions.map_values(|message: MultiMessage| message.0)
}

/// The active transfers without those that have finished.
pub open spec fn without(
    requests: SlabModel<EasyHandle>,
    completions: Seq<MultiMessage>,
) -> SlabModel<EasyHandle> {
    SlabModel {
        entries: requests.entries.remove_keys(tokens(completions).to_set()),
        vacant: requests.vacant + tokens(completions),
    }
}

/// The completion of all finished transfers that are left.
proof fn lemma_complete_all(s: AgentState)
    requires
        completable(s.requests, s.completions),
    ensures
        ({
            let (t, first) = s.complete_next();
            let (u, actions) = drive(t, 2 * s.completions.len());
            &&& can_drive(t, 2 * s.completions.len())
            &&& seq![first] + actions == completion_actions(s.requests, s.completions).push(
                Action::NextSocketUpdate,
            )
            &&& u == AgentState {
                requests: without(s.requests, s.completions),
                completions: Seq::empty(),
                phase: Phase::Updating,
                ..s
            }
        }),
    decreases s.completions.len(),
{
    let (t, first) = s.complete_next();
    let expected = completion_actions(s.requests, s.completions).push(Action::NextSocketUpdate);
    if s.completions.len() == 0 {
        assert(seq![first] + drive(t, 0).1 =~= expected);
        assert(s.completions =~= Seq::empty());
        assert(without(s.requests, s.completions) =~= s.requests);
    } else {
        let (token, result) = s.completions[0];
        let rest = s.completions.drop_first();
        let (t2, second) = t.resume();
        assert(forall|i: int| 0 <= i < rest.len() ==> rest[i] == s.completions[i + 1]);
        lemma_complete_all(t2);
        let (t3, third) = t2.resume();
        let n = 2 * rest.len();
        let (u, actions) = drive(t3, n);
        assert(drive(t2, n + 1) == (u, seq![third] + actions));
        assert(drive(t, n + 2) == (u, seq![second] + (seq![third] + actions)));
        assert(n + 2 == 2 * s.completions.len());
        assert(t2.can_complete_next()) by {
            assert(rest.len() > 0 ==> s.completions[1] == rest[0] && s.completions[0].0
                != s.completions[1].0);
        }
        assert(can_drive(t2, n + 1));
        assert(can_drive(t, n + 2));
        let got = seq![first] + drive(t, n + 2).1;
        let later = completion_actions(t2.requests, rest).push(Action::NextSocketUpdate);
        assert(seq![third] + actions == later);
        assert(got =~= expected) by {
            assert(got.len() == expected.len());
            assert forall|i: int| 0 <= i < got.len() implies got[i] == expected[i] by {
                if i >= 2 && i < got.len() - 1 {
                    assert(got[i] == later[i - 2]);
                    assert((i - 2) / 2 == i / 2 - 1 && (i - 2) % 2 == i % 2);
                    assert(rest[i / 2 - 1] == s.completions[i / 2]);
                    assert(s.completions[i / 2].0 != token);
                }
            }
        }
        assert(tokens(s.completions) =~= seq![token] + tokens(rest));
        let left = without(t2.requests, rest);
        let expected_left = without(s.requests, s.completions);
        assert(left.vacant =~= expected_left.vacant);
        assert(left.entries =~= expected_left.entries) by {
            assert forall|k: usize| #[trigger]
                tokens(s.completions).contains(k) <==> k == token || tokens(rest).contains(k) by {
                if tokens(rest).contains(k) {
                    let i = tokens(rest).index_of(k);
                    assert(tokens(s.completions)[i + 1] == k);
                }
                if tokens(s.completions).contains(k) {
                    let i = tokens(s.completions).index_of(k);
                    if i > 0 {
                        assert(tokens(rest)[i - 1] == k);
                    }
                }
                assert(tokens(s.completions)[0] == token);
            }
            assert forall|k: usize| #[trigger]
                left.entries.contains_key(k) <==> expected_left.entries.contains_key(k) by {
                assert(tokens(s.completions).contains(k) <==> k == token || tokens(rest).contains(
                    k,
                ));
            }
        }
    }
}

/// The transfers that curl reports as finished are completed in the order of the
/// reports: each is taken out of the multi handle, and then its handler is told
/// how it ended. After that they are no longer active, all others are, and the
/// agent turns to its sockets. Messages that report no end of a transfer, or no
/// token, are passed over.
pub proof fn law_finished_transfers_are_completed<E>(s: AgentState, messages: Vec<CurlMessage>)
    requires
        s.phase is Collecting,
        s.completions.len() == 0,
        completable(
            s.requests,
            messages@.filter(
                |message: CurlMessage| message.result is Some && message.token is Some,
            ).map_values(|message: CurlMessage| (message.token->0, message.result->0)),
        ),
    ensures
        s.accepts(Reply::<E>::CurlMessages(messages)),
        ({
            let completions = messages@.filter(
                |message: CurlMessage| message.result is Some && message.token is Some,
            ).map_values(|message: CurlMessage| (message.token->0, message.result->0));
            let (t, first) = s.step(Reply::<E>::CurlMessages(messages));
            let (u, actions) = drive(t, 2 * completions.len());
            &&& can_drive(t, 2 * completions.len())
            &&& first is Ok
            &&& seq![first->Ok_0] + actions == completion_actions(s.requests, completions).push(
                Action::NextSocketUpdate,
            )
            &&& u == AgentState {
                requests: without(s.requests, completions),
                phase: Phase::Updating,
                ..s
            }
        }),
{
    law_reports_are_messages_with_result_and_token(messages@);
    let completions = finished(messages@);
    assert(s.completions + completions =~= completions);
    lemma_complete_all(AgentState { completions, ..s });
    assert(s.completions =~= Seq::empty());
}

/// A handler learns how its transfer ended right after the transfer was taken
/// out of the multi handle, and never otherwise.
pub proof fn law_delivery_follows_removal<E>(
    s: AgentState,
    reply: Reply<E>,
    handle: EasyHandle,
    result: TransferResult,
)
    requires
        s.accepts(reply),
    ensures
        s.step(reply).1 == Ok::<Action, E>(Action::DeliverResult { handle, result }) <==> s.phase
            == (Phase::Removing { handle, result }) && reply is Completed,
{
}

/// The remaining options are set.
proof fn lemma_configure(s: AgentState, next: usize)
    requires
        next <= s.options.len() <= usize::MAX,
    ensures
        ({
            let rest = s.options.skip(next as int);
            let (t, first) = s.configure(next);
            let (u, actions) = drive(t, rest.len());
            &&& can_drive(t, rest.len())
            &&& seq![first] + actions == rest.map_values(
                |option: MultiOption| Action::SetOption(option),
            ).push(Action::InstallSocketFunction)
            &&& u == s.at(Phase::InstallingSocketFunction)
        }),
    decreases s.options.len() - next,
{
    let rest = s.options.skip(next as int);
    let set = |option: MultiOption| Action::SetOption(option);
    let (t, first) = s.configure(next);
    let expected = rest.map_values(set).push(Action::InstallSocketFunction);
    if next == s.options.len() {
        assert(seq![first] + drive(t, 0).1 =~= expected);
    } else {
        lemma_configure(t, (next + 1) as usize);
        let (t2, second) = t.resume();
        let (u, actions) = drive(t2, (rest.len() - 1) as nat);
        assert(drive(t, rest.len()) == (u, seq![second] + actions));
        assert(s.options.skip(next + 1) =~= rest.drop_first());
        assert(seq![first] + drive(t, rest.len()).1 =~= expected);
    }
}

/// Driving twice is driving once.
proof fn lemma_drive_add(s: AgentState, m: nat, n: nat)
    ensures
        drive(s, m + n).0 == drive(drive(s, m).0, n).0,
        drive(s, m + n).1 == drive(s, m).1 + drive(drive(s, m).0, n).1,
        can_drive(s, m) && can_drive(drive(s, m).0, n) ==> can_drive(s, m + n),
    decreases m,
{
    if m == 0 {
        assert(drive(s, m).1 + drive(s, n).1 =~= drive(s, n).1);
    } else {
        let (t, action) = s.resume();
        lemma_drive_add(t, (m - 1) as nat, n);
        assert(drive(s, m + n).1 =~= drive(s, m).1 + drive(drive(s, m).0, n).1);
    }
}

/// An agent that starts without a failure sets its options in order, then has
/// curl report its sockets and its timeouts, then signals its start, and only
/// then waits for its first message.
pub proof fn law_start_order(options: Seq<MultiOption>)
    requires
        options.len() <= usize::MAX,
    ensures
        can_drive(AgentState::init(options), options.len() + 4),
        drive(AgentState::init(options), options.len() + 4) == (
            AgentState::init(options).at(Phase::Receiving { blocking: true }),
            options.map_values(|option: MultiOption| Action::SetOption(option)) + seq![
                Action::InstallSocketFunction,
                Action::InstallTimerFunction,
                Action::SignalReady,
                Action::Receive,
            ],
        ),
{
    let s = AgentState::init(options);
    lemma_configure(s, 0);
    assert(options.skip(0) =~= options);
    let (t, first) = s.resume();
    assert(drive(s, options.len() + 1) == (
        drive(t, options.len()).0,
        seq![first] + drive(t, options.len()).1,
    ));
    lemma_drive_add(s, options.len() + 1, 3);
    reveal_with_fuel(drive, 4);
    reveal_with_fuel(can_drive, 5);
    assert(s.requests.is_empty());
    let set = options.map_values(|option: MultiOption| Action::SetOption(option));
    assert(drive(s, options.len() + 4).1 =~= set + seq![
        Action::InstallSocketFunction,
        Action::InstallTimerFunction,
        Action::SignalReady,
        Action::Receive,
    ]);
}

/// One turn of the event loop in which nothing happens leaves the agent as it
/// was: it looks for messages, for finished transfers and for socket updates, in
/// this order, waits for the whole of its maximum, tells curl that its timeout
/// has passed, and looks for messages again.
pub proof fn law_idle_turn<E>(
    s: AgentState,
    messages: Vec<CurlMessage>,
    timeouts: Vec<Option<u128>>,
    events: Vec<Event>,
)
    requires
        s.wf(),
        s.accepts(Reply::<E>::NoMessage),
        !s.requests.is_empty(),
        s.socket_events.len() == 0,
        messages@.len() == 0,
        timeouts@.len() == 0,
        events@.len() == 0,
    ensures
        ({
            let (s1, a1) = s.step(Reply::<E>::NoMessage);
            let (s2, a2) = s1.step(Reply::<E>::CurlMessages(messages));
            let (s3, a3) = s2.step(Reply::<E>::NoSocketUpdate);
            let (s4, a4) = s3.step(Reply::<E>::Timeouts(timeouts));
            let (s5, a5) = s4.step(Reply::<E>::Events(events));
            let (s6, a6) = s5.step(Reply::<E>::Completed);
            &&& a1 == Ok::<Action, E>(Action::CollectMessages)
            &&& a2 == Ok::<Action, E>(Action::NextSocketUpdate)
            &&& a3 == Ok::<Action, E>(Action::DrainTimeouts)
            &&& a4 == Ok::<Action, E>(Action::Wait { timeout: WAIT_TIMEOUT })
            &&& a5 == Ok::<Action, E>(Action::NotifyTimeout)
            &&& a6 == Ok::<Action, E>(Action::TryReceive)
            &&& s6 == s
        }),
{
    assert(s.completions =~= Seq::empty());
    assert(s.completions + finished(messages@) =~= s.completions);
    assert(s.socket_events =~= Seq::empty());
    assert(events@ =~= Seq::empty());
}

/// The state of an agent after a sequence of replies.
pub open spec fn run<E>(s: AgentState, replies: Seq<Reply<E>>) -> AgentState
    decreases replies.len(),
{
    if replies.len() == 0 {
        s
    } else {
        run(s, replies.drop_last()).step(replies.last()).0
    }
}

/// Whether an agent accepts each of a sequence of replies in turn, and the
/// machine always has room.
pub open spec fn accepts_all<E>(s: AgentState, replies: Seq<Reply<E>>) -> bool
    decreases replies.len(),
{
    if replies.len() == 0 {
        true
    } else {
        let t = run(s, replies.drop_last());
        &&& accepts_all(s, replies.drop_last())
        &&& has_room(t)
        &&& t.accepts(replies.last())
    }
}

/// The ready sockets are kept from the end of a wait until the next wait is
/// prepared, whatever the agent is told and asked for in between, and whatever of
/// what it asks for fails.
pub proof fn law_ready_sockets_outlast_the_turn<E>(s: AgentState, replies: Seq<Reply<E>>)
    requires
        accepts_all(s, replies),
        forall|i: int|
            0 <= i < replies.len() ==> !((#[trigger] replies[i]) is Timeouts) && !(replies[i]
                is Events),
    ensures
        run(s, replies).socket_events == s.socket_events,
    decreases replies.len(),
{
    if replies.len() > 0 {
        let before = replies.drop_last();
        assert forall|i: int| 0 <= i < before.len() implies !((#[trigger] before[i]) is Timeouts)
            && !(before[i] is Events) by {
            assert(before[i] == replies[i]);
        }
        law_ready_sockets_outlast_the_turn(s, before);
        assert(replies.last() == replies[replies.len() - 1]);
        law_what_steps_leave_alone(run(s, before), replies.last());
    }
}

/// Every turn, the sockets that were ready at the end of the last wait are
/// registered with the poller again before the next one: whatever replies have
/// come between the wait that found them ready and the end of curl's socket
/// updates, each of them that is still watched is, in the order of the wait and
/// with the interest that is recorded for it by then.
pub proof fn law_ready_sockets_keep_being_polled<E>(
    s: AgentState,
    events: Vec<Event>,
    replies: Seq<Reply<E>>,
)
    requires
        s.accepts(Reply::<E>::Events(events)),
        accepts_all(s.step(Reply::<E>::Events(events)).0, replies),
        forall|i: int|
            0 <= i < replies.len() ==> !((#[trigger] replies[i]) is Timeouts) && !(replies[i]
                is Events),
        run(s.step(Reply::<E>::Events(events)).0, replies).accepts(Reply::<E>::NoSocketUpdate),
        has_room(run(s.step(Reply::<E>::Events(events)).0, replies)),
    ensures
        ({
            let t = run(s.step(Reply::<E>::Events(events)).0, replies);
            let again = events@.filter(
                |event: Event|
                    event.key > 0 && t.sockets.entries.contains_key((event.key - 1) as usize),
            );
            let (u, first) = t.step(Reply::<E>::NoSocketUpdate);
            let (v, actions) = drive(u, again.len());
            &&& can_drive(u, again.len())
            &&& first is Ok
            &&& seq![first->Ok_0] + actions == again.map_values(
                |event: Event|
                    Action::PollerModify {
                        socket: t.sockets.entries[(event.key - 1) as usize].socket,
                        event: Event {
                            key: event.key,
                            readable: t.sockets.entries[(event.key - 1) as usize].readable,
                            writable: t.sockets.entries[(event.key - 1) as usize].writable,
                        },
                    },
            ).push(Action::DrainTimeouts)
            &&& v.phase is DrainingTimeouts
        }),
{
    let found = s.step(Reply::<E>::Events(events)).0;
    law_ready_sockets_outlast_the_turn(found, replies);
    law_ready_sockets_are_rearmed::<E>(run(found, replies));
    assert(found.socket_events == events@);
}

/// How many transfers became active during a sequence of replies.
pub open spec fn begun<E>(s: AgentState, replies: Seq<Reply<E>>) -> nat
    decreases replies.len(),
{
    if replies.len() == 0 {
        0
    } else {
        let before = begun(s, replies.drop_last());
        let t = run(s, replies.drop_last());
        if t.phase is SettingToken && replies.last() is Completed {
            before + 1
        } else {
            before
        }
    }
}

/// How many transfers were taken out of the multi handle during a sequence of
/// replies.
pub open spec fn removed<E>(s: AgentState, replies: Seq<Reply<E>>) -> nat
    decreases replies.len(),
{
    if replies.len() == 0 {
        0
    } else {
        let before = removed(s, replies.drop_last());
        let t = run(s, replies.drop_last());
        match t.step(replies.last()).1 {
            Ok(Action::RemoveHandle { .. }) => before + 1,
            _ => before,
        }
    }
}

/// What holds of an agent holds in every state that it can reach.
pub proof fn law_invariant_holds_always<E>(options: Seq<MultiOption>, replies: Seq<Reply<E>>)
    requires
        accepts_all(AgentState::init(options), replies),
    ensures
        run(AgentState::init(options), replies).wf(),
    decreases replies.len(),
{
    if replies.len() > 0 {
        law_invariant_holds_always(options, replies.drop_last());
        law_step_keeps_invariant(
            run(AgentState::init(options), replies.drop_last()),
            replies.last(),
        );
    }
}

/// No transfer is lost or completed twice: as long as the agent runs, as many
/// transfers are active as became active and were not taken out again.
pub proof fn law_no_transfer_is_lost<E>(options: Seq<MultiOption>, replies: Seq<Reply<E>>)
    requires
        accepts_all(AgentState::init(options), replies),
        !(run(AgentState::init(options), replies).phase is Stopped),
    ensures
        begun(AgentState::init(options), replies) == removed(AgentState::init(options), replies)
            + run(AgentState::init(options), replies).requests.entries.dom().len(),
    decreases replies.len(),
{
    let init = AgentState::init(options);
    if replies.len() > 0 {
        let s = run(init, replies.drop_last());
        let reply = replies.last();
        let (t, result) = s.step(reply);
        law_invariant_holds_always(options, replies.drop_last());
        law_stopped_is_final(s.at(Phase::Stopped), reply);
        law_no_transfer_is_lost(options, replies.drop_last());
        law_error_is_passed_on(s, reply);
        if s.phase is SettingToken && reply is Completed {
            lemma_next_key_is_free(s.requests, s.requests.next_key() as usize);
        }
        if let Reply::CurlMessages(messages) = reply {
            assert(s.completions + finished(messages@) =~= finished(messages@));
        }
    }
}

/// The two wakers that a transfer's handler is given, the one for reading and
/// the one for writing, send exactly the messages that resume this transfer.
pub proof fn law_wakers_resume_their_transfer<E>(
    s: AgentState,
    handle: EasyHandle,
    reader: Resuming,
    writer: Resuming,
)
    requires
        s.wf(),
        has_room(s),
        s.phase is Receiving,
        s.step(Reply::<E>::Message(Message::Execute(handle))).1
            matches Ok(Action::InitHandler { on_read, on_write, .. }) && reader.message == on_read
            && writer.message == on_write,
    ensures
        ({
            let id = s.requests.next_key() as usize;
            let u = drive(s.step(Reply::<E>::Message(Message::Execute(handle))).0, 4).0;
            &&& reader.next(ResumeReply::Begin).1 == ResumeAction::Send(Message::UnpauseRead(id))
            &&& writer.next(ResumeReply::Begin).1 == ResumeAction::Send(Message::UnpauseWrite(id))
            &&& u.step(Reply::<E>::Message(reader.message)).1 == Ok::<Action, E>(
                Action::UnpauseRead { handle },
            )
            &&& u.step(Reply::<E>::Message(writer.message)).1 == Ok::<Action, E>(
                Action::UnpauseWrite { handle },
            )
        }),
{
    law_begin_makes_active::<E>(s, handle);
}

/// The state of an agent after curl has changed its interest in a socket, any
/// number of times, under one key, and each change was handed to the poller.
pub open spec fn after_changes(
    s: AgentState,
    socket: Socket,
    key: usize,
    changes: Seq<SocketEvents>,
) -> AgentState
    decreases changes.len(),
{
    if changes.len() == 0 {
        s
    } else {
        let t = after_changes(s, socket, key, changes.drop_last());
        let update = SocketUpdate { socket, events: changes.last(), key };
        t.step(Reply::<()>::SocketUpdate(update)).0.step(Reply::<()>::Completed).0
    }
}

/// Whether an agent accepts a change of interest in a socket, and hands it to the
/// poller.
pub open spec fn reaches_poller<E>(s: AgentState, update: SocketUpdate) -> bool {
    &&& s.accepts(Reply::<E>::SocketUpdate(update))
    &&& s.step(Reply::<E>::SocketUpdate(update)).1 == Ok::<Action, E>(
        Action::PollerModify {
            socket: update.socket,
            event: Event {
                key: update.key,
                readable: update.events.input || update.events.input_and_output,
                writable: update.events.output || update.events.input_and_output,
            },
        },
    )
}

/// Changes of interest in a watched socket touch no other socket.
proof fn lemma_after_changes(s: AgentState, socket: Socket, key: usize, changes: Seq<SocketEvents>)
    requires
        s.phase is Updating,
        s.watches(key),
        forall|i: int| 0 <= i < changes.len() ==> !(#[trigger] changes[i]).remove,
    ensures
        ({
            let t = after_changes(s, socket, key, changes);
            &&& t.phase is Updating
            &&& t.watches(key)
            &&& t.sockets.entries.remove((key - 1) as usize) == s.sockets.entries.remove(
                (key - 1) as usize,
            )
        }),
    decreases changes.len(),
{
    if changes.len() > 0 {
        assert forall|i: int| 0 <= i < changes.drop_last().len() implies !(
        #[trigger] changes.drop_last()[i]).remove by {
            assert(changes.drop_last()[i] == changes[i]);
        }
        lemma_after_changes(s, socket, key, changes.drop_last());
        let index = (key - 1) as usize;
        let before = after_changes(s, socket, key, changes.drop_last());
        let t = after_changes(s, socket, key, changes);
        assert(!changes[changes.len() - 1].remove);
        assert(t.sockets.entries.remove(index) =~= before.sockets.entries.remove(index));
    }
}

/// A socket that is added, changed any number of times under the key that curl
/// was told, and removed under this key, leaves the watched sockets as they
/// were. Each change on the way is accepted and goes to the poller.
pub proof fn law_socket_round_trip<E>(
    s: AgentState,
    socket: Socket,
    events: SocketEvents,
    changes: Seq<SocketEvents>,
    removal: SocketEvents,
)
    requires
        s.wf(),
        has_room(s),
        s.phase is Updating,
        !events.remove,
        forall|i: int| 0 <= i < changes.len() ==> !(#[trigger] changes[i]).remove,
        removal.remove,
    ensures
        ({
            let key = (s.sockets.next_key() + 1) as usize;
            let (added, told) = s.step(
                Reply::<E>::SocketUpdate(SocketUpdate { socket, events, key: 0 }),
            );
            let changed = after_changes(drive(added, 2).0, socket, key, changes);
            let removed = Reply::<E>::SocketUpdate(SocketUpdate { socket, events: removal, key });
            let (t, result) = changed.step(removed);
            &&& key >= 1
            &&& told == Ok::<Action, E>(Action::AssignSocket { socket, key })
            &&& forall|e: SocketEvents| !e.remove ==> #[trigger] reaches_poller::<E>(
                changed,
                SocketUpdate { socket, events: e, key },
            )
            &&& changed.accepts(removed)
            &&& result == Ok::<Action, E>(Action::PollerDelete { socket })
            &&& t.step(Reply::<E>::Completed).0.phase is Updating
            &&& t.step(Reply::<E>::Completed).0.sockets.entries == s.sockets.entries
        }),
{
    let update = SocketUpdate { socket, events, key: 0 };
    law_new_socket_is_watched::<E>(s, update);
    reveal_with_fuel(drive, 3);
    let key = (s.sockets.next_key() + 1) as usize;
    let index = s.sockets.next_key() as usize;
    let added = drive(s.step(Reply::<E>::SocketUpdate(update)).0, 2).0;
    lemma_next_key_is_free(s.sockets, index);
    lemma_after_changes(added, socket, key, changes);
    assert(added.sockets.entries.remove(index) =~= s.sockets.entries);
}

/// What an agent hands out, in order, in answer to a sequence of replies.
pub open spec fn handed_out<E>(s: AgentState, replies: Seq<Reply<E>>) -> Seq<Result<Action, E>>
    decreases replies.len(),
{
    if replies.len() == 0 {
        Seq::empty()
    } else {
        handed_out(s, replies.drop_last()).push(
            run(s, replies.drop_last()).step(replies.last()).1,
        )
    }
}

/// Whether a handler is told an identifier and the messages that carry it.
pub open spec fn tells<E>(action: Result<Action, E>, handle: EasyHandle, id: usize) -> bool {
    action == Ok::<Action, E>(
        Action::InitHandler {
            handle,
            id,
            on_read: Message::UnpauseRead(id),
            on_write: Message::UnpauseWrite(id),
        },
    )
}

/// Whether some handler is told an identifier.
pub open spec fn hands_out<E>(action: Result<Action, E>, id: usize) -> bool {
    action matches Ok(Action::InitHandler { id: told, .. }) && told == id
}

/// Whether a transfer was begun at index `i` of a sequence of replies and of what
/// was handed out in answer to them: its handler was told the identifier, the
/// transfer was added to the multi handle, its token was set to the identifier,
/// and all of that was done; and no handler was told this identifier since.
pub open spec fn begun_at<E>(
    replies: Seq<Reply<E>>,
    actions: Seq<Result<Action, E>>,
    i: int,
    handle: EasyHandle,
    id: usize,
) -> bool {
    &&& 0 <= i
    &&& i + 3 < replies.len()
    &&& tells(actions[i], handle, id)
    &&& actions[i + 1] == Ok::<Action, E>(Action::AddHandle { handle })
    &&& actions[i + 2] == Ok::<Action, E>(Action::SetToken { handle, token: id })
    &&& replies[i + 1] is Completed
    &&& replies[i + 2] is Completed
    &&& replies[i + 3] is Completed
    &&& forall|j: int| i < j < actions.len() ==> !hands_out(#[trigger] actions[j], id)
}

/// Whether each stored transfer was begun at some time under the key that it is
/// stored under.
pub open spec fn all_begun<E>(
    replies: Seq<Reply<E>>,
    actions: Seq<Result<Action, E>>,
    entries: Map<usize, EasyHandle>,
) -> bool {
    forall|id: usize| #[trigger]
        entries.contains_key(id) ==> exists|i: int|
            begun_at(replies, actions, i, entries[id], id)
}

/// How far the transfer has come that is being begun.
pub open spec fn beginning<E>(
    replies: Seq<Reply<E>>,
    actions: Seq<Result<Action, E>>,
    phase: Phase,
) -> bool {
    let n = replies.len() as int;
    match phase {
        Phase::Initializing { handle, id } => n >= 1 && tells(actions[n - 1], handle, id),
        Phase::Adding { handle, id } => {
            &&& n >= 2
            &&& tells(actions[n - 2], handle, id)
            &&& actions[n - 1] == Ok::<Action, E>(Action::AddHandle { handle })
            &&& replies[n - 1] is Completed
        },
        Phase::SettingToken { handle, id } => {
            &&& n >= 3
            &&& tells(actions[n - 3], handle, id)
            &&& actions[n - 2] == Ok::<Action, E>(Action::AddHandle { handle })
            &&& actions[n - 1] == Ok::<Action, E>(Action::SetToken { handle, token: id })
            &&& replies[n - 2] is Completed
            &&& replies[n - 1] is Completed
        },
        _ => true,
    }
}

/// A step from one phase of beginning a transfer to the next.
proof fn lemma_beginning_step<E>(s: AgentState, reply: Reply<E>)
    requires
        s.wf(),
        has_room(s),
        s.accepts(reply),
    ensures
        ({
            let (t, result) = s.step(reply);
            &&& t.phase matches Phase::Initializing { handle, id } ==> tells(result, handle, id)
            &&& t.phase matches Phase::Adding { handle, id } ==> reply is Completed && s.phase == (
            Phase::Initializing { handle, id }) && result == Ok::<Action, E>(
                Action::AddHandle { handle },
            )
            &&& t.phase matches Phase::SettingToken { handle, id } ==> reply is Completed
                && s.phase == (Phase::Adding { handle, id }) && result == Ok::<Action, E>(
                Action::SetToken { handle, token: id },
            )
        }),
{
}

/// A step in which the transfers change, or a handler is told an identifier. The
/// identifier is not the one of an active transfer.
proof fn lemma_entries_step<E>(s: AgentState, reply: Reply<E>, id: usize)
    requires
        s.wf(),
        has_room(s),
        s.accepts(reply),
        s.step(reply).0.requests.entries.contains_key(id),
    ensures
        ({
            let (t, result) = s.step(reply);
            let handle = t.requests.entries[id];
            &&& !hands_out(result, id)
            &&& (s.requests.entries.contains_key(id) && s.requests.entries[id] == handle) || (
            reply is Completed && s.phase == (Phase::SettingToken { handle, id }))
        }),
{
    law_how_transfers_change(s, reply);
    if reply is Message {
        lemma_next_key_is_free(s.requests, s.requests.next_key() as usize);
    }
}

/// One reply more: what holds of the stored transfers, and of the one that is
/// being begun, still holds.
proof fn lemma_identifiers_step<E>(
    replies: Seq<Reply<E>>,
    actions: Seq<Result<Action, E>>,
    s: AgentState,
    reply: Reply<E>,
)
    requires
        s.wf(),
        has_room(s),
        s.accepts(reply),
        replies.len() == actions.len(),
        beginning(replies, actions, s.phase),
        all_begun(replies, actions, s.requests.entries),
    ensures
        ({
            let (t, result) = s.step(reply);
            &&& beginning(replies.push(reply), actions.push(result), t.phase)
            &&& all_begun(replies.push(reply), actions.push(result), t.requests.entries)
        }),
{
    let (t, result) = s.step(reply);
    let n = replies.len() as int;
    let more = replies.push(reply);
    let done = actions.push(result);
    lemma_beginning_step(s, reply);
    assert forall|id: usize| #[trigger] t.requests.entries.contains_key(id) implies exists|i: int|
        begun_at(more, done, i, t.requests.entries[id], id) by {
        let handle = t.requests.entries[id];
        lemma_entries_step(s, reply, id);
        if s.requests.entries.contains_key(id) && s.requests.entries[id] == handle {
            let i = choose|i: int| begun_at(replies, actions, i, handle, id);
            assert(begun_at(more, done, i, handle, id)) by {
                assert forall|j: int| i < j < done.len() implies !hands_out(
                    #[trigger] done[j],
                    id,
                ) by {
                    if j < n {
                        assert(done[j] == actions[j]);
                    }
                }
            }
        } else {
            assert(begun_at(more, done, n - 3, handle, id));
        }
    }
}

/// The identifiers agree, in every state that the agent can reach, also while a
/// transfer is being begun.
proof fn lemma_identifiers_agree<E>(options: Seq<MultiOption>, replies: Seq<Reply<E>>)
    requires
        accepts_all(AgentState::init(options), replies),
    ensures
        ({
            let s = run(AgentState::init(options), replies);
            let actions = handed_out(AgentState::init(options), replies);
            &&& actions.len() == replies.len()
            &&& beginning(replies, actions, s.phase)
            &&& all_begun(replies, actions, s.requests.entries)
        }),
    decreases replies.len(),
{
    let init = AgentState::init(options);
    if replies.len() > 0 {
        let before = replies.drop_last();
        lemma_identifiers_agree(options, before);
        law_invariant_holds_always(options, before);
        lemma_identifiers_step(
            before,
            handed_out(init, before),
            run(init, before),
            replies.last(),
        );
        assert(before.push(replies.last()) =~= replies);
    }
}

/// The identifiers of an active transfer agree, in every state that an agent can
/// reach: the key that the transfer is stored under is the identifier that its
/// handler was told, it is the one in the two messages that resume the transfer,
/// and it is the token that curl has for the transfer; and no other handler was
/// told it since.
pub proof fn law_identifiers_agree<E>(
    options: Seq<MultiOption>,
    replies: Seq<Reply<E>>,
    id: usize,
)
    requires
        accepts_all(AgentState::init(options), replies),
        run(AgentState::init(options), replies).requests.entries.contains_key(id),
    ensures
        exists|i: int|
            begun_at(
                replies,
                handed_out(AgentState::init(options), replies),
                i,
                run(AgentState::init(options), replies).requests.entries[id],
                id,
            ),
{
    lemma_identifiers_agree(options, replies);
}

} // verus!
