//! What each single step of the agent does: to which reply it comes, what it
//! hands out, and what becomes of everything that the agent keeps.
use crate::builder::MultiOption;
use crate::message::{
    finished, spec_wait_timeout, CurlMessage, Event, Message, SocketEvents, SocketUpdate,
};
use crate::model::AgentState;
use crate::protocol::{Action, AfterRegistration, Attempt, Phase, Reply};
use crate::requests::EasyHandle;
use crate::slab_model::{lemma_next_key_is_free, SlabModel};
use crate::sockets::SocketContext;
use vstd::prelude::*;

verus! {

/// A new agent has its options before it, and neither transfers nor sockets nor
/// anything to report.
pub proof fn law_new_agent_holds_nothing(options: Seq<MultiOption>)
    ensures
        ({
            let s = AgentState::init(options);
            &&& s.options == options
            &&& s.phase == (Phase::Configuring { next: 0 })
            &&& !s.close_requested
            &&& s.completions.len() == 0
            &&& s.socket_events.len() == 0
            &&& forall|key: usize| !(#[trigger] s.requests.entries.contains_key(key))
            &&& forall|key: usize| !(#[trigger] s.sockets.entries.contains_key(key))
            &&& s.requests.vacant.len() == 0
            &&& s.sockets.vacant.len() == 0
            &&& s.wf()
        }),
{
}

/// A new agent has handed out nothing yet, so it goes on from no reply but the
/// one that lets it begin.
pub proof fn law_new_agent_can_only_begin<E>(options: Seq<MultiOption>, reply: Reply<E>)
    ensures
        AgentState::init(options).accepts(reply) <==> reply is Completed,
{
}

/// Each option is set in its turn; after the last one, curl is made to report
/// its sockets.
pub proof fn law_options_are_set_in_turn<E>(s: AgentState, next: usize)
    requires
        s.phase == (Phase::Configuring { next }),
        next <= s.options.len() <= usize::MAX,
    ensures
        s.accepts(Reply::<E>::Completed),
        next < s.options.len() ==> s.step(Reply::<E>::Completed) == (
            (AgentState { phase: Phase::Configuring { next: (next + 1) as usize }, ..s }),
            Ok::<Action, E>(Action::SetOption(s.options[next as int])),
        ),
        next == s.options.len() ==> s.step(Reply::<E>::Completed) == (
            (AgentState { phase: Phase::InstallingSocketFunction, ..s }),
            Ok::<Action, E>(Action::InstallSocketFunction),
        ),
{
}

/// After curl was made to report its sockets, it is made to report its timeouts,
/// and then the start is signaled.
pub proof fn law_start_is_signaled_last<E>(s: AgentState)
    requires
        s.phase is InstallingSocketFunction || s.phase is InstallingTimerFunction,
    ensures
        s.accepts(Reply::<E>::Completed),
        s.phase is InstallingSocketFunction ==> s.step(Reply::<E>::Completed) == (
            (AgentState { phase: Phase::InstallingTimerFunction, ..s }),
            Ok::<Action, E>(Action::InstallTimerFunction),
        ),
        s.phase is InstallingTimerFunction ==> s.step(Reply::<E>::Completed) == (
            (AgentState { phase: Phase::SignalingReady, ..s }),
            Ok::<Action, E>(Action::SignalReady),
        ),
{
}

/// After its start was signaled, a transfer was resumed, or curl was told of its
/// timeout, the agent turns to its messages, and keeps all that it has: with a
/// transfer it only looks for one, without one it waits.
pub proof fn law_messages_come_next<E>(s: AgentState)
    requires
        s.phase is SignalingReady || s.phase is Unpausing || s.phase is Notifying,
        !s.close_requested,
    ensures
        s.accepts(Reply::<E>::Completed),
        (forall|key: usize| !(#[trigger] s.requests.entries.contains_key(key))) ==> s.step(
            Reply::<E>::Completed,
        ) == (
            (AgentState { phase: Phase::Receiving { blocking: true }, ..s }),
            Ok::<Action, E>(Action::Receive),
        ),
        (exists|key: usize| #[trigger] s.requests.entries.contains_key(key)) ==> s.step(
            Reply::<E>::Completed,
        ) == (
            (AgentState { phase: Phase::Receiving { blocking: false }, ..s }),
            Ok::<Action, E>(Action::TryReceive),
        ),
{
    lemma_is_empty(s.requests);
}

/// A slab is empty exactly if no key is occupied.
proof fn lemma_is_empty(s: SlabModel<EasyHandle>)
    ensures
        s.is_empty() <==> forall|key: usize| !(#[trigger] s.entries.contains_key(key)),
{
    if forall|key: usize| !(#[trigger] s.entries.contains_key(key)) {
        assert(s.entries =~= Map::<usize, EasyHandle>::empty());
    }
}

/// A message that asks to run a transfer has the transfer's handler initialized,
/// with an identifier that no active transfer has and that both of the messages
/// carry.
pub proof fn law_execute_initializes_handler<E>(s: AgentState, handle: EasyHandle)
    requires
        s.phase is Receiving,
        s.requests.wf(),
        s.requests.next_key() <= usize::MAX,
    ensures
        s.accepts(Reply::<E>::Message(Message::Execute(handle))),
        ({
            let id = s.requests.next_key() as usize;
            &&& !s.requests.entries.contains_key(id)
            &&& s.step(Reply::<E>::Message(Message::Execute(handle))) == (
                (AgentState { phase: Phase::Initializing { handle, id }, ..s }),
                Ok::<Action, E>(
                    Action::InitHandler {
                        handle,
                        id,
                        on_read: Message::UnpauseRead(id),
                        on_write: Message::UnpauseWrite(id),
                    },
                ),
            )
        }),
{
    lemma_next_key_is_free(s.requests, s.requests.next_key() as usize);
}

/// A transfer whose handler is initialized is added to the multi handle, then
/// gets its identifier as its token, and is then active under it; curl is made
/// to look at its transfers at once.
pub proof fn law_transfer_is_stored_last<E>(s: AgentState, handle: EasyHandle, id: usize)
    requires
        s.requests.next_key() == id,
    ensures
        s.phase == (Phase::Initializing { handle, id }) ==> s.accepts(Reply::<E>::Completed)
            && s.step(Reply::<E>::Completed) == (
            (AgentState { phase: Phase::Adding { handle, id }, ..s }),
            Ok::<Action, E>(Action::AddHandle { handle }),
        ),
        s.phase == (Phase::Adding { handle, id }) ==> s.accepts(Reply::<E>::Completed) && s.step(
            Reply::<E>::Completed,
        ) == (
            (AgentState { phase: Phase::SettingToken { handle, id }, ..s }),
            Ok::<Action, E>(Action::SetToken { handle, token: id }),
        ),
        s.phase == (Phase::SettingToken { handle, id }) ==> ({
            let (t, result) = s.step(Reply::<E>::Completed);
            &&& s.accepts(Reply::<E>::Completed)
            &&& result == Ok::<Action, E>(Action::NotifyTimeout)
            &&& t.requests.entries == s.requests.entries.insert(id, handle)
            &&& s.requests.vacant.len() == 0 ==> t.requests.vacant.len() == 0
            &&& s.requests.vacant.len() > 0 ==> t.requests.vacant == s.requests.vacant.take(
                s.requests.vacant.len() - 1,
            )
            &&& t == AgentState { requests: t.requests, phase: Phase::Notifying, ..s }
        }),
{
}

/// A message that asks to resume an active transfer reaches this transfer, in
/// the direction that it names.
pub proof fn law_resumption_names_its_direction<E>(s: AgentState, id: usize)
    requires
        s.phase is Receiving,
        s.requests.entries.contains_key(id),
    ensures
        s.accepts(Reply::<E>::Message(Message::UnpauseRead(id))),
        s.accepts(Reply::<E>::Message(Message::UnpauseWrite(id))),
        s.step(Reply::<E>::Message(Message::UnpauseRead(id))) == (
            (AgentState { phase: Phase::Unpausing, ..s }),
            Ok::<Action, E>(Action::UnpauseRead { handle: s.requests.entries[id] }),
        ),
        s.step(Reply::<E>::Message(Message::UnpauseWrite(id))) == (
            (AgentState { phase: Phase::Unpausing, ..s }),
            Ok::<Action, E>(Action::UnpauseWrite { handle: s.requests.entries[id] }),
        ),
{
}

/// A message that asks to resume a transfer that is not active has the agent
/// turn to the next message, with all that it has.
pub proof fn law_unknown_resumption_is_skipped<E>(s: AgentState, id: usize, message: Message)
    requires
        s.phase is Receiving,
        !s.close_requested,
        !s.requests.entries.contains_key(id),
        message == Message::UnpauseRead(id) || message == Message::UnpauseWrite(id),
    ensures
        s.accepts(Reply::<E>::Message(message)),
        (forall|key: usize| !(#[trigger] s.requests.entries.contains_key(key))) ==> s.step(
            Reply::<E>::Message(message),
        ) == (
            (AgentState { phase: Phase::Receiving { blocking: true }, ..s }),
            Ok::<Action, E>(Action::Receive),
        ),
        (exists|key: usize| #[trigger] s.requests.entries.contains_key(key)) ==> s.step(
            Reply::<E>::Message(message),
        ) == (
            (AgentState { phase: Phase::Receiving { blocking: false }, ..s }),
            Ok::<Action, E>(Action::TryReceive),
        ),
{
    lemma_is_empty(s.requests);
}

/// A message that asks the agent to close, and the loss of all handles, stop the
/// agent: its transfers are dropped, and all else stays.
pub proof fn law_close_drops_only_transfers<E>(s: AgentState, reply: Reply<E>)
    requires
        s.phase is Receiving,
        reply == Reply::<E>::Message(Message::Close) || reply is Disconnected,
    ensures
        s.accepts(reply),
        ({
            let (t, result) = s.step(reply);
            &&& result == Ok::<Action, E>(Action::Stop)
            &&& forall|key: usize| !(#[trigger] t.requests.entries.contains_key(key))
            &&& t == AgentState {
                requests: t.requests,
                close_requested: true,
                phase: Phase::Stopped,
                ..s
            }
        }),
{
}

/// Once no message is left, the agent turns to the transfers that have finished,
/// with all that it has.
pub proof fn law_no_message_leads_to_transfers<E>(s: AgentState)
    requires
        s.phase == (Phase::Receiving { blocking: false }),
    ensures
        s.accepts(Reply::<E>::NoMessage),
        s.step(Reply::<E>::NoMessage) == (
            (AgentState { phase: Phase::Collecting, ..s }),
            Ok::<Action, E>(Action::CollectMessages),
        ),
{
}

/// The finished transfers that messages report are those of the messages that
/// have both a result and a token, all of them and in their order: the token and
/// the result of each.
pub proof fn law_reports_are_messages_with_result_and_token(messages: Seq<CurlMessage>)
    ensures
        finished(messages) == messages.filter(
            |message: CurlMessage| message.result is Some && message.token is Some,
        ).map_values(
            |message: CurlMessage| (message.token->0, message.result->0),
        ),
    decreases messages.len(),
{
    let full = |message: CurlMessage| message.result is Some && message.token is Some;
    let report = |message: CurlMessage| (message.token->0, message.result->0);
    reveal(Seq::filter);
    if messages.len() > 0 {
        law_reports_are_messages_with_result_and_token(messages.drop_last());
        let before = messages.drop_last().filter(full);
        if full(messages.last()) {
            assert(messages.filter(full) == before.push(messages.last()));
            assert(messages.filter(full).map_values(report) =~= before.map_values(report).push(
                report(messages.last()),
            ));
        } else {
            assert(messages.filter(full) == before);
        }
        assert(finished(messages) =~= messages.filter(full).map_values(report));
    } else {
        assert(messages.filter(full).map_values(report) =~= Seq::empty());
    }
}

/// What messages report does not depend on the messages around them: two lists
/// of messages together report what the first one does, and then what the second
/// one does.
pub proof fn law_reports_are_independent(a: Seq<CurlMessage>, b: Seq<CurlMessage>)
    ensures
        finished(a + b) == finished(a) + finished(b),
    decreases b.len(),
{
    if b.len() == 0 {
        assert(a + b =~= a);
        assert(finished(a) + finished(b) =~= finished(a));
    } else {
        law_reports_are_independent(a, b.drop_last());
        assert((a + b).drop_last() =~= a + b.drop_last());
        assert(finished(a + b) =~= finished(a) + finished(b));
    }
}

/// Every message that has both a result and a token is reported: there are as many
/// reports before it as there are such messages before it.
pub proof fn law_every_report_has_its_place(messages: Seq<CurlMessage>, i: int)
    requires
        0 <= i < messages.len(),
        messages[i].result is Some,
        messages[i].token is Some,
    ensures
        finished(messages.take(i)).len() < finished(messages).len(),
        finished(messages)[finished(messages.take(i)).len() as int] == (
            messages[i].token->0,
            messages[i].result->0,
        ),
    decreases messages.len(),
{
    if i == messages.len() - 1 {
        assert(messages.take(i) =~= messages.drop_last());
    } else {
        law_every_report_has_its_place(messages.drop_last(), i);
        assert(messages.drop_last().take(i) =~= messages.take(i));
    }
}

/// When curl's messages have come, the first transfer that they report is taken
/// out, and the others wait in their order. If they report none, the agent turns
/// to its sockets. The reports are accepted if the first one is about an active
/// transfer.
pub proof fn law_reports_are_taken_up<E>(s: AgentState, messages: Vec<CurlMessage>)
    requires
        s.phase is Collecting,
        s.completions.len() == 0,
    ensures
        ({
            let reports = messages@.filter(
                |message: CurlMessage| message.result is Some && message.token is Some,
            );
            let reply = Reply::<E>::CurlMessages(messages);
            let (t, result) = s.step(reply);
            &&& reports.len() == 0 ==> s.accepts(reply) && t == (AgentState {
                phase: Phase::Updating,
                ..s
            }) && result == Ok::<Action, E>(Action::NextSocketUpdate)
            &&& reports.len() > 0 ==> (s.accepts(reply) <==> s.requests.entries.contains_key(
                reports[0].token->0,
            ))
            &&& reports.len() > 0 ==> ({
                let token = reports[0].token->0;
                let handle = s.requests.entries[token];
                &&& result == Ok::<Action, E>(Action::RemoveHandle { handle })
                &&& t.requests.entries == s.requests.entries.remove(token)
                &&& t.requests.vacant == s.requests.vacant.push(token)
                &&& t.completions == reports.drop_first().map_values(
                    |message: CurlMessage| (message.token->0, message.result->0),
                )
                &&& t == AgentState {
                    requests: t.requests,
                    completions: t.completions,
                    phase: Phase::Removing { handle, result: reports[0].result->0 },
                    ..s
                }
            })
        }),
{
    let full = |message: CurlMessage| message.result is Some && message.token is Some;
    let report = |message: CurlMessage| (message.token->0, message.result->0);
    let reports = messages@.filter(full);
    law_reports_are_messages_with_result_and_token(messages@);
    assert(s.completions =~= Seq::empty());
    assert(s.completions + finished(messages@) =~= finished(messages@));
    if reports.len() > 0 {
        assert(reports.map_values(report).drop_first() =~= reports.drop_first().map_values(
            report,
        ));
    } else {
        assert(finished(messages@) =~= Seq::empty());
    }
}

/// Once a transfer was taken out of the multi handle, its handler is told how it
/// ended; then the next finished transfer is taken out, until none waits. Then
/// the agent turns to its sockets.
pub proof fn law_next_report_is_taken_up<E>(s: AgentState)
    ensures
        s.phase matches Phase::Removing { handle, result } ==> s.accepts(Reply::<E>::Completed)
            && s.step(Reply::<E>::Completed) == (
            (AgentState { phase: Phase::Delivering, ..s }),
            Ok::<Action, E>(Action::DeliverResult { handle, result }),
        ),
        s.phase is Delivering && s.completions.len() == 0 ==> s.accepts(Reply::<E>::Completed)
            && s.step(Reply::<E>::Completed) == (
            (AgentState { phase: Phase::Updating, ..s }),
            Ok::<Action, E>(Action::NextSocketUpdate),
        ),
        s.phase is Delivering && s.completions.len() > 0 ==> ({
            let token = s.completions[0].0;
            let handle = s.requests.entries[token];
            let (t, result) = s.step(Reply::<E>::Completed);
            &&& s.accepts(Reply::<E>::Completed) <==> s.requests.entries.contains_key(token)
            &&& result == Ok::<Action, E>(Action::RemoveHandle { handle })
            &&& t.requests.entries == s.requests.entries.remove(token)
            &&& t.requests.vacant == s.requests.vacant.push(token)
            &&& t.completions == s.completions.subrange(1, s.completions.len() as int)
            &&& t == AgentState {
                requests: t.requests,
                completions: t.completions,
                phase: Phase::Removing { handle, result: s.completions[0].1 },
                ..s
            }
        }),
{
}

/// The interest in a socket covers what curl asks for, and nothing else: reading
/// where curl asks for input or for both directions, and writing where it asks
/// for output or for both directions.
pub proof fn law_interest_is_what_curl_asks_for(events: SocketEvents)
    ensures
        events.input ==> events.spec_readable(),
        events.output ==> events.spec_writable(),
        events.input_and_output ==> events.spec_readable() && events.spec_writable(),
        !events.input && !events.input_and_output ==> !events.spec_readable(),
        !events.output && !events.input_and_output ==> !events.spec_writable(),
{
}

/// A new socket is recorded, with the directions that curl asks for, under a key
/// of its own that curl is told; all other sockets, and all else that the agent
/// has, stay as they were.
pub proof fn law_new_socket_is_recorded<E>(s: AgentState, update: SocketUpdate)
    requires
        s.phase is Updating,
        s.sockets.wf(),
        s.sockets.next_key() < usize::MAX,
        update.key == 0,
        !update.events.remove,
    ensures
        s.accepts(Reply::<E>::SocketUpdate(update)),
        ({
            let socket = update.socket;
            let readable = update.events.input || update.events.input_and_output;
            let writable = update.events.output || update.events.input_and_output;
            let (t, result) = s.step(Reply::<E>::SocketUpdate(update));
            &&& result is Ok
            &&& result->Ok_0 is AssignSocket
            &&& ({
                let key = result->Ok_0->AssignSocket_key;
                &&& result->Ok_0->AssignSocket_socket == socket
                &&& key > 0
                &&& key == s.sockets.next_key() + 1
                &&& !s.sockets.entries.contains_key((key - 1) as usize)
                &&& t.sockets.entries == s.sockets.entries.insert(
                    (key - 1) as usize,
                    SocketContext { socket, readable, writable },
                )
                &&& s.sockets.vacant.len() == 0 ==> t.sockets.vacant.len() == 0
                &&& s.sockets.vacant.len() > 0 ==> t.sockets.vacant == s.sockets.vacant.take(
                    s.sockets.vacant.len() - 1,
                )
                &&& t == AgentState {
                    sockets: t.sockets,
                    phase: Phase::Assigning { socket, event: Event { key, readable, writable } },
                    ..s
                }
            })
        }),
{
    lemma_next_key_is_free(s.sockets, s.sockets.next_key() as usize);
}

/// A change of interest in a watched socket is recorded, with the directions that
/// curl asks for, and goes to the poller under the same key; all other sockets,
/// and all else that the agent has, stay as they were.
pub proof fn law_changed_socket_is_recorded<E>(s: AgentState, update: SocketUpdate)
    requires
        s.phase is Updating,
        update.key > 0,
        s.sockets.entries.contains_key((update.key - 1) as usize),
        !update.events.remove,
    ensures
        s.accepts(Reply::<E>::SocketUpdate(update)),
        ({
            let socket = update.socket;
            let index = (update.key - 1) as usize;
            let readable = update.events.input || update.events.input_and_output;
            let writable = update.events.output || update.events.input_and_output;
            let event = Event { key: update.key, readable, writable };
            let (t, result) = s.step(Reply::<E>::SocketUpdate(update));
            &&& result == Ok::<Action, E>(Action::PollerModify { socket, event })
            &&& t.sockets.entries == s.sockets.entries.insert(
                index,
                SocketContext { socket: s.sockets.entries[index].socket, readable, writable },
            )
            &&& t.sockets.vacant == s.sockets.vacant
            &&& t == AgentState {
                sockets: t.sockets,
                phase: Phase::Registering {
                    socket,
                    event,
                    attempt: Attempt::Modify,
                    after: AfterRegistration::NextUpdate,
                },
                ..s
            }
        }),
{
}

/// A watched socket that curl no longer wants to be watched is forgotten, and no
/// other; all else that the agent has stays as it was. A socket that is not
/// watched cannot be removed.
pub proof fn law_removed_socket_is_dropped<E>(s: AgentState, update: SocketUpdate)
    requires
        s.phase is Updating,
        update.events.remove,
    ensures
        s.accepts(Reply::<E>::SocketUpdate(update)) <==> update.key > 0
            && s.sockets.entries.contains_key((update.key - 1) as usize),
        update.key > 0 ==> ({
            let (t, result) = s.step(Reply::<E>::SocketUpdate(update));
            &&& result == Ok::<Action, E>(Action::PollerDelete { socket: update.socket })
            &&& t.sockets.entries == s.sockets.entries.remove((update.key - 1) as usize)
            &&& t.sockets.vacant == s.sockets.vacant.push((update.key - 1) as usize)
            &&& t == AgentState { sockets: t.sockets, phase: Phase::Deleting, ..s }
        }),
{
}

/// A change of interest in a socket that is not watched is passed over.
pub proof fn law_unknown_socket_is_skipped<E>(s: AgentState, update: SocketUpdate)
    requires
        s.phase is Updating,
        update.key > 0,
        !s.sockets.entries.contains_key((update.key - 1) as usize),
        !update.events.remove,
    ensures
        s.accepts(Reply::<E>::SocketUpdate(update)),
        s.step(Reply::<E>::SocketUpdate(update)) == (
            s,
            Ok::<Action, E>(Action::NextSocketUpdate),
        ),
{
}

/// A socket whose key curl knows is added to the poller with the interest that
/// was recorded; after that, and after the poller has forgotten a socket or
/// changed its interest in one, the agent turns to curl's next update.
pub proof fn law_next_update_follows<E>(s: AgentState)
    ensures
        s.phase matches Phase::Assigning { socket, event } ==> s.accepts(Reply::<E>::Completed)
            && s.step(Reply::<E>::Completed) == (
            (AgentState {
                phase: Phase::Registering {
                    socket,
                    event,
                    attempt: Attempt::Add,
                    after: AfterRegistration::NextUpdate,
                },
                ..s
            }),
            Ok::<Action, E>(Action::PollerAdd { socket, event }),
        ),
        s.phase is Deleting || (s.phase matches Phase::Registering { after, .. } && after
            is NextUpdate) ==> s.accepts(Reply::<E>::Completed) && s.step(Reply::<E>::Completed)
            == (
            (AgentState { phase: Phase::Updating, ..s }),
            Ok::<Action, E>(Action::NextSocketUpdate),
        ),
{
}

/// The search for the next event whose socket is watched finds the first one.
proof fn lemma_first_watched(s: AgentState, from: int, i: int)
    requires
        0 <= from <= i <= s.socket_events.len(),
        i < s.socket_events.len() ==> s.socket_events[i].key > 0
            && s.sockets.entries.contains_key((s.socket_events[i].key - 1) as usize),
        forall|j: int|
            from <= j < i ==> (#[trigger] s.socket_events[j]).key > 0
                && !s.sockets.entries.contains_key((s.socket_events[j].key - 1) as usize),
    ensures
        s.next_watched(from) == i,
    decreases i - from,
{
    if from < i {
        assert(!s.sockets.entries.contains_key((s.socket_events[from].key - 1) as usize));
        lemma_first_watched(s, from + 1, i);
    }
}

/// Whether the agent goes on with the re-registration of the ready sockets from
/// index `from` on: once curl asks for no further update, or once the one before
/// is registered.
pub open spec fn rearms_from<E>(s: AgentState, reply: Reply<E>, from: int) -> bool {
    ||| s.phase is Updating && reply is NoSocketUpdate && from == 0
    ||| reply is Completed && (s.phase matches Phase::Registering {
        after: AfterRegistration::Rearm(next),
        ..
    } && next == from)
}

/// The next ready socket that is still watched is registered with the poller
/// again, with the interest that is recorded for it and under its key; nothing
/// that the agent has changes. Ready sockets that are no longer watched are
/// passed over.
pub proof fn law_next_ready_socket_is_rearmed<E>(
    s: AgentState,
    reply: Reply<E>,
    from: int,
    i: int,
)
    requires
        rearms_from(s, reply, from),
        0 <= from <= i < s.socket_events.len() <= usize::MAX,
        s.socket_events[i].key > 0,
        s.sockets.entries.contains_key((s.socket_events[i].key - 1) as usize),
        forall|j: int|
            from <= j < i ==> (#[trigger] s.socket_events[j]).key > 0
                && !s.sockets.entries.contains_key((s.socket_events[j].key - 1) as usize),
    ensures
        s.accepts(reply),
        ({
            let key = s.socket_events[i].key;
            let context = s.sockets.entries[(key - 1) as usize];
            let event = Event { key, readable: context.readable, writable: context.writable };
            s.step(reply) == (
                (AgentState {
                    phase: Phase::Registering {
                        socket: context.socket,
                        event,
                        attempt: Attempt::Modify,
                        after: AfterRegistration::Rearm((i + 1) as usize),
                    },
                    ..s
                }),
                Ok::<Action, E>(Action::PollerModify { socket: context.socket, event }),
            )
        }),
{
    lemma_first_watched(s, from, i);
}

/// Once no ready socket is left that is watched, the agent turns to curl's
/// timeouts, and not before.
pub proof fn law_timeouts_follow_rearming<E>(s: AgentState, reply: Reply<E>, from: int)
    requires
        rearms_from(s, reply, from),
        0 <= from <= s.socket_events.len() <= usize::MAX,
        forall|j: int|
            from <= j < s.socket_events.len() ==> (#[trigger] s.socket_events[j]).key > 0
                && !s.sockets.entries.contains_key((s.socket_events[j].key - 1) as usize),
    ensures
        s.accepts(reply),
        s.step(reply) == (
            (AgentState { phase: Phase::DrainingTimeouts, ..s }),
            Ok::<Action, E>(Action::DrainTimeouts),
        ),
{
    lemma_first_watched(s, from, s.socket_events.len() as int);
}

/// The agent waits for exactly the time that curl has asked for last, or for 100
/// milliseconds where that is less or curl asks for no time; whatever curl asked
/// for before makes no difference. The ready sockets of the last wait are
/// forgotten then, and nothing else.
pub proof fn law_wait_is_the_latest_timeout<E>(s: AgentState, timeouts: Vec<Option<u128>>)
    requires
        s.phase is DrainingTimeouts,
    ensures
        s.accepts(Reply::<E>::Timeouts(timeouts)),
        ({
            let n = timeouts@.len() as int;
            let (t, result) = s.step(Reply::<E>::Timeouts(timeouts));
            &&& result is Ok
            &&& result->Ok_0 is Wait
            &&& ({
                let timeout = result->Ok_0->Wait_timeout;
                &&& n == 0 ==> timeout == 100_000_000
                &&& n > 0 && timeouts@[n - 1] is None ==> timeout == 100_000_000
                &&& n > 0 && timeouts@[n - 1] is Some && timeouts@[n - 1]->0 >= 100_000_000
                    ==> timeout == 100_000_000
                &&& n > 0 && timeouts@[n - 1] is Some && timeouts@[n - 1]->0 < 100_000_000
                    ==> timeout == timeouts@[n - 1]->0
            })
            &&& t == AgentState {
                socket_events: Seq::<Event>::empty(),
                phase: Phase::Waiting,
                ..s
            }
        }),
{
}

/// How long to wait depends on the latest timeout alone: any two lists that end
/// in the same timeout ask for the same wait, and the wait is the lesser of this
/// timeout and 100 milliseconds.
pub proof fn law_only_the_latest_timeout_counts(
    a: Seq<Option<u128>>,
    b: Seq<Option<u128>>,
    latest: Option<u128>,
)
    ensures
        spec_wait_timeout(a.push(latest)) == spec_wait_timeout(b.push(latest)),
        spec_wait_timeout(Seq::<Option<u128>>::empty()) == 100_000_000,
        latest is None ==> spec_wait_timeout(a.push(latest)) == 100_000_000,
        latest is Some ==> spec_wait_timeout(a.push(latest)) <= latest->0,
        latest is Some ==> spec_wait_timeout(a.push(latest)) <= 100_000_000,
        latest is Some ==> spec_wait_timeout(a.push(latest)) == latest->0 || spec_wait_timeout(
            a.push(latest),
        ) == 100_000_000,
{
}

/// If a wait finds no socket ready, curl is told that its timeout has passed.
pub proof fn law_quiet_wait_notifies_curl<E>(s: AgentState, events: Vec<Event>)
    requires
        s.phase is Waiting,
        events@.len() == 0,
    ensures
        s.accepts(Reply::<E>::Events(events)),
        s.step(Reply::<E>::Events(events)) == (
            (AgentState { socket_events: events@, phase: Phase::Notifying, ..s }),
            Ok::<Action, E>(Action::NotifyTimeout),
        ),
{
}

/// Whether the agent goes on to tell curl of the ready sockets from index `from`
/// on, with `ready` as the state that has taken note of them: once a wait has
/// found some, or once curl knows of the one before.
pub open spec fn performs_from<E>(
    s: AgentState,
    reply: Reply<E>,
    ready: AgentState,
    from: int,
) -> bool {
    ||| (s.phase is Waiting && from == 0 && (reply matches Reply::Events(events) && events@.len()
        > 0 && ready == (AgentState { socket_events: events@, ..s })))
    ||| (ready == s && reply is Completed && s.phase == (Phase::Performing {
        next: from as usize,
    }))
}

/// Curl is told of the next ready socket that is watched: which socket it is, and
/// the directions in which it is ready. The agent takes note of all ready
/// sockets, and changes nothing else. Those that are no longer watched are passed
/// over.
pub proof fn law_curl_is_told_of_next_ready_socket<E>(
    s: AgentState,
    reply: Reply<E>,
    ready: AgentState,
    from: int,
    i: int,
)
    requires
        performs_from(s, reply, ready, from),
        0 <= from <= i < ready.socket_events.len() <= usize::MAX,
        forall|j: int| 0 <= j < ready.socket_events.len() ==> (#[trigger] ready.socket_events[j]).key
            > 0,
        s.sockets.entries.contains_key((ready.socket_events[i].key - 1) as usize),
        forall|j: int|
            from <= j < i ==> !s.sockets.entries.contains_key(
                ((#[trigger] ready.socket_events[j]).key - 1) as usize,
            ),
    ensures
        s.accepts(reply),
        s.step(reply) == (
            (AgentState { phase: Phase::Performing { next: (i + 1) as usize }, ..ready }),
            Ok::<Action, E>(
                Action::SocketAction {
                    socket: s.sockets.entries[(ready.socket_events[i].key - 1) as usize].socket,
                    readable: ready.socket_events[i].readable,
                    writable: ready.socket_events[i].writable,
                },
            ),
        ),
{
    lemma_first_watched(ready, from, i);
}

/// Once curl knows of all ready sockets that are watched, the agent turns to its
/// messages, with note taken of all ready sockets: it only looks for a message if
/// it has a transfer, and waits for one if it has none.
pub proof fn law_messages_follow_ready_sockets<E>(
    s: AgentState,
    reply: Reply<E>,
    ready: AgentState,
    from: int,
)
    requires
        performs_from(s, reply, ready, from),
        !s.close_requested,
        0 <= from <= ready.socket_events.len() <= usize::MAX,
        forall|j: int| 0 <= j < ready.socket_events.len() ==> (#[trigger] ready.socket_events[j]).key
            > 0,
        forall|j: int|
            from <= j < ready.socket_events.len() ==> !s.sockets.entries.contains_key(
                ((#[trigger] ready.socket_events[j]).key - 1) as usize,
            ),
    ensures
        s.accepts(reply),
        (forall|key: usize| !(#[trigger] s.requests.entries.contains_key(key))) ==> s.step(reply)
            == (
            (AgentState { phase: Phase::Receiving { blocking: true }, ..ready }),
            Ok::<Action, E>(Action::Receive),
        ),
        (exists|key: usize| #[trigger] s.requests.entries.contains_key(key)) ==> s.step(reply) == (
            (AgentState { phase: Phase::Receiving { blocking: false }, ..ready }),
            Ok::<Action, E>(Action::TryReceive),
        ),
{
    lemma_first_watched(ready, from, ready.socket_events.len() as int);
    lemma_is_empty(s.requests);
}

/// A failure stops the agent with the error, and changes nothing else, but for
/// three: the failure to resume a transfer is as good as its success, and so is
/// the failure to have the poller forget a socket; and a socket that could not be
/// registered with the poller by the first of two calls is registered by the
/// other one, with the same interest.
pub proof fn law_what_a_failure_does<E>(s: AgentState, error: E)
    requires
        s.accepts(Reply::Failed(error)),
        !s.close_requested,
    ensures
        ({
            let (t, result) = s.step(Reply::Failed(error));
            match s.phase {
                Phase::Unpausing => {
                    &&& (forall|key: usize| !(#[trigger] s.requests.entries.contains_key(key)))
                        ==> t == (AgentState { phase: Phase::Receiving { blocking: true }, ..s })
                        && result == Ok::<Action, E>(Action::Receive)
                    &&& (exists|key: usize| #[trigger] s.requests.entries.contains_key(key)) ==> t
                        == (AgentState { phase: Phase::Receiving { blocking: false }, ..s })
                        && result == Ok::<Action, E>(Action::TryReceive)
                },
                Phase::Deleting => t == (AgentState { phase: Phase::Updating, ..s }) && result
                    == Ok::<Action, E>(Action::NextSocketUpdate),
                Phase::Registering { socket, event, attempt: Attempt::Add, after } => t == (
                AgentState {
                    phase: Phase::Registering {
                        socket,
                        event,
                        attempt: Attempt::ModifyAfterAdd,
                        after,
                    },
                    ..s
                }) && result == Ok::<Action, E>(Action::PollerModify { socket, event }),
                Phase::Registering { socket, event, attempt: Attempt::Modify, after } => t == (
                AgentState {
                    phase: Phase::Registering {
                        socket,
                        event,
                        attempt: Attempt::AddAfterModify,
                        after,
                    },
                    ..s
                }) && result == Ok::<Action, E>(Action::PollerAdd { socket, event }),
                _ => t == (AgentState { phase: Phase::Stopped, ..s }) && result == Err::<
                    Action,
                    E,
                >(error),
            }
        }),
{
    lemma_is_empty(s.requests);
}

/// Which replies an agent goes on from is decided by the action that it has
/// handed out: an action is answered by what it brings, and only what can fail
/// is answered by a failure. What was handed out last decides it alone, but for
/// what curl reports and asks for and what the poller reports.
pub proof fn law_action_decides_replies<E>(s: AgentState, reply: Reply<E>, next: Reply<E>)
    requires
        s.wf(),
        s.options.len() <= usize::MAX,
        s.accepts(reply),
        s.step(reply).1 is Ok,
    ensures
        ({
            let (t, result) = s.step(reply);
            let action = result->Ok_0;
            match next {
                Reply::Message(_) => t.accepts(next) <==> action is Receive || action is TryReceive,
                Reply::Disconnected => t.accepts(next) <==> action is Receive || action
                    is TryReceive,
                Reply::NoMessage => t.accepts(next) <==> action is TryReceive,
                Reply::CurlMessages(_) => t.accepts(next) ==> action is CollectMessages,
                Reply::SocketUpdate(update) => if update.events.remove {
                    t.accepts(next) ==> action is NextSocketUpdate
                } else {
                    t.accepts(next) <==> action is NextSocketUpdate
                },
                Reply::NoSocketUpdate => t.accepts(next) <==> action is NextSocketUpdate,
                Reply::Timeouts(_) => t.accepts(next) <==> action is DrainTimeouts,
                Reply::Events(events) => t.accepts(next) <==> action is Wait && forall|i: int|
                    0 <= i < events@.len() ==> (#[trigger] events@[i]).key > 0,
                Reply::Failed(_) => t.accepts(next) <==> {
                    ||| action is SetOption
                    ||| action is InstallSocketFunction
                    ||| action is InstallTimerFunction
                    ||| action is AddHandle
                    ||| action is SetToken
                    ||| action is UnpauseRead
                    ||| action is UnpauseWrite
                    ||| action is NotifyTimeout
                    ||| action is RemoveHandle
                    ||| action is PollerDelete
                    ||| action is AssignSocket
                    ||| action is PollerAdd
                    ||| action is PollerModify
                    ||| action is Wait
                    ||| action is SocketAction
                },
                Reply::Completed => t.accepts(next) <==> {
                    ||| action is SetOption
                    ||| action is InstallSocketFunction
                    ||| action is InstallTimerFunction
                    ||| action is SignalReady
                    ||| action is InitHandler
                    ||| action is AddHandle
                    ||| action is SetToken
                    ||| action is UnpauseRead
                    ||| action is UnpauseWrite
                    ||| action is NotifyTimeout
                    ||| action is RemoveHandle
                    ||| action is DeliverResult && (t.completions.len() > 0
                        ==> t.requests.entries.contains_key(t.completions[0].0))
                    ||| action is PollerDelete
                    ||| action is AssignSocket
                    ||| action is PollerAdd
                    ||| action is PollerModify
                    ||| action is SocketAction
                },
            }
        }),
{
}

/// What the agent takes note of outlasts the steps that have no say in it: the
/// options stay always, the ready sockets until the next wait is prepared, the
/// watched sockets until curl asks for a change, and the reports that wait until
/// they are taken up.
pub proof fn law_what_steps_leave_alone<E>(s: AgentState, reply: Reply<E>)
    requires
        s.accepts(reply),
    ensures
        ({
            let (t, result) = s.step(reply);
            &&& t.options == s.options
            &&& !(reply is Timeouts) && !(reply is Events) ==> t.socket_events == s.socket_events
            &&& !(reply is SocketUpdate) ==> t.sockets == s.sockets
            &&& !(reply is CurlMessages) && !(s.phase is Delivering) ==> t.completions
                == s.completions
            &&& !(reply is CurlMessages) && !(s.phase is Delivering) && !(s.phase
                is SettingToken) && !(t.phase is Stopped) ==> t.requests == s.requests
        }),
{
}

} // verus!
