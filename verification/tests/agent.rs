use isahc_agent::agent::AgentContext;
use isahc_agent::builder::{AgentBuilder, MultiOption};
use isahc_agent::message::{CurlMessage, Event, Message, SocketEvents, SocketUpdate};
use isahc_agent::protocol::{Action, Reply};

type Outcome = Result<Action, &'static str>;

fn step(agent: &mut AgentContext, reply: Reply<&'static str>) -> Outcome {
    assert!(agent.accepts(&reply), "{:?} is not accepted", reply);
    agent.step(reply)
}

fn done(agent: &mut AgentContext) -> Outcome {
    step(agent, Reply::Completed)
}

/// An agent that waits for its first message.
fn started() -> AgentContext {
    let mut agent = AgentContext::new(AgentBuilder::default().multi_options());
    assert_eq!(done(&mut agent), Ok(Action::InstallSocketFunction));
    assert_eq!(done(&mut agent), Ok(Action::InstallTimerFunction));
    assert_eq!(done(&mut agent), Ok(Action::SignalReady));
    assert_eq!(done(&mut agent), Ok(Action::Receive));
    agent
}

/// Begins a transfer, which gets the given identifier.
fn begin(agent: &mut AgentContext, handle: usize, id: usize) {
    assert_eq!(
        step(agent, Reply::Message(Message::Execute(handle))),
        Ok(Action::InitHandler {
            handle,
            id,
            on_read: Message::UnpauseRead(id),
            on_write: Message::UnpauseWrite(id),
        })
    );
    assert_eq!(done(agent), Ok(Action::AddHandle { handle }));
    assert_eq!(done(agent), Ok(Action::SetToken { handle, token: id }));
    assert_eq!(done(agent), Ok(Action::NotifyTimeout));
    assert_eq!(done(agent), Ok(Action::TryReceive));
}

fn finished(token: usize, result: Result<(), u32>) -> CurlMessage {
    CurlMessage { result: Some(result), token: Some(token) }
}

/// Goes from the messages to the socket updates, with nothing finished.
fn to_updates(agent: &mut AgentContext) {
    assert_eq!(step(agent, Reply::NoMessage), Ok(Action::CollectMessages));
    assert_eq!(step(agent, Reply::CurlMessages(vec![])), Ok(Action::NextSocketUpdate));
}

fn events(input: bool, output: bool, input_and_output: bool, remove: bool) -> SocketEvents {
    SocketEvents { input, output, input_and_output, remove }
}

fn update(socket: i64, events: SocketEvents, key: usize) -> Reply<&'static str> {
    Reply::SocketUpdate(SocketUpdate { socket, events, key })
}

fn event(key: usize, readable: bool, writable: bool) -> Event {
    Event { key, readable, writable }
}

/// Has a new readable socket watched, which gets the given key.
fn watch(agent: &mut AgentContext, socket: i64, key: usize) {
    assert_eq!(
        step(agent, update(socket, events(true, false, false, false), 0)),
        Ok(Action::AssignSocket { socket, key })
    );
    assert_eq!(done(agent), Ok(Action::PollerAdd { socket, event: event(key, true, false) }));
    assert_eq!(done(agent), Ok(Action::NextSocketUpdate));
}

#[test]
fn options_are_set_first_and_in_order() {
    let builder = AgentBuilder::default()
        .connection_cache_size(7)
        .max_connections(5)
        .max_connections_per_host(6);
    let mut agent = AgentContext::new(builder.multi_options());
    assert_eq!(done(&mut agent), Ok(Action::SetOption(MultiOption::MaxTotalConnections(5))));
    assert_eq!(done(&mut agent), Ok(Action::SetOption(MultiOption::MaxHostConnections(6))));
    assert_eq!(done(&mut agent), Ok(Action::SetOption(MultiOption::MaxConnects(7))));
    assert_eq!(done(&mut agent), Ok(Action::InstallSocketFunction));
}

#[test]
fn failed_option_stops_the_agent() {
    let builder = AgentBuilder::default().max_connections(5);
    let mut agent = AgentContext::new(builder.multi_options());
    assert!(!agent.accepts(&Reply::Failed("early")));
    assert_eq!(done(&mut agent), Ok(Action::SetOption(MultiOption::MaxTotalConnections(5))));
    assert_eq!(step(&mut agent, Reply::Failed("bad option")), Err("bad option"));
    assert!(!agent.accepts(&Reply::<&str>::Completed));
}

#[test]
fn close_stops_the_agent() {
    let mut agent = started();
    assert_eq!(step(&mut agent, Reply::Message(Message::Close)), Ok(Action::Stop));
    assert!(!agent.accepts(&Reply::<&str>::Completed));
    assert!(!agent.accepts(&Reply::<&str>::Message(Message::Close)));
}

#[test]
fn close_stops_a_busy_agent() {
    let mut agent = started();
    begin(&mut agent, 1000, 0);
    assert_eq!(step(&mut agent, Reply::Message(Message::Close)), Ok(Action::Stop));
}

#[test]
fn disconnected_handles_stop_the_agent() {
    let mut agent = started();
    assert!(!agent.accepts(&Reply::<&str>::NoMessage));
    assert_eq!(step(&mut agent, Reply::Disconnected), Ok(Action::Stop));
}

#[test]
fn transfers_get_distinct_identifiers() {
    let mut agent = started();
    begin(&mut agent, 1000, 0);
    begin(&mut agent, 2000, 1);
    begin(&mut agent, 3000, 2);
}

#[test]
fn failed_transfer_start_stops_the_agent() {
    let mut agent = started();
    assert!(step(&mut agent, Reply::Message(Message::Execute(1000))).is_ok());
    assert!(!agent.accepts(&Reply::Failed("init cannot fail")));
    assert_eq!(done(&mut agent), Ok(Action::AddHandle { handle: 1000 }));
    assert_eq!(step(&mut agent, Reply::Failed("add")), Err("add"));
}

#[test]
fn failed_token_stops_the_agent() {
    let mut agent = started();
    assert!(step(&mut agent, Reply::Message(Message::Execute(1000))).is_ok());
    assert_eq!(done(&mut agent), Ok(Action::AddHandle { handle: 1000 }));
    assert_eq!(done(&mut agent), Ok(Action::SetToken { handle: 1000, token: 0 }));
    assert_eq!(step(&mut agent, Reply::Failed("token")), Err("token"));
}

#[test]
fn resume_reaches_its_transfer() {
    let mut agent = started();
    begin(&mut agent, 1000, 0);
    begin(&mut agent, 2000, 1);
    assert_eq!(
        step(&mut agent, Reply::Message(Message::UnpauseRead(1))),
        Ok(Action::UnpauseRead { handle: 2000 })
    );
    assert_eq!(done(&mut agent), Ok(Action::TryReceive));
    assert_eq!(
        step(&mut agent, Reply::Message(Message::UnpauseWrite(0))),
        Ok(Action::UnpauseWrite { handle: 1000 })
    );
    assert_eq!(step(&mut agent, Reply::Failed("ignored")), Ok(Action::TryReceive));
}

#[test]
fn resume_of_unknown_transfer_is_passed_over() {
    let mut agent = started();
    assert_eq!(step(&mut agent, Reply::Message(Message::UnpauseRead(0))), Ok(Action::Receive));
    assert_eq!(step(&mut agent, Reply::Message(Message::UnpauseWrite(9))), Ok(Action::Receive));
    begin(&mut agent, 1000, 0);
    assert_eq!(step(&mut agent, Reply::Message(Message::UnpauseRead(1))), Ok(Action::TryReceive));
}

#[test]
fn finished_transfers_are_completed_in_order() {
    let mut agent = started();
    begin(&mut agent, 1000, 0);
    begin(&mut agent, 2000, 1);
    begin(&mut agent, 3000, 2);
    assert_eq!(step(&mut agent, Reply::NoMessage), Ok(Action::CollectMessages));
    let messages = vec![
        finished(2, Ok(())),
        CurlMessage { result: None, token: Some(1) },
        CurlMessage { result: Some(Err(7)), token: None },
        finished(0, Err(28)),
    ];
    assert_eq!(
        step(&mut agent, Reply::CurlMessages(messages)),
        Ok(Action::RemoveHandle { handle: 3000 })
    );
    assert_eq!(
        done(&mut agent),
        Ok(Action::DeliverResult { handle: 3000, result: Ok(()) })
    );
    assert_eq!(done(&mut agent), Ok(Action::RemoveHandle { handle: 1000 }));
    assert_eq!(
        done(&mut agent),
        Ok(Action::DeliverResult { handle: 1000, result: Err(28) })
    );
    assert_eq!(done(&mut agent), Ok(Action::NextSocketUpdate));
}

#[test]
fn vacated_identifiers_are_reused_last_first() {
    let mut agent = started();
    begin(&mut agent, 1000, 0);
    begin(&mut agent, 2000, 1);
    begin(&mut agent, 3000, 2);
    assert_eq!(step(&mut agent, Reply::NoMessage), Ok(Action::CollectMessages));
    let messages = vec![finished(0, Ok(())), finished(1, Ok(()))];
    assert!(step(&mut agent, Reply::CurlMessages(messages)).is_ok());
    for _ in 0..4 {
        assert!(done(&mut agent).is_ok());
    }
    assert_eq!(step(&mut agent, Reply::NoSocketUpdate), Ok(Action::DrainTimeouts));
    assert!(step(&mut agent, Reply::Timeouts(vec![])).is_ok());
    assert_eq!(step(&mut agent, Reply::Events(vec![])), Ok(Action::NotifyTimeout));
    assert_eq!(done(&mut agent), Ok(Action::TryReceive));
    begin(&mut agent, 4000, 1);
    begin(&mut agent, 5000, 0);
    begin(&mut agent, 6000, 3);
}

#[test]
fn agent_blocks_again_after_its_last_transfer() {
    let mut agent = started();
    begin(&mut agent, 1000, 0);
    assert_eq!(step(&mut agent, Reply::NoMessage), Ok(Action::CollectMessages));
    assert!(step(&mut agent, Reply::CurlMessages(vec![finished(0, Ok(()))])).is_ok());
    assert!(done(&mut agent).is_ok());
    assert_eq!(done(&mut agent), Ok(Action::NextSocketUpdate));
    assert_eq!(step(&mut agent, Reply::NoSocketUpdate), Ok(Action::DrainTimeouts));
    assert!(step(&mut agent, Reply::Timeouts(vec![])).is_ok());
    assert_eq!(step(&mut agent, Reply::Events(vec![])), Ok(Action::NotifyTimeout));
    assert_eq!(done(&mut agent), Ok(Action::Receive));
    assert_eq!(step(&mut agent, Reply::Message(Message::UnpauseRead(0))), Ok(Action::Receive));
}

#[test]
fn failed_removal_stops_the_agent() {
    let mut agent = started();
    begin(&mut agent, 1000, 0);
    assert_eq!(step(&mut agent, Reply::NoMessage), Ok(Action::CollectMessages));
    assert!(step(&mut agent, Reply::CurlMessages(vec![finished(0, Ok(()))])).is_ok());
    assert_eq!(step(&mut agent, Reply::Failed("remove")), Err("remove"));
}

#[test]
fn impossible_completions_are_not_accepted() {
    let mut agent = started();
    begin(&mut agent, 1000, 0);
    assert_eq!(step(&mut agent, Reply::NoMessage), Ok(Action::CollectMessages));
    assert!(!agent.accepts(&Reply::<&str>::CurlMessages(vec![finished(1, Ok(()))])));
    assert!(agent.accepts(&Reply::<&str>::CurlMessages(vec![
        CurlMessage { result: None, token: Some(5) },
        finished(0, Ok(())),
    ])));
    let messages = vec![finished(0, Ok(())), finished(0, Ok(()))];
    assert_eq!(
        step(&mut agent, Reply::CurlMessages(messages)),
        Ok(Action::RemoveHandle { handle: 1000 })
    );
    assert!(done(&mut agent).is_ok());
    assert!(!agent.accepts(&Reply::<&str>::Completed));
}

#[test]
fn idle_turn_comes_back() {
    let mut agent = started();
    begin(&mut agent, 1000, 0);
    to_updates(&mut agent);
    assert_eq!(step(&mut agent, Reply::NoSocketUpdate), Ok(Action::DrainTimeouts));
    assert_eq!(
        step(&mut agent, Reply::Timeouts(vec![])),
        Ok(Action::Wait { timeout: 100_000_000 })
    );
    assert_eq!(step(&mut agent, Reply::Events(vec![])), Ok(Action::NotifyTimeout));
    assert_eq!(done(&mut agent), Ok(Action::TryReceive));
}

#[test]
fn latest_timeout_counts() {
    let mut agent = started();
    begin(&mut agent, 1000, 0);
    to_updates(&mut agent);
    assert_eq!(step(&mut agent, Reply::NoSocketUpdate), Ok(Action::DrainTimeouts));
    let timeouts = vec![Some(1), None, Some(25_000_000)];
    assert_eq!(
        step(&mut agent, Reply::Timeouts(timeouts)),
        Ok(Action::Wait { timeout: 25_000_000 })
    );
    assert_eq!(step(&mut agent, Reply::Failed("wait")), Err("wait"));
}

#[test]
fn new_sockets_get_keys_from_one_on() {
    let mut agent = started();
    begin(&mut agent, 1000, 0);
    to_updates(&mut agent);
    watch(&mut agent, 40, 1);
    watch(&mut agent, 41, 2);
    assert_eq!(
        step(&mut agent, update(42, events(false, false, true, false), 0)),
        Ok(Action::AssignSocket { socket: 42, key: 3 })
    );
    assert_eq!(
        done(&mut agent),
        Ok(Action::PollerAdd { socket: 42, event: event(3, true, true) })
    );
}

#[test]
fn socket_that_cannot_be_added_is_modified() {
    let mut agent = started();
    begin(&mut agent, 1000, 0);
    to_updates(&mut agent);
    assert!(step(&mut agent, update(40, events(false, true, false, false), 0)).is_ok());
    assert_eq!(
        done(&mut agent),
        Ok(Action::PollerAdd { socket: 40, event: event(1, false, true) })
    );
    assert_eq!(
        step(&mut agent, Reply::Failed("add")),
        Ok(Action::PollerModify { socket: 40, event: event(1, false, true) })
    );
    assert_eq!(done(&mut agent), Ok(Action::NextSocketUpdate));
}

#[test]
fn socket_that_cannot_be_registered_stops_the_agent() {
    let mut agent = started();
    begin(&mut agent, 1000, 0);
    to_updates(&mut agent);
    assert!(step(&mut agent, update(40, events(true, false, false, false), 0)).is_ok());
    assert!(done(&mut agent).is_ok());
    assert!(step(&mut agent, Reply::Failed("add")).is_ok());
    assert_eq!(step(&mut agent, Reply::Failed("modify")), Err("modify"));
}

#[test]
fn failed_assignment_stops_the_agent() {
    let mut agent = started();
    begin(&mut agent, 1000, 0);
    to_updates(&mut agent);
    assert!(step(&mut agent, update(40, events(true, false, false, false), 0)).is_ok());
    assert_eq!(step(&mut agent, Reply::Failed("assign")), Err("assign"));
}

#[test]
fn changed_interest_is_handed_on() {
    let mut agent = started();
    begin(&mut agent, 1000, 0);
    to_updates(&mut agent);
    watch(&mut agent, 40, 1);
    assert_eq!(
        step(&mut agent, update(40, events(false, true, false, false), 1)),
        Ok(Action::PollerModify { socket: 40, event: event(1, false, true) })
    );
    assert_eq!(
        step(&mut agent, Reply::Failed("modify")),
        Ok(Action::PollerAdd { socket: 40, event: event(1, false, true) })
    );
    assert_eq!(done(&mut agent), Ok(Action::NextSocketUpdate));
}

#[test]
fn unknown_socket_is_passed_over() {
    let mut agent = started();
    begin(&mut agent, 1000, 0);
    to_updates(&mut agent);
    assert_eq!(
        step(&mut agent, update(40, events(true, false, false, false), 3)),
        Ok(Action::NextSocketUpdate)
    );
}

#[test]
fn removed_socket_is_forgotten_and_its_key_reused() {
    let mut agent = started();
    begin(&mut agent, 1000, 0);
    to_updates(&mut agent);
    watch(&mut agent, 40, 1);
    watch(&mut agent, 41, 2);
    assert_eq!(
        step(&mut agent, update(40, events(false, false, false, true), 1)),
        Ok(Action::PollerDelete { socket: 40 })
    );
    assert_eq!(step(&mut agent, Reply::Failed("ignored")), Ok(Action::NextSocketUpdate));
    assert!(!agent.accepts(&update(40, events(false, false, false, true), 1)));
    assert!(!agent.accepts(&update(40, events(false, false, false, true), 0)));
    assert!(agent.accepts(&update(41, events(false, false, false, true), 2)));
    watch(&mut agent, 43, 1);
    watch(&mut agent, 44, 3);
}

#[test]
fn ready_sockets_are_reported_and_rearmed() {
    let mut agent = started();
    begin(&mut agent, 1000, 0);
    to_updates(&mut agent);
    watch(&mut agent, 40, 1);
    watch(&mut agent, 41, 2);
    watch(&mut agent, 42, 3);
    assert_eq!(step(&mut agent, Reply::NoSocketUpdate), Ok(Action::DrainTimeouts));
    assert!(step(&mut agent, Reply::Timeouts(vec![])).is_ok());
    assert!(!agent.accepts(&Reply::<&str>::Events(vec![event(0, true, true)])));
    let ready = vec![
        event(3, true, false),
        event(9, true, true),
        event(1, false, true),
        event(2, true, false),
    ];
    assert_eq!(
        step(&mut agent, Reply::Events(ready)),
        Ok(Action::SocketAction { socket: 42, readable: true, writable: false })
    );
    assert_eq!(
        done(&mut agent),
        Ok(Action::SocketAction { socket: 40, readable: false, writable: true })
    );
    assert_eq!(
        done(&mut agent),
        Ok(Action::SocketAction { socket: 41, readable: true, writable: false })
    );
    assert_eq!(done(&mut agent), Ok(Action::TryReceive));

    // One of them is forgotten, and the interest in another one changes.
    to_updates(&mut agent);
    assert!(step(&mut agent, update(40, events(false, false, false, true), 1)).is_ok());
    assert!(done(&mut agent).is_ok());
    assert!(step(&mut agent, update(42, events(false, true, false, false), 3)).is_ok());
    assert!(done(&mut agent).is_ok());
    assert_eq!(
        step(&mut agent, Reply::NoSocketUpdate),
        Ok(Action::PollerModify { socket: 42, event: event(3, false, true) })
    );
    assert_eq!(
        step(&mut agent, Reply::Failed("modify")),
        Ok(Action::PollerAdd { socket: 42, event: event(3, false, true) })
    );
    assert_eq!(
        done(&mut agent),
        Ok(Action::PollerModify { socket: 41, event: event(2, true, false) })
    );
    assert_eq!(done(&mut agent), Ok(Action::DrainTimeouts));

    // They are rearmed once only.
    assert!(step(&mut agent, Reply::Timeouts(vec![])).is_ok());
    assert_eq!(step(&mut agent, Reply::Events(vec![])), Ok(Action::NotifyTimeout));
    assert!(done(&mut agent).is_ok());
    to_updates(&mut agent);
    assert_eq!(step(&mut agent, Reply::NoSocketUpdate), Ok(Action::DrainTimeouts));
}

#[test]
fn failed_socket_action_stops_the_agent() {
    let mut agent = started();
    begin(&mut agent, 1000, 0);
    to_updates(&mut agent);
    watch(&mut agent, 40, 1);
    assert_eq!(step(&mut agent, Reply::NoSocketUpdate), Ok(Action::DrainTimeouts));
    assert!(step(&mut agent, Reply::Timeouts(vec![])).is_ok());
    assert!(step(&mut agent, Reply::Events(vec![event(1, true, false)])).is_ok());
    assert_eq!(step(&mut agent, Reply::Failed("action")), Err("action"));
}

#[test]
fn failed_timeout_notification_stops_the_agent() {
    let mut agent = started();
    begin(&mut agent, 1000, 0);
    to_updates(&mut agent);
    assert_eq!(step(&mut agent, Reply::NoSocketUpdate), Ok(Action::DrainTimeouts));
    assert!(step(&mut agent, Reply::Timeouts(vec![])).is_ok());
    assert_eq!(step(&mut agent, Reply::Events(vec![])), Ok(Action::NotifyTimeout));
    assert_eq!(step(&mut agent, Reply::Failed("timeout")), Err("timeout"));
}

#[test]
fn ready_event_of_no_watched_socket_leads_back_to_messages() {
    let mut agent = started();
    begin(&mut agent, 1000, 0);
    to_updates(&mut agent);
    assert_eq!(step(&mut agent, Reply::NoSocketUpdate), Ok(Action::DrainTimeouts));
    assert!(step(&mut agent, Reply::Timeouts(vec![])).is_ok());
    assert_eq!(
        step(&mut agent, Reply::Events(vec![event(5, true, false)])),
        Ok(Action::TryReceive)
    );
}

#[test]
fn removed_socket_leaves_the_others_as_they_were() {
    let mut agent = started();
    begin(&mut agent, 1000, 0);
    to_updates(&mut agent);
    watch(&mut agent, 50, 1);
    watch(&mut agent, 60, 2);
    for both in [true, false] {
        assert_eq!(
            step(&mut agent, update(60, events(true, false, both, false), 2)),
            Ok(Action::PollerModify { socket: 60, event: event(2, true, both) })
        );
        assert_eq!(done(&mut agent), Ok(Action::NextSocketUpdate));
    }
    assert_eq!(
        step(&mut agent, update(60, events(false, false, false, true), 2)),
        Ok(Action::PollerDelete { socket: 60 })
    );
    assert_eq!(done(&mut agent), Ok(Action::NextSocketUpdate));
    assert!(!agent.accepts(&update(60, events(false, false, false, true), 2)));
    assert_eq!(
        step(&mut agent, update(60, events(true, false, false, false), 2)),
        Ok(Action::NextSocketUpdate)
    );
    assert_eq!(
        step(&mut agent, update(50, events(false, true, false, false), 1)),
        Ok(Action::PollerModify { socket: 50, event: event(1, false, true) })
    );
}
