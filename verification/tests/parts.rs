use isahc_agent::agent::AgentContext;
use isahc_agent::builder::{agent_thread_name, take_agent_number, AgentBuilder, MultiOption};
use isahc_agent::handle::{
    Exit, Handle, JoinResult, SendAction, SendFailure, SendReply, Sending,
};
use isahc_agent::message::{wait_timeout, Message, SocketEvents, WAIT_TIMEOUT};
use isahc_agent::protocol::{Action, Reply};
use isahc_agent::queue::MultiMessages;
use isahc_agent::spawn::{SpawnAction, SpawnReply};
use isahc_agent::task::{
    JoinAction, JoinReply, Joining, ResumeAction, ResumeReply, Resuming,
};
use isahc_agent::util::MaybeSend;
use std::rc::Rc;

#[test]
fn default_builder_sets_no_option() {
    assert_eq!(AgentBuilder::default().multi_options(), vec![]);
}

#[test]
fn zero_limit_sets_no_option() {
    let builder = AgentBuilder::default()
        .max_connections(0)
        .max_connections_per_host(3)
        .connection_cache_size(0);
    assert_eq!(builder.multi_options(), vec![MultiOption::MaxHostConnections(3)]);
}

#[test]
fn later_limit_replaces_earlier_one() {
    let builder = AgentBuilder::default().max_connections(4).max_connections(9);
    assert_eq!(builder.multi_options(), vec![MultiOption::MaxTotalConnections(9)]);
}

#[test]
fn thread_names_carry_the_number() {
    assert_eq!(agent_thread_name(0), "isahc-agent-0");
    assert_eq!(agent_thread_name(9), "isahc-agent-9");
    assert_eq!(agent_thread_name(10), "isahc-agent-10");
    assert_eq!(agent_thread_name(123456780), "isahc-agent-123456780");
    assert_eq!(agent_thread_name(usize::MAX), format!("isahc-agent-{}", usize::MAX));
}

#[test]
fn wait_is_limited_to_the_latest_timeout() {
    assert_eq!(WAIT_TIMEOUT, 100_000_000);
    assert_eq!(wait_timeout(&vec![]), WAIT_TIMEOUT);
    assert_eq!(wait_timeout(&vec![None]), WAIT_TIMEOUT);
    assert_eq!(wait_timeout(&vec![Some(5), None]), WAIT_TIMEOUT);
    assert_eq!(wait_timeout(&vec![None, Some(5)]), 5);
    assert_eq!(wait_timeout(&vec![Some(0)]), 0);
    assert_eq!(wait_timeout(&vec![Some(100_000_000)]), WAIT_TIMEOUT);
    assert_eq!(wait_timeout(&vec![Some(99_999_999)]), 99_999_999);
    assert_eq!(wait_timeout(&vec![Some(u128::MAX)]), WAIT_TIMEOUT);
}

#[test]
fn interest_covers_both_directions() {
    let events = |input, output, input_and_output| SocketEvents {
        input,
        output,
        input_and_output,
        remove: false,
    };
    assert!(events(true, false, false).readable());
    assert!(!events(true, false, false).writable());
    assert!(events(false, true, false).writable());
    assert!(!events(false, true, false).readable());
    assert!(events(false, false, true).readable());
    assert!(events(false, false, true).writable());
}

#[test]
fn queue_is_first_in_first_out() {
    let mut queue = MultiMessages::new();
    assert_eq!(queue.pop(), None);
    queue.push((3, Ok(())));
    queue.push((1, Err(28)));
    assert_eq!(queue.pop(), Some((3, Ok(()))));
    queue.push((2, Ok(())));
    assert_eq!(queue.pop(), Some((1, Err(28))));
    assert_eq!(queue.pop(), Some((2, Ok(()))));
    assert_eq!(queue.pop(), None);
}

#[test]
fn numbers_count_up_and_start_again() {
    let mut counter = 7;
    assert_eq!(take_agent_number(&mut counter), 7);
    assert_eq!(counter, 8);
    assert_eq!(take_agent_number(&mut counter), 8);
    assert_eq!(counter, 9);
    counter = usize::MAX;
    assert_eq!(take_agent_number(&mut counter), usize::MAX);
    assert_eq!(counter, 0);
}

type Spawned = SpawnReply<&'static str>;

#[test]
fn agent_is_spawned_step_by_step() {
    let mut spawn = AgentBuilder::default().max_connections(8).spawn();
    assert!(matches!(spawn.step(Spawned::Completed), Ok(SpawnAction::InitCurl)));
    assert!(!spawn.accepts(&Spawned::Failed("curl cannot fail")));
    assert!(matches!(spawn.step(Spawned::Completed), Ok(SpawnAction::CreatePoller)));
    assert!(!spawn.accepts(&Spawned::Number(4)));
    assert!(matches!(spawn.step(Spawned::Completed), Ok(SpawnAction::TakeNumber)));
    assert!(!spawn.accepts(&Spawned::Completed));
    match spawn.step(Spawned::Number(41)) {
        Ok(SpawnAction::StartThread { name, mut agent }) => {
            assert_eq!(name, "isahc-agent-41");
            assert_eq!(
                agent.step(Reply::<&str>::Completed),
                Ok(Action::SetOption(MultiOption::MaxTotalConnections(8)))
            );
        }
        _ => panic!("the thread is not started"),
    }
    assert!(!spawn.accepts(&Spawned::Number(42)));
    assert!(matches!(spawn.step(Spawned::Completed), Ok(SpawnAction::WaitReady)));
    assert!(matches!(spawn.step(Spawned::Completed), Ok(SpawnAction::Finish)));
    assert!(!spawn.accepts(&Spawned::Completed));
}

#[test]
fn spawned_agents_have_different_names() {
    let mut counter = 0;
    let mut names = Vec::new();
    for _ in 0..12 {
        let mut spawn = AgentBuilder::default().spawn();
        for _ in 0..3 {
            assert!(spawn.step(Spawned::Completed).is_ok());
        }
        match spawn.step(Spawned::Number(take_agent_number(&mut counter))) {
            Ok(SpawnAction::StartThread { name, .. }) => names.push(name),
            _ => panic!("the thread is not started"),
        }
    }
    assert_eq!(names[0], "isahc-agent-0");
    assert_eq!(names[11], "isahc-agent-11");
    names.sort();
    names.dedup();
    assert_eq!(names.len(), 12);
}

#[test]
fn missing_poller_fails_the_spawning() {
    let mut spawn = AgentBuilder::default().spawn();
    assert!(spawn.step(Spawned::Completed).is_ok());
    assert!(spawn.step(Spawned::Completed).is_ok());
    assert!(spawn.accepts(&Spawned::Failed("no poller")));
    assert!(matches!(spawn.step(Spawned::Failed("no poller")), Err("no poller")));
    assert!(!spawn.accepts(&Spawned::Completed));
}

#[test]
fn missing_thread_fails_the_spawning() {
    let mut spawn = AgentBuilder::default().spawn();
    for _ in 0..3 {
        assert!(spawn.step(Spawned::Completed).is_ok());
    }
    assert!(spawn.step(Spawned::Number(0)).is_ok());
    assert!(matches!(spawn.step(Spawned::Failed("no thread")), Err("no thread")));
}

#[test]
fn thread_is_joined_once() {
    let mut handle = Handle::new("thread");
    assert_eq!(handle.try_join(), Some("thread"));
    assert_eq!(handle.try_join(), None);
}

#[test]
fn join_results_tell_how_the_thread_ended() {
    assert!(matches!(JoinResult::<u8>::from_exit(None), JoinResult::AlreadyJoined));
    assert!(matches!(
        JoinResult::<u8>::from_exit(Some(Exit::Returned(Ok(())))),
        JoinResult::Stopped
    ));
    assert!(matches!(
        JoinResult::from_exit(Some(Exit::Returned(Err(4u8)))),
        JoinResult::Failed(4)
    ));
    assert!(matches!(JoinResult::<u8>::from_exit(Some(Exit::Panicked)), JoinResult::Panic));
}

#[test]
fn sent_request_wakes_the_agent() {
    let mut sending = Sending::submit_request(77);
    assert!(matches!(
        sending.send_message(SendReply::<u8>::Begin),
        SendAction::Send(Message::Execute(77))
    ));
    assert!(!sending.accepts(&SendReply::<u8>::Woken));
    assert!(matches!(sending.send_message(SendReply::<u8>::Sent), SendAction::Wake));
    assert!(matches!(sending.send_message(SendReply::<u8>::Woken), SendAction::Return));
    assert!(!sending.accepts(&SendReply::<u8>::Begin));
}

#[test]
fn closing_joins_the_thread() {
    let mut sending = Sending::close();
    assert!(matches!(
        sending.send_message(SendReply::<u8>::Begin),
        SendAction::Send(Message::Close)
    ));
    assert!(matches!(sending.send_message(SendReply::<u8>::Sent), SendAction::Wake));
    assert!(matches!(sending.send_message(SendReply::<u8>::Woken), SendAction::Join));
    let joined = JoinResult::Failed(3u8);
    assert!(matches!(sending.send_message(SendReply::Joined(joined)), SendAction::Return));
}

#[test]
fn closing_a_dead_agent_returns() {
    let mut sending = Sending::close();
    assert!(matches!(sending.send_message(SendReply::<u8>::Begin), SendAction::Send(_)));
    assert!(matches!(sending.send_message(SendReply::<u8>::Disconnected), SendAction::Join));
    let joined = JoinResult::<u8>::Panic;
    assert!(matches!(sending.send_message(SendReply::Joined(joined)), SendAction::Join));
    let joined = JoinResult::<u8>::AlreadyJoined;
    assert!(matches!(sending.send_message(SendReply::Joined(joined)), SendAction::Return));
}

fn unsent(joined: JoinResult<u8>) -> SendAction<u8> {
    let mut sending = Sending::submit_request(77);
    assert!(matches!(sending.send_message(SendReply::<u8>::Begin), SendAction::Send(_)));
    assert!(matches!(sending.send_message(SendReply::<u8>::Disconnected), SendAction::Join));
    sending.send_message(SendReply::Joined(joined))
}

#[test]
fn unsent_request_fails_with_the_reason() {
    assert!(matches!(
        unsent(JoinResult::Failed(3)),
        SendAction::Fail(SendFailure::Terminated(3))
    ));
    assert!(matches!(unsent(JoinResult::Panic), SendAction::Fail(SendFailure::Panicked)));
    assert!(matches!(unsent(JoinResult::Stopped), SendAction::Fail(SendFailure::Premature)));
    assert!(matches!(
        unsent(JoinResult::AlreadyJoined),
        SendAction::Fail(SendFailure::Premature)
    ));
}

#[test]
fn blocked_thread_returns_the_first_output() {
    let mut joining = Joining::new();
    assert_eq!(joining.step(JoinReply::<u8>::Begin), JoinAction::Poll);
    for _ in 0..3 {
        assert_eq!(joining.step(JoinReply::<u8>::Polled(None)), JoinAction::Park);
        assert!(!joining.accepts(&JoinReply::Polled(Some(4u8))));
        assert_eq!(joining.step(JoinReply::<u8>::Unparked), JoinAction::Poll);
    }
    assert_eq!(joining.step(JoinReply::Polled(Some(5u8))), JoinAction::Return(5));
    assert!(!joining.accepts(&JoinReply::<u8>::Begin));
    assert!(!joining.accepts(&JoinReply::<u8>::Unparked));
    assert!(!joining.accepts(&JoinReply::Polled(Some(6u8))));
}

#[test]
fn sent_resumption_wakes_the_agent_once() {
    let mut resuming = Resuming::new(Message::UnpauseRead(6));
    assert_eq!(
        resuming.step(ResumeReply::Begin),
        ResumeAction::Send(Message::UnpauseRead(6))
    );
    assert!(!resuming.accepts(&ResumeReply::Woken));
    assert_eq!(resuming.step(ResumeReply::Sent), ResumeAction::WakeAgent);
    assert_eq!(resuming.step(ResumeReply::Woken), ResumeAction::Return);
    assert!(!resuming.accepts(&ResumeReply::Begin));
}

#[test]
fn unsent_resumption_does_not_wake_the_agent() {
    let mut resuming = Resuming::new(Message::UnpauseWrite(6));
    assert_eq!(
        resuming.step(ResumeReply::Begin),
        ResumeAction::Send(Message::UnpauseWrite(6))
    );
    assert_eq!(resuming.step(ResumeReply::Disconnected), ResumeAction::Return);
    assert!(!resuming.accepts(&ResumeReply::Woken));
}

fn require_send<T: Send>() {}

fn require_sync<T: Sync>() {}

#[test]
fn agent_and_its_messages_can_move_to_a_thread() {
    require_send::<Message>();
    require_send::<AgentContext>();
    require_send::<Handle<u8>>();
    require_sync::<Handle<u8>>();
}

#[test]
fn maybe_send_holds_its_value() {
    let mut value: MaybeSend<u8, Vec<u8>> = MaybeSend::new(vec![1, 2]);
    assert_eq!(value.len(), 2);
    value.push(3);
    assert_eq!(*value, vec![1, 2, 3]);
    let tagged: MaybeSend<Rc<u8>, u8> = MaybeSend::new_unchecked(9);
    assert_eq!(*tagged, 9);
}
