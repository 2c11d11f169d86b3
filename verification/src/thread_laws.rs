//! What holds of the agent's thread as others see it: how it is configured,
//! spawned, sent messages to, woken up and joined; and of a thread that blocks on
//! a task.
use crate::builder::{decimal, digit, next_number, thread_name, Limits, MultiOption};
use crate::handle::{
    send_failure, Exit, Handle, JoinResult, SendAction, SendFailure, SendReply, Sending,
};
use crate::laws::{can_drive, drive, law_start_order};
use crate::model::AgentState;
use crate::protocol::Action;
use crate::spawn::{SpawnAction, SpawnPhase, SpawnReply, SpawnState};
use crate::task::{
    join_accepts, join_next, JoinAction, JoinPhase, JoinReply, ResumeAction, ResumeReply, Resuming,
};
use vstd::prelude::*;

verus! {

/// A limit of 0 sets no option, and any other limit sets the option of its own.
pub proof fn law_zero_limit_sets_no_option(limits: Limits, n: usize)
    ensures
        limits.options().contains(MultiOption::MaxTotalConnections(n)) <==> n > 0 && n
            == limits.max_connections,
        limits.options().contains(MultiOption::MaxHostConnections(n)) <==> n > 0 && n
            == limits.max_connections_per_host,
        limits.options().contains(MultiOption::MaxConnects(n)) <==> n > 0 && n
            == limits.connection_cache_size,
{
    let options = limits.options();
    let total: int = if limits.max_connections > 0 {
        1
    } else {
        0
    };
    let host: int = if limits.max_connections_per_host > 0 {
        1
    } else {
        0
    };
    if limits.max_connections > 0 {
        assert(options[0] == MultiOption::MaxTotalConnections(limits.max_connections));
    }
    if limits.max_connections_per_host > 0 {
        assert(options[total] == MultiOption::MaxHostConnections(limits.max_connections_per_host));
    }
    if limits.connection_cache_size > 0 {
        assert(options[total + host] == MultiOption::MaxConnects(limits.connection_cache_size));
    }
}

/// The options are the limits that are not 0, each once: first the one on all
/// connections, then the one on those to a host, then the size of the cache.
pub proof fn law_options_are_the_limits_in_order(limits: Limits)
    ensures
        ({
            let options = limits.options();
            let total: int = if limits.max_connections > 0 { 1 } else { 0 };
            let host: int = if limits.max_connections_per_host > 0 { 1 } else { 0 };
            let cache: int = if limits.connection_cache_size > 0 { 1 } else { 0 };
            &&& options.len() == total + host + cache
            &&& total == 1 ==> options[0] == MultiOption::MaxTotalConnections(
                limits.max_connections,
            )
            &&& host == 1 ==> options[total] == MultiOption::MaxHostConnections(
                limits.max_connections_per_host,
            )
            &&& cache == 1 ==> options[total + host] == MultiOption::MaxConnects(
                limits.connection_cache_size,
            )
        }),
{
}

/// The agent that is started for a builder applies all of the builder's limits:
/// if nothing fails, it sets each limit that is not 0, and no other option, then
/// has curl report its sockets and its timeouts, signals its start, and waits for
/// its first message.
pub proof fn law_spawned_agent_applies_limits<E>(
    s: SpawnState,
    number: usize,
    next: SpawnState,
    action: SpawnAction,
)
    requires
        s.phase is TakingNumber,
        next == (SpawnState { phase: s.next_phase(SpawnReply::<E>::Number(number)), ..s }),
        next.is_action(action),
    ensures
        action is StartThread,
        ({
            let limits = s.limits;
            let agent = action->StartThread_agent@;
            let total: int = if limits.max_connections > 0 { 1 } else { 0 };
            let host: int = if limits.max_connections_per_host > 0 { 1 } else { 0 };
            let cache: int = if limits.connection_cache_size > 0 { 1 } else { 0 };
            let n = total + host + cache;
            let actions = drive(agent, (n + 4) as nat).1;
            &&& action->StartThread_agent.wf()
            &&& agent == AgentState::init(limits.options())
            &&& can_drive(agent, (n + 4) as nat)
            &&& actions.len() == n + 4
            &&& total == 1 ==> actions[0] == Action::SetOption(
                MultiOption::MaxTotalConnections(limits.max_connections),
            )
            &&& host == 1 ==> actions[total] == Action::SetOption(
                MultiOption::MaxHostConnections(limits.max_connections_per_host),
            )
            &&& cache == 1 ==> actions[total + host] == Action::SetOption(
                MultiOption::MaxConnects(limits.connection_cache_size),
            )
            &&& actions[n] == Action::InstallSocketFunction
            &&& actions[n + 1] == Action::InstallTimerFunction
            &&& actions[n + 2] == Action::SignalReady
            &&& actions[n + 3] == Action::Receive
        }),
{
    law_options_are_the_limits_in_order(s.limits);
    law_start_order(s.limits.options());
}

/// A message that reaches the agent also wakes the agent up, and sending it
/// succeeds; if it asks the agent to close, only after the agent's thread was
/// joined.
pub proof fn law_sent_message_wakes_agent<E>(s: Sending, joined: JoinResult<E>)
    requires
        s.phase is New,
    ensures
        ({
            let (p1, a1) = s.next(SendReply::<E>::Begin);
            let s1 = Sending { phase: p1, ..s };
            let (p2, a2) = s1.next(SendReply::<E>::Sent);
            let s2 = Sending { phase: p2, ..s };
            let (p3, a3) = s2.next(SendReply::<E>::Woken);
            let s3 = Sending { phase: p3, ..s };
            let (p4, a4) = s3.next(SendReply::<E>::Joined(joined));
            &&& a1 == SendAction::<E>::Send(s.message)
            &&& a2 is Wake
            &&& !(s.message is Close) ==> a3 is Return && p3 is Finished
            &&& s.message is Close ==> a3 is Join && a4 is Return && p4 is Finished
        }),
{
}

/// A message that cannot reach the agent is answered with the reason that
/// joining the agent's thread brings to light.
pub proof fn law_unsent_message_fails<E>(s: Sending, joined: JoinResult<E>)
    requires
        s.phase is Sending,
        !(s.message is Close),
    ensures
        ({
            let (p1, a1) = s.next(SendReply::<E>::Disconnected);
            let s1 = Sending { phase: p1, ..s };
            let (p2, a2) = s1.next(SendReply::Joined(joined));
            &&& a1 is Join
            &&& a2 == SendAction::Fail(send_failure(joined))
            &&& p2 is Finished
            &&& joined matches JoinResult::Failed(error) ==> a2 == SendAction::Fail(
                SendFailure::Terminated(error),
            )
            &&& joined is Panic ==> a2 == SendAction::Fail(SendFailure::<E>::Panicked)
            &&& joined is Stopped || joined is AlreadyJoined ==> a2 == SendAction::Fail(
                SendFailure::<E>::Premature,
            )
        }),
{
}

/// Closing an agent that is gone already does not fail: its thread is joined, and
/// once more as at every close, whatever comes of it.
pub proof fn law_closing_never_fails<E>(s: Sending, first: JoinResult<E>, second: JoinResult<E>)
    requires
        s.phase is Sending,
        s.message is Close,
    ensures
        ({
            let (p1, a1) = s.next(SendReply::<E>::Disconnected);
            let s1 = Sending { phase: p1, ..s };
            let (p2, a2) = s1.next(SendReply::Joined(first));
            let s2 = Sending { phase: p2, ..s };
            let (p3, a3) = s2.next(SendReply::Joined(second));
            &&& a1 is Join
            &&& a2 is Join
            &&& a3 is Return
            &&& p3 is Finished
        }),
{
}

/// Whoever sends a message goes on only from an answer to what was asked for
/// last.
pub proof fn law_sender_accepts_answers<E>(s: Sending, reply: SendReply<E>, next: SendReply<E>)
    requires
        s.spec_accepts(reply),
    ensures
        s.phase is New ==> reply is Begin,
        ({
            let (phase, action) = s.next(reply);
            let t = Sending { phase, ..s };
            match action {
                SendAction::Send(_) => t.spec_accepts(next) <==> next is Sent || next
                    is Disconnected,
                SendAction::Wake => t.spec_accepts(next) <==> next is Woken,
                SendAction::Join => t.spec_accepts(next) <==> next is Joined,
                SendAction::Return => !t.spec_accepts(next),
                SendAction::Fail(_) => !t.spec_accepts(next),
            }
        }),
{
}

/// A message that is about to be sent can be.
pub proof fn law_sending_can_begin<E>(s: Sending)
    requires
        s.phase is New,
    ensures
        s.spec_accepts(SendReply::<E>::Begin),
{
}

/// What comes of joining a thread says how the thread has ended.
pub proof fn law_join_tells_how_thread_ended<E>(exit: Option<Exit<E>>)
    ensures
        exit is None <==> JoinResult::of(exit) is AlreadyJoined,
        exit == Some(Exit::<E>::Panicked) <==> JoinResult::of(exit) is Panic,
        (exit matches Some(Exit::Returned(result)) && result is Ok) <==> JoinResult::of(
            exit,
        ) is Stopped,
        exit matches Some(Exit::Returned(Err(error))) ==> JoinResult::of(exit)
            == JoinResult::Failed(error),
{
}

/// The thread of an agent is joined once: whoever tries again learns that.
pub proof fn law_thread_is_joined_once<J, E>(
    before: Handle<J>,
    between: Handle<J>,
    after: Handle<J>,
    first: Option<J>,
    second: Option<J>,
)
    requires
        before.joins(between, first),
        between.joins(after, second),
    ensures
        first == before.joinable(),
        second is None,
        after.joinable() is None,
        JoinResult::<E>::of(None::<Exit<E>>) is AlreadyJoined,
{
}

/// How far the spawning of an agent has come.
pub open spec fn spawn_rank(phase: SpawnPhase) -> int {
    match phase {
        SpawnPhase::New => 0,
        SpawnPhase::InitializingCurl => 1,
        SpawnPhase::CreatingPoller => 2,
        SpawnPhase::TakingNumber => 3,
        SpawnPhase::StartingThread { .. } => 4,
        SpawnPhase::AwaitingReady => 5,
        SpawnPhase::Finished => 6,
    }
}

/// The steps of spawning an agent come one after the other, each of them once.
/// Only the creation of the poller and the start of the thread can fail the
/// spawning, which is then over.
pub proof fn law_spawn_order<E>(s: SpawnState, reply: SpawnReply<E>)
    requires
        s.accepts(reply),
    ensures
        ({
            let next = s.next_phase(reply);
            &&& reply is Failed ==> (s.phase is CreatingPoller || s.phase is StartingThread)
                && next is Finished
            &&& !(reply is Failed) ==> spawn_rank(next) == spawn_rank(s.phase) + 1
        }),
{
}

/// A spawning agent has one thread started: in the step after it was given its
/// number, and under the name of this number.
pub proof fn law_one_named_thread<E>(
    s: SpawnState,
    reply: SpawnReply<E>,
    next: SpawnState,
    action: SpawnAction,
)
    requires
        s.accepts(reply),
        next == (SpawnState { phase: s.next_phase(reply), ..s }),
        next.is_action(action),
    ensures
        action is StartThread <==> reply is Number,
        reply matches SpawnReply::Number(number) ==> action->StartThread_name@ == thread_name(
            number as nat,
        ),
{
}

/// Each step of spawning an agent can be done; only the creation of the poller
/// and the start of the thread can fail; and only the agent's number is a number.
pub proof fn law_spawning_accepts_answers<E>(s: SpawnState, reply: SpawnReply<E>)
    ensures
        reply is Completed ==> (s.accepts(reply) <==> s.phase is New || s.phase is InitializingCurl
            || s.phase is CreatingPoller || s.phase is StartingThread || s.phase is AwaitingReady),
        reply is Failed ==> (s.accepts(reply) <==> s.phase is CreatingPoller || s.phase
            is StartingThread),
        reply is Number ==> (s.accepts(reply) <==> s.phase is TakingNumber),
{
}

/// What is done in each step of spawning an agent, and in which order.
pub proof fn law_what_spawning_does<E>(
    s: SpawnState,
    reply: SpawnReply<E>,
    next: SpawnState,
    action: SpawnAction,
)
    requires
        next == (SpawnState { phase: s.next_phase(reply), ..s }),
        next.is_action(action),
    ensures
        reply is Completed && s.phase is New ==> action is InitCurl,
        reply is Completed && s.phase is InitializingCurl ==> action is CreatePoller,
        reply is Completed && s.phase is CreatingPoller ==> action is TakeNumber,
        reply is Completed && s.phase is StartingThread ==> action is WaitReady,
        reply is Completed && s.phase is AwaitingReady ==> action is Finish,
        reply matches SpawnReply::Number(number) ==> next.phase == (SpawnPhase::StartingThread {
            number,
        }),
{
}

/// The state of a spawning agent after a sequence of replies.
pub open spec fn spawn_run<E>(s: SpawnState, replies: Seq<SpawnReply<E>>) -> SpawnState
    decreases replies.len(),
{
    if replies.len() == 0 {
        s
    } else {
        let t = spawn_run(s, replies.drop_last());
        SpawnState { phase: t.next_phase(replies.last()), ..t }
    }
}

/// Whether a spawning agent accepts each of a sequence of replies in turn.
pub open spec fn spawn_accepts_all<E>(s: SpawnState, replies: Seq<SpawnReply<E>>) -> bool
    decreases replies.len(),
{
    if replies.len() == 0 {
        true
    } else {
        &&& spawn_accepts_all(s, replies.drop_last())
        &&& spawn_run(s, replies.drop_last()).accepts(replies.last())
    }
}

/// Spawning an agent takes one number, in answer to the third step, and with it
/// has one thread started. It is over when a step has failed or the sixth was
/// handed out.
pub proof fn law_spawning_takes_one_number<E>(limits: Limits, replies: Seq<SpawnReply<E>>)
    requires
        spawn_accepts_all(SpawnState { limits, phase: SpawnPhase::New }, replies),
    ensures
        ({
            let t = spawn_run(SpawnState { limits, phase: SpawnPhase::New }, replies);
            &&& t.limits == limits
            &&& t.phase is Finished || spawn_rank(t.phase) == replies.len()
            &&& replies.len() <= 6
            &&& forall|i: int|
                0 <= i < replies.len() ==> ((#[trigger] replies[i]) is Number <==> i == 3)
        }),
    decreases replies.len(),
{
    if replies.len() > 0 {
        let before = replies.drop_last();
        law_spawning_takes_one_number(limits, before);
        assert forall|i: int| 0 <= i < replies.len() implies ((#[trigger] replies[i]) is Number
            <==> i == 3) by {
            if i < before.len() {
                assert(before[i] == replies[i]);
            }
        }
    }
}

/// The counter of agents after `n` numbers were taken from it.
pub open spec fn number_after(start: usize, n: nat) -> usize
    decreases n,
{
    if n == 0 {
        start
    } else {
        next_number(number_after(start, (n - 1) as nat))
    }
}

/// Taking numbers twice is taking them once.
proof fn lemma_number_after_add(start: usize, m: nat, n: nat)
    ensures
        number_after(start, m + n) == number_after(number_after(start, m), n),
    decreases n,
{
    if n > 0 {
        lemma_number_after_add(start, m, (n - 1) as nat);
    }
}

/// The counter goes up by one, and starts again after the greatest number.
proof fn lemma_number_after(start: usize, n: nat)
    requires
        n <= usize::MAX,
    ensures
        number_after(start, n) == if start + n <= usize::MAX {
            start + n
        } else {
            start + n - usize::MAX - 1
        },
    decreases n,
{
    if n > 0 {
        lemma_number_after(start, (n - 1) as nat);
    }
}

/// The counter goes up by one with each number that is taken, and starts again at
/// 0 after the greatest number.
pub proof fn law_numbers_count_up(number: usize)
    ensures
        number < usize::MAX ==> next_number(number) == number + 1,
        number == usize::MAX ==> next_number(number) == 0,
{
}

/// Any two agents have threads with different names, as long as the counter has
/// not come round between them: the agents spawned after `m` and after `n`
/// others are numbered one apart for each agent between them.
pub proof fn law_spawned_agents_have_different_names(start: usize, m: nat, n: nat)
    requires
        m < n <= m + usize::MAX,
    ensures
        start + n <= usize::MAX ==> number_after(start, n) == start + n,
        thread_name(number_after(start, m) as nat) != thread_name(
            number_after(start, n) as nat,
        ),
{
    let first = number_after(start, m);
    lemma_number_after_add(start, m, (n - m) as nat);
    lemma_number_after(first, (n - m) as nat);
    law_thread_names_differ(first as nat, number_after(start, n) as nat);
    if start + n <= usize::MAX {
        lemma_number_after(start, n);
    }
}

/// Numbers with the same decimal notation are equal.
proof fn lemma_decimal_is_injective(m: nat, n: nat)
    requires
        decimal(m) == decimal(n),
    ensures
        m == n,
    decreases m,
{
    let a = decimal(m);
    let b = decimal(n);
    assert(a.last() == digit(m % 10));
    assert(b.last() == digit(n % 10));
    assert(m % 10 == n % 10);
    if m >= 10 || n >= 10 {
        assert(decimal(m / 10).len() > 0);
        assert(decimal(n / 10).len() > 0);
        if m >= 10 && n >= 10 {
            assert(a.drop_last() =~= decimal(m / 10));
            assert(b.drop_last() =~= decimal(n / 10));
            lemma_decimal_is_injective(m / 10, n / 10);
        } else {
            assert(a.len() == b.len());
        }
    }
}

/// Agents with different numbers have threads with different names.
pub proof fn law_thread_names_differ(m: nat, n: nat)
    requires
        m != n,
    ensures
        thread_name(m) != thread_name(n),
{
    let prefix = "isahc-agent-"@;
    if prefix + decimal(m) == prefix + decimal(n) {
        assert(decimal(m) =~= (prefix + decimal(m)).skip(prefix.len() as int));
        assert(decimal(n) =~= (prefix + decimal(n)).skip(prefix.len() as int));
        lemma_decimal_is_injective(m, n);
    }
}

/// The replies to a thread that blocks on a task, whose polls bring `polls` and
/// which is woken after each poll that finds the task pending.
pub open spec fn join_replies<T>(polls: Seq<Option<T>>) -> Seq<JoinReply<T>>
    decreases polls.len(),
{
    if polls.len() == 0 {
        seq![JoinReply::Begin]
    } else {
        let before = join_replies(polls.drop_last());
        let reply = JoinReply::Polled(polls.last());
        if polls.last() is None {
            before.push(reply).push(JoinReply::Unparked)
        } else {
            before.push(reply)
        }
    }
}

/// The phase of a thread that blocks on a task, after a sequence of replies.
pub open spec fn join_phase<T>(replies: Seq<JoinReply<T>>) -> JoinPhase {
    if replies.len() == 0 {
        JoinPhase::New
    } else {
        join_next(replies.last()).0
    }
}

/// Whether a thread that blocks on a task accepts each of a sequence of replies
/// in turn.
pub open spec fn join_accepts_all<T>(replies: Seq<JoinReply<T>>) -> bool {
    forall|i: int|
        0 <= i < replies.len() ==> join_accepts(
            join_phase(replies.take(i)),
            #[trigger] replies[i],
        )
}

/// What a thread that blocks on a task does, in order, given a sequence of
/// replies.
pub open spec fn join_actions<T>(replies: Seq<JoinReply<T>>) -> Seq<JoinAction<T>> {
    replies.map_values(|reply: JoinReply<T>| join_next(reply).1)
}

/// A poll of a task, followed by `n` times a sleep and another poll.
pub open spec fn poll_and_sleep<T>(n: nat) -> Seq<JoinAction<T>>
    decreases n,
{
    if n == 0 {
        seq![JoinAction::Poll]
    } else {
        poll_and_sleep((n - 1) as nat).push(JoinAction::Park).push(JoinAction::Poll)
    }
}

/// One reply more.
proof fn lemma_join_push<T>(replies: Seq<JoinReply<T>>, reply: JoinReply<T>)
    requires
        join_accepts_all(replies),
        join_accepts(join_phase(replies), reply),
    ensures
        join_accepts_all(replies.push(reply)),
        join_actions(replies.push(reply)) == join_actions(replies).push(join_next(reply).1),
        join_phase(replies.push(reply)) == join_next(reply).0,
{
    let more = replies.push(reply);
    assert forall|i: int| 0 <= i < more.len() implies join_accepts(
        join_phase(more.take(i)),
        #[trigger] more[i],
    ) by {
        assert(more.take(i) =~= replies.take(i));
        if i < replies.len() {
            assert(join_accepts(join_phase(replies.take(i)), replies[i]));
        } else {
            assert(replies.take(i) =~= replies);
        }
    }
    assert(join_actions(more) =~= join_actions(replies).push(join_next(reply).1));
}

/// A thread that blocks on a task which is pending at the first `n` polls has
/// polled it once more than that, and has slept between any two polls.
proof fn lemma_join_pending<T>(polls: Seq<Option<T>>)
    requires
        forall|i: int| 0 <= i < polls.len() ==> polls[i] is None,
    ensures
        join_accepts_all(join_replies(polls)),
        join_phase(join_replies(polls)) is Polling,
        join_actions(join_replies(polls)) == poll_and_sleep::<T>(polls.len()),
    decreases polls.len(),
{
    let replies = join_replies(polls);
    if polls.len() == 0 {
        assert(replies.take(0) =~= Seq::empty());
        assert(join_actions(replies) =~= seq![JoinAction::<T>::Poll]);
    } else {
        lemma_join_pending(polls.drop_last());
        let before = join_replies(polls.drop_last());
        let reply = JoinReply::<T>::Polled(None);
        lemma_join_push(before, reply);
        lemma_join_push(before.push(reply), JoinReply::Unparked);
    }
}

/// A thread that blocks on a task which is pending at the first `n` polls, and is
/// then ready, polls it `n + 1` times, sleeps once between any two polls, returns
/// the first output that a poll brings, and does not poll the task after that.
pub proof fn law_join_returns_first_output<T>(polls: Seq<Option<T>>, output: T)
    requires
        forall|i: int| 0 <= i < polls.len() ==> polls[i] is None,
    ensures
        ({
            let replies = join_replies(polls.push(Some(output)));
            &&& join_accepts_all(replies)
            &&& join_phase(replies) is Finished
            &&& join_actions(replies) == poll_and_sleep(polls.len()).push(
                JoinAction::Return(output),
            )
            &&& forall|reply: JoinReply<T>| !join_accepts(JoinPhase::Finished, reply)
        }),
{
    lemma_join_pending(polls);
    assert(polls.push(Some(output)).drop_last() =~= polls);
    lemma_join_push(join_replies(polls), JoinReply::Polled(Some(output)));
}

/// Each wake of a waker that resumes a transfer sends the waker's message once.
/// If the message was sent, the agent is then woken up once; if the agent is
/// gone, nothing more happens.
pub proof fn law_wake_sends_and_wakes(s: Resuming)
    requires
        s.phase is New,
    ensures
        ({
            let (p1, a1) = s.next(ResumeReply::Begin);
            let s1 = Resuming { phase: p1, ..s };
            let (p2, a2) = s1.next(ResumeReply::Sent);
            let s2 = Resuming { phase: p2, ..s };
            let (p3, a3) = s2.next(ResumeReply::Woken);
            let (q2, b2) = s1.next(ResumeReply::Disconnected);
            &&& s.spec_accepts(ResumeReply::Begin)
            &&& a1 == ResumeAction::Send(s.message)
            &&& forall|reply: ResumeReply| #[trigger]
                s1.spec_accepts(reply) <==> reply is Sent || reply is Disconnected
            &&& a2 == ResumeAction::WakeAgent
            &&& forall|reply: ResumeReply| #[trigger] s2.spec_accepts(reply) <==> reply is Woken
            &&& a3 == ResumeAction::Return && p3 is Finished
            &&& b2 == ResumeAction::Return && q2 is Finished
        }),
{
}

/// The number that decimal digits stand for.
pub open spec fn number_of(digits: Seq<char>) -> int
    decreases digits.len(),
{
    if digits.len() == 0 {
        0
    } else {
        10 * number_of(digits.drop_last()) + (digits.last() as int - '0' as int)
    }
}

/// A number in decimal notation consists of digits, begins with 0 only if it is
/// 0, and stands for the number.
proof fn lemma_decimal_stands_for_number(n: nat)
    ensures
        decimal(n).len() > 0,
        forall|i: int| 0 <= i < decimal(n).len() ==> '0' <= #[trigger] decimal(n)[i] <= '9',
        decimal(n)[0] == '0' ==> n == 0,
        n == 0 ==> decimal(n).len() == 1,
        number_of(decimal(n)) == n,
    decreases n,
{
    let digits = decimal(n);
    if n < 10 {
        assert(digits.drop_last() =~= Seq::empty());
        assert(number_of(digits.drop_last()) == 0);
        assert(digits.last() == digit(n));
    } else {
        assert(digits.last() == digit(n % 10));
        lemma_decimal_stands_for_number(n / 10);
        assert(digits.drop_last() =~= decimal(n / 10));
        assert(digits[0] == decimal(n / 10)[0]);
    }
}

/// The name of an agent's thread is the word for the agent, and then its number
/// in decimal notation without a leading zero.
pub proof fn law_thread_name_spells_number(number: nat)
    ensures
        ({
            let name = thread_name(number);
            let digits = name.skip(12);
            &&& name.len() > 12
            &&& name.take(12) == seq!['i', 's', 'a', 'h', 'c', '-', 'a', 'g', 'e', 'n', 't', '-']
            &&& forall|i: int| 0 <= i < digits.len() ==> '0' <= #[trigger] digits[i] <= '9'
            &&& digits[0] == '0' ==> digits.len() == 1
            &&& number_of(digits) == number
        }),
{
    reveal_strlit("isahc-agent-");
    lemma_decimal_stands_for_number(number);
    assert(thread_name(number).skip(12) =~= decimal(number));
    assert(thread_name(number).take(12) =~= seq![
        'i', 's', 'a', 'h', 'c', '-', 'a', 'g', 'e', 'n', 't', '-',
    ]);
}

/// A thread that blocks on a task goes on only from an answer to what it did
/// last.
pub proof fn law_blocked_thread_accepts_answers<T>(reply: JoinReply<T>, next: JoinReply<T>)
    ensures
        join_accepts(JoinPhase::New, next) <==> next is Begin,
        ({
            let (phase, action) = join_next(reply);
            match action {
                JoinAction::Poll => join_accepts(phase, next) <==> next is Polled,
                JoinAction::Park => join_accepts(phase, next) <==> next is Unparked,
                JoinAction::Return(_) => !join_accepts(phase, next),
            }
        }),
{
}

/// One wake of a waker goes on only from an answer to what it did last.
pub proof fn law_wake_accepts_answers(s: Resuming, reply: ResumeReply, next: ResumeReply)
    requires
        s.spec_accepts(reply),
    ensures
        s.phase is New <==> reply is Begin,
        ({
            let (phase, action) = s.next(reply);
            let t = Resuming { phase, ..s };
            match action {
                ResumeAction::Send(message) => message == s.message && (t.spec_accepts(next)
                    <==> next is Sent || next is Disconnected),
                ResumeAction::WakeAgent => t.spec_accepts(next) <==> next is Woken,
                ResumeAction::Return => !t.spec_accepts(next),
            }
        }),
{
}

} // verus!
