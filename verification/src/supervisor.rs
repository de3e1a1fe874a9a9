//! Connection supervisor: the lifecycle of one streaming connection as
//! a pure state machine.
//!
//! The unverified shell performs each returned action (connect, send
//! the subscription, read a frame, wait out the retry delay) and feeds
//! the outcome back as the next event. Every transport failure is
//! non-fatal: it sends the machine back to `Disconnected`, from which
//! the connection is retried after a fixed delay, forever.

use vstd::prelude::*;

verus! {

/// Fixed delay between reconnection attempts.
pub const RECONNECT_DELAY_SECS: u64 = 5;

#[derive(Clone, Copy, Debug, PartialEq, Eq, Structural)]
pub enum ConnectionState {
    /// Waiting out the retry delay after a failure.
    Disconnected,
    /// A connection attempt is in flight.
    Connecting,
    /// Connected; the subscription request is being sent.
    Subscribed,
    /// Subscription sent; frames are being read and dispatched.
    Streaming,
}

#[derive(Clone, Copy, Debug, PartialEq, Eq, Structural)]
pub enum ConnectionEvent {
    RetryElapsed,
    ConnectSucceeded,
    ConnectFailed,
    SubscribeSent,
    SubscribeSendFailed,
    TextFrame,
    BinaryFrame,
    ReadFailed,
    StreamEnded,
    KeepAliveFailed,
}

#[derive(Clone, Copy, Debug, PartialEq, Eq, Structural)]
pub enum SupervisorAction {
    /// Attempt a connection now.
    Connect,
    /// Send the subscription request over the new connection.
    SendSubscribe,
    /// Read the next frame and dispatch it.
    AwaitFrame,
    /// Wait the fixed reconnect delay, then report `RetryElapsed`.
    RetryAfterDelay,
}

/// The supervisor's transition function. Any unexpected pairing of
/// state and event is treated as a failure: back to `Disconnected`.
pub open spec fn supervisor_step_spec(s: ConnectionState, e: ConnectionEvent) -> (
    ConnectionState,
    SupervisorAction,
) {
    match (s, e) {
        (ConnectionState::Disconnected, ConnectionEvent::RetryElapsed) => (
            ConnectionState::Connecting,
            SupervisorAction::Connect,
        ),
        (ConnectionState::Connecting, ConnectionEvent::ConnectSucceeded) => (
            ConnectionState::Subscribed,
            SupervisorAction::SendSubscribe,
        ),
        (ConnectionState::Connecting, ConnectionEvent::ConnectFailed) => (
            ConnectionState::Disconnected,
            SupervisorAction::RetryAfterDelay,
        ),
        (ConnectionState::Subscribed, ConnectionEvent::SubscribeSent) => (
            ConnectionState::Streaming,
            SupervisorAction::AwaitFrame,
        ),
        (ConnectionState::Subscribed, ConnectionEvent::SubscribeSendFailed) => (
            ConnectionState::Disconnected,
            SupervisorAction::RetryAfterDelay,
        ),
        (ConnectionState::Streaming, ConnectionEvent::TextFrame) => (
            ConnectionState::Streaming,
            SupervisorAction::AwaitFrame,
        ),
        (ConnectionState::Streaming, ConnectionEvent::BinaryFrame) => (
            ConnectionState::Streaming,
            SupervisorAction::AwaitFrame,
        ),
        _ => (ConnectionState::Disconnected, SupervisorAction::RetryAfterDelay),
    }
}

/// One supervisor step, exactly as `supervisor_step_spec` says.
pub fn supervisor_step(s: ConnectionState, e: ConnectionEvent) -> (r: (
    ConnectionState,
    SupervisorAction,
))
    ensures
        r == supervisor_step_spec(s, e),
{
    match (s, e) {
        (ConnectionState::Disconnected, ConnectionEvent::RetryElapsed) => (
            ConnectionState::Connecting,
            SupervisorAction::Connect,
        ),
        (ConnectionState::Connecting, ConnectionEvent::ConnectSucceeded) => (
            ConnectionState::Subscribed,
            SupervisorAction::SendSubscribe,
        ),
        (ConnectionState::Connecting, ConnectionEvent::ConnectFailed) => (
            ConnectionState::Disconnected,
            SupervisorAction::RetryAfterDelay,
        ),
        (ConnectionState::Subscribed, ConnectionEvent::SubscribeSent) => (
            ConnectionState::Streaming,
            SupervisorAction::AwaitFrame,
        ),
        (ConnectionState::Subscribed, ConnectionEvent::SubscribeSendFailed) => (
            ConnectionState::Disconnected,
            SupervisorAction::RetryAfterDelay,
        ),
        (ConnectionState::Streaming, ConnectionEvent::TextFrame) => (
            ConnectionState::Streaming,
            SupervisorAction::AwaitFrame,
        ),
        (ConnectionState::Streaming, ConnectionEvent::BinaryFrame) => (
            ConnectionState::Streaming,
            SupervisorAction::AwaitFrame,
        ),
        _ => (ConnectionState::Disconnected, SupervisorAction::RetryAfterDelay),
    }
}

/// The supervisor starts by attempting a connection.
pub fn supervisor_start() -> (r: (ConnectionState, SupervisorAction))
    ensures
        r.0 == ConnectionState::Connecting,
        r.1 == SupervisorAction::Connect,
{
    (ConnectionState::Connecting, SupervisorAction::Connect)
}

/// The state reached and the actions emitted after a sequence of
/// events, starting from the initial connection attempt.
pub open spec fn supervisor_run(events: Seq<ConnectionEvent>) -> (
    ConnectionState,
    Seq<SupervisorAction>,
)
    decreases events.len(),
{
    if events.len() == 0 {
        (ConnectionState::Connecting, seq![SupervisorAction::Connect])
    } else {
        let prev = supervisor_run(events.drop_last());
        let step = supervisor_step_spec(prev.0, events.last());
        (step.0, prev.1.push(step.1))
    }
}

/// How many connection attempts a run of actions makes.
pub open spec fn connect_count(acts: Seq<SupervisorAction>) -> int
    decreases acts.len(),
{
    if acts.len() == 0 {
        0
    } else {
        connect_count(acts.drop_last()) + if acts.last() == SupervisorAction::Connect {
            1int
        } else {
            0int
        }
    }
}

/// The events of `n` consecutive connect failures, each followed by the
/// retry delay running out.
pub open spec fn failure_rounds(n: nat) -> Seq<ConnectionEvent>
    decreases n,
{
    if n == 0 {
        Seq::empty()
    } else {
        failure_rounds((n - 1) as nat) + seq![
            ConnectionEvent::ConnectFailed,
            ConnectionEvent::RetryElapsed,
        ]
    }
}

/// A delay always stands right before a retry's connection attempt.
pub open spec fn delayed_retries(acts: Seq<SupervisorAction>) -> bool {
    forall|k: int|
        0 < k < acts.len() && #[trigger] acts[k] == SupervisorAction::Connect ==> acts[k - 1]
            == SupervisorAction::RetryAfterDelay
}

proof fn lemma_delayed_push(acts: Seq<SupervisorAction>, a: SupervisorAction)
    requires
        delayed_retries(acts),
        a == SupervisorAction::Connect ==> acts.len() > 0 && acts.last()
            == SupervisorAction::RetryAfterDelay,
    ensures
        delayed_retries(acts.push(a)),
{
    let acts2 = acts.push(a);
    assert forall|k: int|
        0 < k < acts2.len() && #[trigger] acts2[k] == SupervisorAction::Connect implies acts2[k
        - 1] == SupervisorAction::RetryAfterDelay by {
        if k < acts.len() {
            assert(acts2[k] == acts[k]);
            assert(acts2[k - 1] == acts[k - 1]);
        } else {
            assert(acts2[k] == a);
            assert(acts2[k - 1] == acts[k - 1]);
        }
    }
}

#[verifier::rlimit(100)]
proof fn lemma_failure_rounds_run(n: nat)
    ensures
        ({
            let run = supervisor_run(failure_rounds(n));
            &&& run.0 == ConnectionState::Connecting
            &&& connect_count(run.1) == n + 1
            &&& delayed_retries(run.1)
            &&& run.1.len() > 0
            &&& run.1.last() == SupervisorAction::Connect
        }),
    decreases n,
{
    if n == 0 {
        let s1 = seq![SupervisorAction::Connect];
        assert(s1.drop_last() =~= Seq::<SupervisorAction>::empty());
        assert(connect_count(Seq::<SupervisorAction>::empty()) == 0);
        assert(s1.last() == SupervisorAction::Connect);
        assert(connect_count(s1) == 1);
    } else {
        lemma_failure_rounds_run((n - 1) as nat);
        let es0 = failure_rounds((n - 1) as nat);
        let es = failure_rounds(n);
        let es1 = es0 + seq![ConnectionEvent::ConnectFailed];
        assert(es.drop_last() =~= es1);
        assert(es1.drop_last() =~= es0);
        assert(es1.last() == ConnectionEvent::ConnectFailed);
        assert(es.last() == ConnectionEvent::RetryElapsed);
        let r0 = supervisor_run(es0);
        let r1 = supervisor_run(es1);
        let r2 = supervisor_run(es);
        assert(r1.0 == ConnectionState::Disconnected);
        assert(r1.1 == r0.1.push(SupervisorAction::RetryAfterDelay));
        assert(r2.0 == ConnectionState::Connecting);
        assert(r2.1 == r1.1.push(SupervisorAction::Connect));
        assert(r1.1.drop_last() =~= r0.1);
        assert(r2.1.drop_last() =~= r1.1);
        assert(connect_count(r1.1) == connect_count(r0.1));
        assert(connect_count(r2.1) == connect_count(r1.1) + 1);
        lemma_delayed_push(r0.1, SupervisorAction::RetryAfterDelay);
        assert(r1.1.last() == SupervisorAction::RetryAfterDelay);
        lemma_delayed_push(r1.1, SupervisorAction::Connect);
        assert(r2.1.last() == SupervisorAction::Connect);
    }
}

/// Under `n` consecutive connect failures the supervisor makes exactly
/// `n + 1` connection attempts, each retry preceded by the fixed delay,
/// and reaches `Streaming` once a connection and its subscription
/// succeed.
#[verifier::rlimit(100)]
pub proof fn lemma_reconnect_attempts(n: nat)
    ensures
        ({
            let run = supervisor_run(
                failure_rounds(n) + seq![
                    ConnectionEvent::ConnectSucceeded,
                    ConnectionEvent::SubscribeSent,
                ],
            );
            &&& run.0 == ConnectionState::Streaming
            &&& connect_count(run.1) == n + 1
            &&& delayed_retries(run.1)
        }),
{
    lemma_failure_rounds_run(n);
    let es0 = failure_rounds(n);
    let es1 = es0 + seq![ConnectionEvent::ConnectSucceeded];
    let es = es0 + seq![ConnectionEvent::ConnectSucceeded, ConnectionEvent::SubscribeSent];
    assert(es.drop_last() =~= es1);
    assert(es1.drop_last() =~= es0);
    assert(es1.last() == ConnectionEvent::ConnectSucceeded);
    assert(es.last() == ConnectionEvent::SubscribeSent);
    let r0 = supervisor_run(es0);
    let r1 = supervisor_run(es1);
    let r2 = supervisor_run(es);
    assert(r1.0 == ConnectionState::Subscribed);
    assert(r2.0 == ConnectionState::Streaming);
    assert(r1.1.drop_last() =~= r0.1);
    assert(r2.1.drop_last() =~= r1.1);
    assert(connect_count(r1.1) == connect_count(r0.1));
    assert(connect_count(r2.1) == connect_count(r1.1));
    lemma_delayed_push(r0.1, SupervisorAction::SendSubscribe);
    lemma_delayed_push(r1.1, SupervisorAction::AwaitFrame);
}

} // verus!
