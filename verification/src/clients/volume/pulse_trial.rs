//! A trial connection to the sound server, which lists its sinks.

use super::pulse::common::ContextState;
use vstd::prelude::*;

verus! {

/// The name under which the server knows the application.
pub const APPLICATION_NAME: &'static str = "ironbar";

/// The name under which the server knows the connection.
pub const CONTEXT_NAME: &'static str = "ironbar_context";

/// A request to the server's main loop, or to whoever makes the trial.
#[derive(Clone, Copy, Debug, PartialEq, Eq, Structural)]
pub enum TrialAction {
    /// Make a main loop and a context in it.
    Make,
    /// Have the main loop woken when the connection settles.
    WatchState,
    /// Connect the context to the server.
    Connect,
    /// Report that the last request failed.
    ReportError,
    /// Print which server the context is for.
    PrintServer,
    /// Take the main loop's lock.
    Lock,
    /// Start the main loop.
    Start,
    /// Tell the state of the connection.
    ReadState,
    /// Wait until the main loop is woken.
    Wait,
    /// Give the main loop's lock back.
    Unlock,
    /// Stop the main loop.
    Stop,
    /// Report that the connection failed or ended.
    ReportFailure,
    /// Stop watching the connection.
    UnwatchState,
    /// Print the server's sinks.
    PrintSinks,
}

/// How far the trial has come.
#[derive(Clone, Copy, Debug, PartialEq, Eq, Structural)]
pub enum TrialPhase {
    Connecting,
    Starting,
    Waiting,
    Done,
}

/// What came of the last request.
#[derive(Clone, Copy, Debug, PartialEq, Eq, Structural)]
pub enum TrialEvent {
    /// Whether the context began to connect.
    Connected(bool),
    /// Whether the main loop started.
    Started(bool),
    /// The state of the connection.
    State(ContextState),
}

impl TrialPhase {
    /// Whether the event answers what was asked last.
    pub open spec fn expects(self, event: TrialEvent) -> bool {
        match self {
            TrialPhase::Connecting => event is Connected,
            TrialPhase::Starting => event is Started,
            TrialPhase::Waiting => event is State,
            TrialPhase::Done => false,
        }
    }

    /// The phase that an answer leads to. A request that fails does not end the
    /// trial, nor does a connection that does.
    pub open spec fn next(self, event: TrialEvent) -> TrialPhase {
        match event {
            TrialEvent::Connected(_) => TrialPhase::Starting,
            TrialEvent::Started(_) => TrialPhase::Waiting,
            TrialEvent::State(state) => if state is Ready {
                TrialPhase::Done
            } else {
                TrialPhase::Waiting
            },
        }
    }

    /// What is asked after an answer.
    pub open spec fn requests(self, event: TrialEvent) -> Seq<TrialAction> {
        match event {
            TrialEvent::Connected(connected) => {
                let rest = seq![TrialAction::PrintServer, TrialAction::Lock, TrialAction::Start];
                if connected {
                    rest
                } else {
                    seq![TrialAction::ReportError] + rest
                }
            },
            TrialEvent::Started(started) => if started {
                seq![TrialAction::ReadState]
            } else {
                seq![TrialAction::ReportError, TrialAction::ReadState]
            },
            TrialEvent::State(state) => if state is Ready {
                seq![TrialAction::UnwatchState, TrialAction::PrintSinks]
            } else if state.over() {
                seq![
                    TrialAction::Unlock,
                    TrialAction::Stop,
                    TrialAction::ReportFailure,
                    TrialAction::ReadState,
                ]
            } else {
                seq![TrialAction::Wait, TrialAction::ReadState]
            },
        }
    }
}

/// Begins the trial.
pub fn test() -> (begun: (TrialPhase, Vec<TrialAction>))
    ensures
        begun.0 == TrialPhase::Connecting,
        begun.1@ == seq![TrialAction::Make, TrialAction::WatchState, TrialAction::Connect],
{
    let mut actions: Vec<TrialAction> = Vec::new();
    actions.push(TrialAction::Make);
    actions.push(TrialAction::WatchState);
    actions.push(TrialAction::Connect);
    assert(actions@ =~= seq![TrialAction::Make, TrialAction::WatchState, TrialAction::Connect]);
    (TrialPhase::Connecting, actions)
}

/// Goes on with the trial after an answer.
pub fn advance(phase: TrialPhase, event: TrialEvent) -> (advanced: (
    TrialPhase,
    Vec<TrialAction>,
))
    requires
        phase.expects(event),
    ensures
        advanced.0 == phase.next(event),
        advanced.1@ == phase.requests(event),
{
    let mut actions: Vec<TrialAction> = Vec::new();
    let next: TrialPhase = match event {
        TrialEvent::Connected(connected) => {
            if !connected {
                actions.push(TrialAction::ReportError);
            }
            actions.push(TrialAction::PrintServer);
            actions.push(TrialAction::Lock);
            actions.push(TrialAction::Start);
            TrialPhase::Starting
        },
        TrialEvent::Started(started) => {
            if !started {
                actions.push(TrialAction::ReportError);
            }
            actions.push(TrialAction::ReadState);
            TrialPhase::Waiting
        },
        TrialEvent::State(ContextState::Ready) => {
            actions.push(TrialAction::UnwatchState);
            actions.push(TrialAction::PrintSinks);
            TrialPhase::Done
        },
        TrialEvent::State(ContextState::Failed | ContextState::Terminated) => {
            actions.push(TrialAction::Unlock);
            actions.push(TrialAction::Stop);
            actions.push(TrialAction::ReportFailure);
            actions.push(TrialAction::ReadState);
            TrialPhase::Waiting
        },
        TrialEvent::State(_) => {
            actions.push(TrialAction::Wait);
            actions.push(TrialAction::ReadState);
            TrialPhase::Waiting
        },
    };
    assert(actions@ =~= phase.requests(event));
    (next, actions)
}

/// Whether or not the context began to connect and the main loop started, the
/// server is printed, the lock taken and the main loop started, and the connection
/// is waited for; a request that failed is reported first.
pub proof fn law_trials_go_on_after_failures(connected: bool, started: bool)
    ensures
        ({
            let (first, second) = (TrialEvent::Connected(connected), TrialEvent::Started(started));
            let after_first = TrialPhase::Connecting.requests(first);
            let after_second = TrialPhase::Starting.requests(second);
            &&& TrialPhase::Connecting.expects(first) && TrialPhase::Starting.expects(second)
            &&& TrialPhase::Connecting.next(first) is Starting
            &&& TrialPhase::Starting.next(second) is Waiting
            &&& connected ==> after_first.len() == 3
            &&& !connected ==> after_first.len() == 4 && after_first[0] is ReportError
            &&& after_first[after_first.len() - 3] is PrintServer
            &&& after_first[after_first.len() - 2] is Lock
            &&& after_first.last() is Start
            &&& started ==> after_second.len() == 1
            &&& !started ==> after_second.len() == 2 && after_second[0] is ReportError
            &&& after_second.last() is ReadState
        }),
{
}

/// The state of the connection is read again until it is ready: after a wait, or,
/// if the connection failed or was terminated, after the lock was given back, the
/// main loop stopped and the failure reported. Once it is ready, it is no longer
/// watched and the sinks are printed.
pub proof fn law_trials_wait_until_ready(state: ContextState)
    ensures
        ({
            let event = TrialEvent::State(state);
            let actions = TrialPhase::Waiting.requests(event);
            let over = state is Failed || state is Terminated;
            &&& TrialPhase::Waiting.expects(event)
            &&& TrialPhase::Waiting.next(event) is Done <==> state is Ready
            &&& TrialPhase::Waiting.next(event) is Waiting <==> !(state is Ready)
            &&& state is Ready ==> actions == seq![
                TrialAction::UnwatchState,
                TrialAction::PrintSinks,
            ]
            &&& over ==> actions == seq![
                TrialAction::Unlock,
                TrialAction::Stop,
                TrialAction::ReportFailure,
                TrialAction::ReadState,
            ]
            &&& !over && !(state is Ready) ==> actions == seq![
                TrialAction::Wait,
                TrialAction::ReadState,
            ]
        }),
{
}

/// The sinks are printed exactly when the connection is ready, and only then is
/// the trial done.
pub proof fn law_sinks_are_printed_when_ready(phase: TrialPhase, event: TrialEvent)
    requires
        phase.expects(event),
    ensures
        phase.requests(event).contains(TrialAction::PrintSinks) <==> event == TrialEvent::State(
            ContextState::Ready,
        ),
        phase.next(event) is Done <==> event == TrialEvent::State(ContextState::Ready),
{
    let actions = phase.requests(event);
    if event == TrialEvent::State(ContextState::Ready) {
        assert(actions[1] == TrialAction::PrintSinks);
    }
}

} // verus!
