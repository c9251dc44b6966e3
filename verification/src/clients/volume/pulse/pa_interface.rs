//! The session with the sound server.
//!
//! A session is a conversation with the server's main loop: [`start`] gives
//! the first request, [`PaSession::advance`] and [`PaSession::receive`]
//! those that follow an answer or a message.

use super::common::{ContextState, EntryIdentifier};
use super::ident_map::IdentMap;
use super::{PAInternal, PulseAudioAction};
use vstd::prelude::*;

verus! {

/// The name under which the server knows the application.
pub const APPLICATION_NAME: &'static str = "RsMixer";

/// The name under which the server knows the connection.
pub const CONTEXT_NAME: &'static str = "RsMixerContext";

/// Why a session failed.
#[derive(Clone, Copy, Debug, PartialEq, Eq, Structural)]
pub enum PaError {
    /// There is no main loop.
    NoMainloop,
    /// There is no context.
    NoContext,
    /// The context could not be connected.
    NotConnected,
    /// The main loop did not start.
    NotStarted,
    /// The connection failed or ended before it was ready.
    ConnectionFailed,
    /// The server's events could not be subscribed to.
    NotSubscribed,
    /// The server's present state could not be asked for.
    NotRequested,
    /// The connection was lost later.
    Disconnected,
}

impl PaError {
    /// Says why the session failed, unless whoever made the failing request
    /// knows better.
    pub fn message(&self) -> (message: Option<String>)
        ensures
            match self {
                PaError::NoMainloop => message matches Some(text) && text@
                    == "Error while creating new mainloop"@,
                PaError::NoContext => message matches Some(text) && text@
                    == "Error while creating new context"@,
                PaError::NotConnected => message matches Some(text) && text@
                    == "Error while connecting context"@,
                PaError::ConnectionFailed => message matches Some(text) && text@
                    == "Connection failed or context terminated"@,
                PaError::Disconnected => message matches Some(text) && text@
                    == "Disconnected while working"@,
                _ => message is None,
            },
    {
        match self {
            PaError::NoMainloop => Some("Error while creating new mainloop".to_owned()),
            PaError::NoContext => Some("Error while creating new context".to_owned()),
            PaError::NotConnected => Some("Error while connecting context".to_owned()),
            PaError::ConnectionFailed => {
                Some("Connection failed or context terminated".to_owned())
            },
            PaError::Disconnected => Some("Disconnected while working".to_owned()),
            _ => None,
        }
    }
}

/// A request to the main loop, or to whoever runs the session.
#[derive(Clone, Copy, Debug, PartialEq, Eq, Structural)]
pub enum PaAction {
    /// Make a main loop.
    MakeMainloop,
    /// Make a context in the main loop.
    MakeContext,
    /// Have the main loop woken when the connection settles.
    WatchState,
    /// Connect the context to the server.
    Connect,
    /// Take the main loop's lock.
    Lock,
    /// Start the main loop.
    Start,
    /// Tell the state of the connection.
    ReadState,
    /// Wait until the main loop is woken.
    Wait,
    /// Give the main loop's lock back.
    Unlock,
    /// Stop the main loop.
    Stop,
    /// Stop watching the connection.
    UnwatchState,
    /// Subscribe to the server's events.
    Subscribe,
    /// Ask for the server's present state.
    RequestState,
    /// Wait for a message.
    Receive,
    /// Ask for information on an object.
    RequestInfo(EntryIdentifier),
    /// Look after the monitors, for the targets of the session.
    FilterTargets,
    /// Look after the monitors, for no targets at all.
    FilterNothing,
    /// Carry out the command in hand.
    HandleCommand,
}

/// How far the session has come.
#[derive(Clone, Copy, Debug, PartialEq, Eq, Structural)]
pub enum PaPhase {
    MakingMainloop,
    MakingContext,
    Connecting,
    Starting,
    Waiting,
    Subscribing,
    Requesting,
    /// Between two messages.
    Receiving,
    /// A message is in hand and the connection is being looked at.
    Checking,
    /// A command is being carried out.
    Handling,
    /// The session ended as asked.
    Ended,
    Failed(PaError),
}

/// What came of the last request.
#[derive(Clone, Copy, Debug, PartialEq, Eq, Structural)]
pub enum PaEvent {
    /// Whether the main loop, or the context, was made.
    Made(bool),
    /// Whether the context began to connect.
    Connected(bool),
    /// Whether the main loop started.
    Started(bool),
    /// The state of the connection.
    State(ContextState),
    /// Whether the events were subscribed to.
    Subscribed(bool),
    /// Whether the present state was asked for.
    Requested(bool),
    /// Whether the session goes on after a command.
    Handled(bool),
}

/// What the message in hand is about.
pub ghost enum Topic {
    Nothing,
    Tick,
    Info(EntryIdentifier),
    Monitors,
    OtherCommand,
}

/// What a message is about.
pub open spec fn topic_of<A>(message: Option<PAInternal<A>>) -> Topic {
    match message {
        None => Topic::Nothing,
        Some(PAInternal::Tick) => Topic::Tick,
        Some(PAInternal::AskInfo(ident)) => Topic::Info(ident),
        Some(PAInternal::Command(action)) => match *action {
            PulseAudioAction::CreateMonitors(_) => Topic::Monitors,
            PulseAudioAction::Other(_) => Topic::OtherCommand,
        },
    }
}

/// Whether the targets that a message may bring are a proper map.
pub open spec fn message_wf<A>(message: PAInternal<A>) -> bool {
    match message {
        PAInternal::Command(action) => match *action {
            PulseAudioAction::CreateMonitors(targets) => targets.wf(),
            PulseAudioAction::Other(_) => true,
        },
        _ => true,
    }
}

impl PaPhase {
    /// Whether the event answers what was asked last.
    pub open spec fn expects(self, event: PaEvent) -> bool {
        match self {
            PaPhase::MakingMainloop | PaPhase::MakingContext => event is Made,
            PaPhase::Connecting => event is Connected,
            PaPhase::Starting => event is Started,
            PaPhase::Waiting | PaPhase::Checking => event is State,
            PaPhase::Subscribing => event is Subscribed,
            PaPhase::Requesting => event is Requested,
            PaPhase::Handling => event is Handled,
            _ => false,
        }
    }

    /// Whether the session has a message in hand.
    pub open spec fn holds_message(self) -> bool {
        self is Checking || self is Handling
    }

    /// Whether the session holds the main loop's lock.
    pub open spec fn holds_lock(self) -> bool {
        match self {
            PaPhase::Starting | PaPhase::Waiting | PaPhase::Subscribing | PaPhase::Requesting
            | PaPhase::Checking | PaPhase::Handling => true,
            PaPhase::Failed(error) => error is NotStarted || error is NotSubscribed
                || error is NotRequested,
            _ => false,
        }
    }

    /// The phase that an answer leads to, given what the message in hand is
    /// about.
    pub open spec fn next(self, event: PaEvent, topic: Topic) -> PaPhase {
        match event {
            PaEvent::Made(made) => if self is MakingMainloop {
                if made {
                    PaPhase::MakingContext
                } else {
                    PaPhase::Failed(PaError::NoMainloop)
                }
            } else {
                if made {
                    PaPhase::Connecting
                } else {
                    PaPhase::Failed(PaError::NoContext)
                }
            },
            PaEvent::Connected(connected) => if connected {
                PaPhase::Starting
            } else {
                PaPhase::Failed(PaError::NotConnected)
            },
            PaEvent::Started(started) => if started {
                PaPhase::Waiting
            } else {
                PaPhase::Failed(PaError::NotStarted)
            },
            PaEvent::State(state) => if self is Waiting {
                if state is Ready {
                    PaPhase::Subscribing
                } else if state.over() {
                    PaPhase::Failed(PaError::ConnectionFailed)
                } else {
                    PaPhase::Waiting
                }
            } else {
                if !(state is Ready) {
                    PaPhase::Failed(PaError::Disconnected)
                } else if topic is Monitors || topic is OtherCommand {
                    PaPhase::Handling
                } else {
                    PaPhase::Receiving
                }
            },
            PaEvent::Subscribed(subscribed) => if subscribed {
                PaPhase::Requesting
            } else {
                PaPhase::Failed(PaError::NotSubscribed)
            },
            PaEvent::Requested(requested) => if requested {
                PaPhase::Receiving
            } else {
                PaPhase::Failed(PaError::NotRequested)
            },
            PaEvent::Handled(goes_on) => if goes_on {
                PaPhase::Receiving
            } else {
                PaPhase::Ended
            },
        }
    }

    /// What is asked after an answer, given what the message in hand is about.
    pub open spec fn requests(self, event: PaEvent, topic: Topic) -> Seq<PaAction> {
        match self.next(event, topic) {
            PaPhase::MakingContext => seq![PaAction::MakeContext],
            PaPhase::Connecting => seq![PaAction::WatchState, PaAction::Connect],
            PaPhase::Starting => seq![PaAction::Lock, PaAction::Start],
            PaPhase::Waiting => if event is Started {
                seq![PaAction::ReadState]
            } else {
                seq![PaAction::Wait, PaAction::ReadState]
            },
            PaPhase::Subscribing => seq![PaAction::UnwatchState, PaAction::Subscribe],
            PaPhase::Requesting => seq![PaAction::RequestState],
            PaPhase::Handling => seq![PaAction::HandleCommand],
            PaPhase::Receiving => match topic {
                Topic::Info(ident) => seq![
                    PaAction::RequestInfo(ident),
                    PaAction::Unlock,
                    PaAction::Receive,
                ],
                Topic::Tick | Topic::Monitors => seq![
                    PaAction::FilterTargets,
                    PaAction::Unlock,
                    PaAction::Receive,
                ],
                _ => seq![PaAction::Unlock, PaAction::Receive],
            },
            PaPhase::Ended => seq![PaAction::FilterNothing, PaAction::Unlock],
            PaPhase::Failed(PaError::ConnectionFailed) => seq![PaAction::Unlock, PaAction::Stop],
            PaPhase::Failed(PaError::Disconnected) => seq![PaAction::Unlock],
            _ => seq![],
        }
    }
}

/// A session with the sound server.
#[verifier::reject_recursive_types(A)]
pub struct PaSession<A> {
    phase: PaPhase,
    message: Option<PAInternal<A>>,
    last_targets: IdentMap<Option<u32>>,
}

impl<A> PaSession<A> {
    /// How far the session has come.
    pub closed spec fn phase(&self) -> PaPhase {
        self.phase
    }

    /// The message in hand.
    pub closed spec fn message(&self) -> Option<PAInternal<A>> {
        self.message
    }

    /// The objects to be monitored, as last asked for.
    pub closed spec fn targets(&self) -> IdentMap<Option<u32>> {
        self.last_targets
    }

    /// Whether a message is in hand exactly while the session deals with one,
    /// and the targets are a proper map.
    pub open spec fn wf(&self) -> bool {
        &&& self.targets().wf()
        &&& self.phase().holds_message() == self.message() is Some
        &&& self.message() matches Some(message) ==> message_wf(message)
        &&& self.phase() is Handling ==> topic_of(self.message()) is Monitors || topic_of(
            self.message(),
        ) is OtherCommand
    }

    /// Takes a message, or learns that there will be no more.
    pub fn receive(&mut self, message: Option<PAInternal<A>>) -> (actions: Vec<PaAction>)
        requires
            old(self).wf(),
            old(self).phase() is Receiving,
            message matches Some(message) ==> message_wf(message),
        ensures
            final(self).wf(),
            final(self).targets() == old(self).targets(),
            final(self).message() == message,
            final(self).phase() == if message is Some {
                PaPhase::Checking
            } else {
                PaPhase::Ended
            },
            actions@ == if message is Some {
                seq![PaAction::Lock, PaAction::ReadState]
            } else {
                Seq::empty()
            },
    {
        let mut actions: Vec<PaAction> = Vec::new();
        if message.is_some() {
            actions.push(PaAction::Lock);
            actions.push(PaAction::ReadState);
            self.phase = PaPhase::Checking;
        } else {
            self.phase = PaPhase::Ended;
        }
        self.message = message;
        assert(actions@ =~= if message is Some {
            seq![PaAction::Lock, PaAction::ReadState]
        } else {
            Seq::empty()
        });
        actions
    }

    /// Goes on after an answer.
    pub fn advance(&mut self, event: PaEvent) -> (actions: Vec<PaAction>)
        requires
            old(self).wf(),
            old(self).phase().expects(event),
        ensures
            final(self).wf(),
            final(self).phase() == old(self).phase().next(event, topic_of(old(self).message())),
            actions@ == old(self).phase().requests(event, topic_of(old(self).message())),
            forall|ident: EntryIdentifier| #[trigger]
                actions@.contains(PaAction::RequestInfo(ident)) <==> old(self).phase() is Checking
                    && event == PaEvent::State(ContextState::Ready) && old(self).message() == Some(
                    PAInternal::<A>::AskInfo(ident),
                ),
            actions@.contains(PaAction::HandleCommand) <==> old(self).phase() is Checking && event
                == PaEvent::State(ContextState::Ready) && old(self).message() is Some && old(
                self,
            ).message()->0 is Command,
            actions@.contains(PaAction::FilterTargets) <==> (old(self).phase() is Checking && event
                == PaEvent::State(ContextState::Ready) && old(self).message() is Some && old(
                self,
            ).message()->0 is Tick) || (event == PaEvent::Handled(true) && old(
                self,
            ).message() is Some && old(self).message()->0 is Command && *(old(
                self,
            ).message()->0->Command_0) is CreateMonitors),
            actions@.contains(PaAction::FilterNothing) <==> event == PaEvent::Handled(false),
            final(self).message() == if final(self).phase() is Handling {
                old(self).message()
            } else {
                None
            },
            final(self).targets() == match old(self).message() {
                Some(PAInternal::Command(action)) => match *action {
                    PulseAudioAction::CreateMonitors(targets) => if event == PaEvent::Handled(
                        true,
                    ) {
                        targets
                    } else {
                        old(self).targets()
                    },
                    _ => old(self).targets(),
                },
                _ => old(self).targets(),
            },
    {
        let ghost topic = topic_of(self.message);
        let ghost before = self.phase;
        let mut actions: Vec<PaAction> = Vec::new();
        match (self.phase, event) {
            (PaPhase::MakingMainloop, PaEvent::Made(true)) => {
                actions.push(PaAction::MakeContext);
                self.phase = PaPhase::MakingContext;
            },
            (PaPhase::MakingMainloop, PaEvent::Made(false)) => {
                self.phase = PaPhase::Failed(PaError::NoMainloop);
            },
            (_, PaEvent::Made(true)) => {
                actions.push(PaAction::WatchState);
                actions.push(PaAction::Connect);
                self.phase = PaPhase::Connecting;
            },
            (_, PaEvent::Made(false)) => {
                self.phase = PaPhase::Failed(PaError::NoContext);
            },
            (_, PaEvent::Connected(true)) => {
                actions.push(PaAction::Lock);
                actions.push(PaAction::Start);
                self.phase = PaPhase::Starting;
            },
            (_, PaEvent::Connected(false)) => {
                self.phase = PaPhase::Failed(PaError::NotConnected);
            },
            (_, PaEvent::Started(true)) => {
                actions.push(PaAction::ReadState);
                self.phase = PaPhase::Waiting;
            },
            (_, PaEvent::Started(false)) => {
                self.phase = PaPhase::Failed(PaError::NotStarted);
            },
            (PaPhase::Waiting, PaEvent::State(ContextState::Ready)) => {
                actions.push(PaAction::UnwatchState);
                actions.push(PaAction::Subscribe);
                self.phase = PaPhase::Subscribing;
            },
            (
                PaPhase::Waiting,
                PaEvent::State(ContextState::Failed | ContextState::Terminated),
            ) => {
                actions.push(PaAction::Unlock);
                actions.push(PaAction::Stop);
                self.phase = PaPhase::Failed(PaError::ConnectionFailed);
            },
            (PaPhase::Waiting, PaEvent::State(_)) => {
                actions.push(PaAction::Wait);
                actions.push(PaAction::ReadState);
            },
            (_, PaEvent::Subscribed(true)) => {
                actions.push(PaAction::RequestState);
                self.phase = PaPhase::Requesting;
            },
            (_, PaEvent::Subscribed(false)) => {
                self.phase = PaPhase::Failed(PaError::NotSubscribed);
            },
            (_, PaEvent::Requested(true)) => {
                actions.push(PaAction::Unlock);
                actions.push(PaAction::Receive);
                self.phase = PaPhase::Receiving;
            },
            (_, PaEvent::Requested(false)) => {
                self.phase = PaPhase::Failed(PaError::NotRequested);
            },
            (_, PaEvent::State(ContextState::Ready)) => {
                match &self.message {
                    Some(PAInternal::AskInfo(ident)) => {
                        actions.push(PaAction::RequestInfo(*ident));
                        actions.push(PaAction::Unlock);
                        actions.push(PaAction::Receive);
                        self.phase = PaPhase::Receiving;
                        self.message = None;
                    },
                    Some(PAInternal::Command(_)) => {
                        actions.push(PaAction::HandleCommand);
                        self.phase = PaPhase::Handling;
                    },
                    _ => {
                        actions.push(PaAction::FilterTargets);
                        actions.push(PaAction::Unlock);
                        actions.push(PaAction::Receive);
                        self.phase = PaPhase::Receiving;
                        self.message = None;
                    },
                }
            },
            (_, PaEvent::State(_)) => {
                actions.push(PaAction::Unlock);
                self.phase = PaPhase::Failed(PaError::Disconnected);
                self.message = None;
            },
            (_, PaEvent::Handled(true)) => {
                if let Some(PAInternal::Command(action)) = self.message.take() {
                    if let PulseAudioAction::CreateMonitors(targets) = *action {
                        self.last_targets = targets;
                        actions.push(PaAction::FilterTargets);
                    }
                }
                actions.push(PaAction::Unlock);
                actions.push(PaAction::Receive);
                self.phase = PaPhase::Receiving;
            },
            (_, PaEvent::Handled(false)) => {
                actions.push(PaAction::FilterNothing);
                actions.push(PaAction::Unlock);
                self.phase = PaPhase::Ended;
                self.message = None;
            },
        }
        assert(actions@ =~= before.requests(event, topic));
        proof {
            lemma_requests_by_message(before, event, old(self).message());
        }
        actions
    }

    /// Returns how far the session has come.
    pub fn current_phase(&self) -> (phase: PaPhase)
        ensures
            phase == self.phase(),
    {
        self.phase
    }

    /// Returns the objects to be monitored, as last asked for.
    pub fn current_targets(&self) -> (targets: &IdentMap<Option<u32>>)
        ensures
            *targets == self.targets(),
    {
        &self.last_targets
    }

    /// Returns the command in hand.
    pub fn command(&self) -> (command: Option<&PulseAudioAction<A>>)
        ensures
            match self.message() {
                Some(PAInternal::Command(action)) => command == Some(&*action),
                _ => command is None,
            },
    {
        match &self.message {
            Some(PAInternal::Command(action)) => Some(&**action),
            _ => None,
        }
    }
}

proof fn lemma_requests_by_message<A>(
    phase: PaPhase,
    event: PaEvent,
    message: Option<PAInternal<A>>,
)
    requires
        phase.expects(event),
        phase.holds_message() == message is Some,
        phase is Handling ==> message is Some && message->0 is Command,
    ensures
        ({
            let actions = phase.requests(event, topic_of(message));
            let checked = phase is Checking && event == PaEvent::State(ContextState::Ready);
            &&& forall|ident: EntryIdentifier| #[trigger]
                actions.contains(PaAction::RequestInfo(ident)) <==> checked && message == Some(
                    PAInternal::<A>::AskInfo(ident),
                )
            &&& actions.contains(PaAction::HandleCommand) <==> checked && message is Some
                && message->0 is Command
            &&& actions.contains(PaAction::FilterTargets) <==> (checked && message is Some
                && message->0 is Tick) || (event == PaEvent::Handled(true) && message is Some
                && message->0 is Command && *(message->0->Command_0) is CreateMonitors)
            &&& actions.contains(PaAction::FilterNothing) <==> event == PaEvent::Handled(false)
        }),
{
    let actions = phase.requests(event, topic_of(message));
    if actions.len() > 0 {
        assert(actions[0] == actions.first());
    }
    assert forall|ident: EntryIdentifier| #[trigger]
        actions.contains(PaAction::RequestInfo(ident)) <==> phase is Checking && event
            == PaEvent::State(ContextState::Ready) && message == Some(
            PAInternal::<A>::AskInfo(ident),
        ) by {
        if phase is Checking && event == PaEvent::State(ContextState::Ready) && message == Some(
            PAInternal::<A>::AskInfo(ident),
        ) {
            assert(actions[0] == PaAction::RequestInfo(ident));
        }
    }
}

/// A session that is ready for a message deals with it under the lock. Once the
/// connection was found ready, information is requested on the very object that
/// was asked about and on no other, a tick has the monitors looked after, and a
/// command is carried out. Then, unless a command is still to be carried out, the
/// lock is given back and the next message is waited for.
pub proof fn law_messages_get_what_they_ask_for<A>(message: PAInternal<A>)
    ensures
        ({
            let ready = PaEvent::State(ContextState::Ready);
            let actions = PaPhase::Checking.requests(ready, topic_of(Some(message)));
            let next = PaPhase::Checking.next(ready, topic_of(Some(message)));
            &&& PaPhase::Checking.expects(ready)
            &&& forall|ident: EntryIdentifier| #[trigger]
                actions.contains(PaAction::RequestInfo(ident)) <==> message == PAInternal::<
                    A,
                >::AskInfo(ident)
            &&& message matches PAInternal::AskInfo(ident) ==> next is Receiving && actions
                == seq![PaAction::RequestInfo(ident), PaAction::Unlock, PaAction::Receive]
            &&& message is Tick ==> next is Receiving && actions == seq![
                PaAction::FilterTargets,
                PaAction::Unlock,
                PaAction::Receive,
            ]
            &&& message is Command ==> next is Handling && actions == seq![
                PaAction::HandleCommand,
            ]
        }),
{
    lemma_requests_by_message(
        PaPhase::Checking,
        PaEvent::State(ContextState::Ready),
        Some(message),
    );
}

/// A command after which the session goes on has the lock given back and the next
/// message waited for; before that the monitors are looked after exactly if the
/// command brought new targets. A command that ends the session has all monitors
/// told to exit, for want of targets, and then the lock given back.
pub proof fn law_commands_end_or_go_on<A>(action: Box<PulseAudioAction<A>>)
    ensures
        ({
            let topic = topic_of(Some(PAInternal::Command(action)));
            let (goes_on, ends) = (PaEvent::Handled(true), PaEvent::Handled(false));
            &&& PaPhase::Handling.expects(goes_on) && PaPhase::Handling.expects(ends)
            &&& PaPhase::Handling.next(goes_on, topic) is Receiving
            &&& *action is CreateMonitors ==> PaPhase::Handling.requests(goes_on, topic) == seq![
                PaAction::FilterTargets,
                PaAction::Unlock,
                PaAction::Receive,
            ]
            &&& *action is Other ==> PaPhase::Handling.requests(goes_on, topic) == seq![
                PaAction::Unlock,
                PaAction::Receive,
            ]
            &&& PaPhase::Handling.next(ends, topic) is Ended
            &&& PaPhase::Handling.requests(ends, topic) == seq![
                PaAction::FilterNothing,
                PaAction::Unlock,
            ]
        }),
{
}

/// Whatever the message in hand, a connection that is not ready any more ends the
/// session: nothing is done about the message, and the lock is given back.
pub proof fn law_lost_connections_end_the_session<A>(message: PAInternal<A>, state: ContextState)
    requires
        !(state is Ready),
    ensures
        ({
            let event = PaEvent::State(state);
            let topic = topic_of(Some(message));
            &&& PaPhase::Checking.expects(event)
            &&& PaPhase::Checking.next(event, topic) == PaPhase::Failed(PaError::Disconnected)
            &&& PaPhase::Checking.requests(event, topic) == seq![PaAction::Unlock]
        }),
{
}

/// A session in which nothing fails asks, in this order, for a context, for its
/// state to be watched and for a connection, for the lock and for the main loop to
/// start; then, when the connection is ready, for its state not to be watched any
/// more, for the server's events and for its present state; and then it gives the
/// lock back and waits for messages.
pub proof fn law_sessions_start_in_order<A>()
    ensures
        ({
            let topic = topic_of::<A>(None);
            let made = PaEvent::Made(true);
            let connected = PaEvent::Connected(true);
            let started = PaEvent::Started(true);
            let ready = PaEvent::State(ContextState::Ready);
            let subscribed = PaEvent::Subscribed(true);
            let requested = PaEvent::Requested(true);
            &&& PaPhase::MakingMainloop.expects(made) && PaPhase::MakingContext.expects(made)
                && PaPhase::Connecting.expects(connected) && PaPhase::Starting.expects(started)
                && PaPhase::Waiting.expects(ready) && PaPhase::Subscribing.expects(subscribed)
                && PaPhase::Requesting.expects(requested)
            &&& PaPhase::MakingMainloop.next(made, topic) is MakingContext
            &&& PaPhase::MakingMainloop.requests(made, topic) == seq![PaAction::MakeContext]
            &&& PaPhase::MakingContext.next(made, topic) is Connecting
            &&& PaPhase::MakingContext.requests(made, topic) == seq![
                PaAction::WatchState,
                PaAction::Connect,
            ]
            &&& PaPhase::Connecting.next(connected, topic) is Starting
            &&& PaPhase::Connecting.requests(connected, topic) == seq![
                PaAction::Lock,
                PaAction::Start,
            ]
            &&& PaPhase::Starting.next(started, topic) is Waiting
            &&& PaPhase::Starting.requests(started, topic) == seq![PaAction::ReadState]
            &&& PaPhase::Waiting.next(ready, topic) is Subscribing
            &&& PaPhase::Waiting.requests(ready, topic) == seq![
                PaAction::UnwatchState,
                PaAction::Subscribe,
            ]
            &&& PaPhase::Subscribing.next(subscribed, topic) is Requesting
            &&& PaPhase::Subscribing.requests(subscribed, topic) == seq![PaAction::RequestState]
            &&& PaPhase::Requesting.next(requested, topic) is Receiving
            &&& PaPhase::Requesting.requests(requested, topic) == seq![
                PaAction::Unlock,
                PaAction::Receive,
            ]
        }),
{
}

/// A session waits as long as its connection is neither ready nor beyond use, and
/// reads its state after every wait. If the connection fails or is terminated
/// meanwhile, the lock is given back and the main loop stopped.
pub proof fn law_sessions_wait_for_the_connection<A>(state: ContextState)
    requires
        !(state is Ready),
    ensures
        ({
            let topic = topic_of::<A>(None);
            let event = PaEvent::State(state);
            let over = state is Failed || state is Terminated;
            &&& PaPhase::Waiting.expects(event)
            &&& over ==> PaPhase::Waiting.next(event, topic) == PaPhase::Failed(
                PaError::ConnectionFailed,
            )
            &&& over ==> PaPhase::Waiting.requests(event, topic) == seq![
                PaAction::Unlock,
                PaAction::Stop,
            ]
            &&& !over ==> PaPhase::Waiting.next(event, topic) is Waiting
            &&& !over ==> PaPhase::Waiting.requests(event, topic) == seq![
                PaAction::Wait,
                PaAction::ReadState,
            ]
        }),
{
}

/// A request that fails while the session starts ends it, for that reason, and
/// nothing more is asked.
pub proof fn law_sessions_fail_for_what_failed<A>()
    ensures
        ({
            let topic = topic_of::<A>(None);
            let made = PaEvent::Made(false);
            let connected = PaEvent::Connected(false);
            let started = PaEvent::Started(false);
            let subscribed = PaEvent::Subscribed(false);
            let requested = PaEvent::Requested(false);
            &&& PaPhase::MakingMainloop.expects(made) && PaPhase::MakingContext.expects(made)
                && PaPhase::Connecting.expects(connected) && PaPhase::Starting.expects(started)
                && PaPhase::Subscribing.expects(subscribed) && PaPhase::Requesting.expects(
                requested,
            )
            &&& PaPhase::MakingMainloop.next(made, topic) == PaPhase::Failed(PaError::NoMainloop)
            &&& PaPhase::MakingContext.next(made, topic) == PaPhase::Failed(PaError::NoContext)
            &&& PaPhase::Connecting.next(connected, topic) == PaPhase::Failed(
                PaError::NotConnected,
            )
            &&& PaPhase::Starting.next(started, topic) == PaPhase::Failed(PaError::NotStarted)
            &&& PaPhase::Subscribing.next(subscribed, topic) == PaPhase::Failed(
                PaError::NotSubscribed,
            )
            &&& PaPhase::Requesting.next(requested, topic) == PaPhase::Failed(
                PaError::NotRequested,
            )
            &&& PaPhase::MakingMainloop.requests(made, topic).len() == 0
            &&& PaPhase::MakingContext.requests(made, topic).len() == 0
            &&& PaPhase::Connecting.requests(connected, topic).len() == 0
            &&& PaPhase::Starting.requests(started, topic).len() == 0
            &&& PaPhase::Subscribing.requests(subscribed, topic).len() == 0
            &&& PaPhase::Requesting.requests(requested, topic).len() == 0
        }),
{
}

/// Begins a session.
pub fn start<A>() -> (begun: (PaSession<A>, Vec<PaAction>))
    ensures
        begun.0.wf(),
        begun.0.phase() == PaPhase::MakingMainloop,
        begun.0.message() is None,
        begun.0.targets()@ == Map::<EntryIdentifier, Option<u32>>::empty(),
        begun.1@ == seq![PaAction::MakeMainloop],
{
    let mut actions: Vec<PaAction> = Vec::new();
    actions.push(PaAction::MakeMainloop);
    assert(actions@ =~= seq![PaAction::MakeMainloop]);
    let session = PaSession {
        phase: PaPhase::MakingMainloop,
        message: None,
        last_targets: IdentMap::new(),
    };
    (session, actions)
}

/// Whether an action may be taken, given whether the lock is held: the lock is
/// not taken twice, nothing is asked of the running main loop without it, and
/// nothing that can take long is waited for with it.
pub open spec fn allowed(action: PaAction, held: bool) -> bool {
    match action {
        PaAction::MakeMainloop | PaAction::MakeContext | PaAction::WatchState | PaAction::Connect
        | PaAction::Lock | PaAction::Stop | PaAction::Receive => !held,
        _ => held,
    }
}

/// Whether the lock is held after the first `upto` actions, given whether it was
/// before them.
pub open spec fn held_after(held: bool, actions: Seq<PaAction>, upto: int) -> bool
    decreases upto,
{
    if upto <= 0 {
        held
    } else if actions[upto - 1] is Lock {
        true
    } else if actions[upto - 1] is Unlock {
        false
    } else {
        held_after(held, actions, upto - 1)
    }
}

/// Whether all of the actions may be taken in turn.
pub open spec fn all_allowed(held: bool, actions: Seq<PaAction>) -> bool {
    forall|i: int|
        0 <= i < actions.len() ==> allowed(#[trigger] actions[i], held_after(held, actions, i))
}

/// The session keeps to the discipline of the main loop's lock in every answer,
/// and holds it afterwards exactly in the phases that say so. In particular it
/// never waits for a message with the lock, and gives it back when it ends.
pub proof fn law_lock_discipline(phase: PaPhase, event: PaEvent, topic: Topic)
    requires
        phase.expects(event),
        phase.holds_message() ==> !(topic is Nothing),
        !phase.holds_message() ==> topic is Nothing,
        phase is Handling ==> topic is Monitors || topic is OtherCommand,
    ensures
        all_allowed(phase.holds_lock(), phase.requests(event, topic)),
        held_after(
            phase.holds_lock(),
            phase.requests(event, topic),
            phase.requests(event, topic).len() as int,
        ) == phase.next(event, topic).holds_lock(),
{
    reveal_with_fuel(held_after, 4);
    let actions = phase.requests(event, topic);
    assert(actions.len() <= 3);
}

/// Taking a message keeps to the discipline of the lock as well.
pub proof fn law_lock_discipline_of_messages()
    ensures
        all_allowed(PaPhase::Receiving.holds_lock(), seq![PaAction::Lock, PaAction::ReadState]),
        held_after(
            PaPhase::Receiving.holds_lock(),
            seq![PaAction::Lock, PaAction::ReadState],
            2,
        ) == PaPhase::Checking.holds_lock(),
        PaPhase::Receiving.holds_lock() == PaPhase::Ended.holds_lock(),
{
    reveal_with_fuel(held_after, 4);
}

} // verus!
