use ironbar::clients::volume::pulse::common::{ContextState, EntryIdentifier, EntryType};
use ironbar::clients::volume::pulse::ident_map::IdentMap;
use ironbar::clients::volume::pulse::pa_interface::{
    start, PaAction, PaError, PaEvent, PaPhase, PaSession,
};
use ironbar::clients::volume::pulse::{PAInternal, PulseAudioAction};
use ironbar::clients::volume::pulse_trial::{advance, TrialAction, TrialEvent, TrialPhase};

fn ident(index: u32) -> EntryIdentifier {
    EntryIdentifier { entry_type: EntryType::Source, index }
}

fn ready() -> PaEvent {
    PaEvent::State(ContextState::Ready)
}

fn running() -> PaSession<u8> {
    let (mut session, _) = start::<u8>();
    session.advance(PaEvent::Made(true));
    session.advance(PaEvent::Made(true));
    session.advance(PaEvent::Connected(true));
    session.advance(PaEvent::Started(true));
    session.advance(ready());
    session.advance(PaEvent::Subscribed(true));
    session.advance(PaEvent::Requested(true));
    session
}

#[test]
fn a_session_starts() {
    let (mut session, actions) = start::<u8>();
    assert_eq!(actions, vec![PaAction::MakeMainloop]);
    assert_eq!(session.advance(PaEvent::Made(true)), vec![PaAction::MakeContext]);
    assert_eq!(
        session.advance(PaEvent::Made(true)),
        vec![PaAction::WatchState, PaAction::Connect]
    );
    assert_eq!(
        session.advance(PaEvent::Connected(true)),
        vec![PaAction::Lock, PaAction::Start]
    );
    assert_eq!(session.advance(PaEvent::Started(true)), vec![PaAction::ReadState]);
    assert_eq!(
        session.advance(PaEvent::State(ContextState::Authorizing)),
        vec![PaAction::Wait, PaAction::ReadState]
    );
    assert_eq!(
        session.advance(ready()),
        vec![PaAction::UnwatchState, PaAction::Subscribe]
    );
    assert_eq!(
        session.advance(PaEvent::Subscribed(true)),
        vec![PaAction::RequestState]
    );
    assert_eq!(
        session.advance(PaEvent::Requested(true)),
        vec![PaAction::Unlock, PaAction::Receive]
    );
    assert_eq!(session.current_phase(), PaPhase::Receiving);
}

#[test]
fn a_session_that_does_not_start() {
    let (mut session, _) = start::<u8>();
    assert!(session.advance(PaEvent::Made(false)).is_empty());
    assert_eq!(session.current_phase(), PaPhase::Failed(PaError::NoMainloop));

    let (mut session, _) = start::<u8>();
    session.advance(PaEvent::Made(true));
    session.advance(PaEvent::Made(false));
    assert_eq!(session.current_phase(), PaPhase::Failed(PaError::NoContext));

    let (mut session, _) = start::<u8>();
    session.advance(PaEvent::Made(true));
    session.advance(PaEvent::Made(true));
    session.advance(PaEvent::Connected(false));
    assert_eq!(session.current_phase(), PaPhase::Failed(PaError::NotConnected));

    for state in [ContextState::Failed, ContextState::Terminated] {
        let (mut session, _) = start::<u8>();
        session.advance(PaEvent::Made(true));
        session.advance(PaEvent::Made(true));
        session.advance(PaEvent::Connected(true));
        session.advance(PaEvent::Started(true));
        assert_eq!(
            session.advance(PaEvent::State(state)),
            vec![PaAction::Unlock, PaAction::Stop]
        );
        assert_eq!(session.current_phase(), PaPhase::Failed(PaError::ConnectionFailed));
    }

    let (mut session, _) = start::<u8>();
    session.advance(PaEvent::Made(true));
    session.advance(PaEvent::Made(true));
    session.advance(PaEvent::Connected(true));
    assert!(session.advance(PaEvent::Started(false)).is_empty());
    assert_eq!(session.current_phase(), PaPhase::Failed(PaError::NotStarted));

    let (mut session, _) = start::<u8>();
    session.advance(PaEvent::Made(true));
    session.advance(PaEvent::Made(true));
    session.advance(PaEvent::Connected(true));
    session.advance(PaEvent::Started(true));
    session.advance(ready());
    assert!(session.advance(PaEvent::Subscribed(false)).is_empty());
    assert_eq!(session.current_phase(), PaPhase::Failed(PaError::NotSubscribed));

    let (mut session, _) = start::<u8>();
    session.advance(PaEvent::Made(true));
    session.advance(PaEvent::Made(true));
    session.advance(PaEvent::Connected(true));
    session.advance(PaEvent::Started(true));
    session.advance(ready());
    session.advance(PaEvent::Subscribed(true));
    assert!(session.advance(PaEvent::Requested(false)).is_empty());
    assert_eq!(session.current_phase(), PaPhase::Failed(PaError::NotRequested));
}

#[test]
fn failures_say_why() {
    assert_eq!(
        PaError::NoMainloop.message(),
        Some("Error while creating new mainloop".to_string())
    );
    assert_eq!(
        PaError::NoContext.message(),
        Some("Error while creating new context".to_string())
    );
    assert_eq!(
        PaError::NotConnected.message(),
        Some("Error while connecting context".to_string())
    );
    assert_eq!(
        PaError::ConnectionFailed.message(),
        Some("Connection failed or context terminated".to_string())
    );
    assert_eq!(
        PaError::Disconnected.message(),
        Some("Disconnected while working".to_string())
    );
    assert_eq!(PaError::NotStarted.message(), None);
    assert_eq!(PaError::NotSubscribed.message(), None);
    assert_eq!(PaError::NotRequested.message(), None);
}

#[test]
fn a_tick_looks_after_the_monitors() {
    let mut session = running();
    assert_eq!(
        session.receive(Some(PAInternal::Tick)),
        vec![PaAction::Lock, PaAction::ReadState]
    );
    assert_eq!(
        session.advance(ready()),
        vec![PaAction::FilterTargets, PaAction::Unlock, PaAction::Receive]
    );
    assert!(session.current_targets().entries.is_empty());
}

#[test]
fn information_is_asked_for() {
    let mut session = running();
    session.receive(Some(PAInternal::AskInfo(ident(3))));
    assert_eq!(
        session.advance(ready()),
        vec![PaAction::RequestInfo(ident(3)), PaAction::Unlock, PaAction::Receive]
    );
}

#[test]
fn monitors_are_asked_for() {
    let mut session = running();
    let mut targets: IdentMap<Option<u32>> = IdentMap::new();
    targets.insert(ident(3), Some(8));
    let action: PulseAudioAction<u8> = PulseAudioAction::CreateMonitors(targets);
    session.receive(Some(PAInternal::Command(Box::new(action))));
    assert_eq!(session.advance(ready()), vec![PaAction::HandleCommand]);
    assert!(matches!(session.command(), Some(PulseAudioAction::CreateMonitors(_))));
    assert!(session.current_targets().entries.is_empty());
    assert_eq!(
        session.advance(PaEvent::Handled(true)),
        vec![PaAction::FilterTargets, PaAction::Unlock, PaAction::Receive]
    );
    assert_eq!(session.current_targets().get(&ident(3)), Some(&Some(8)));
    assert!(session.command().is_none());

    session.receive(Some(PAInternal::Command(Box::new(PulseAudioAction::Other(5)))));
    session.advance(ready());
    assert_eq!(
        session.advance(PaEvent::Handled(true)),
        vec![PaAction::Unlock, PaAction::Receive]
    );
    assert_eq!(session.current_targets().get(&ident(3)), Some(&Some(8)));
}

#[test]
fn a_command_can_end_the_session() {
    let mut session = running();
    session.receive(Some(PAInternal::Command(Box::new(PulseAudioAction::Other(5)))));
    session.advance(ready());
    assert_eq!(
        session.advance(PaEvent::Handled(false)),
        vec![PaAction::FilterNothing, PaAction::Unlock]
    );
    assert_eq!(session.current_phase(), PaPhase::Ended);
}

#[test]
fn a_session_without_messages_ends() {
    let mut session = running();
    assert!(session.receive(None).is_empty());
    assert_eq!(session.current_phase(), PaPhase::Ended);
}

#[test]
fn a_lost_connection_ends_the_session() {
    for state in [ContextState::Failed, ContextState::Terminated, ContextState::Connecting] {
        let mut session = running();
        session.receive(Some(PAInternal::Tick));
        assert_eq!(session.advance(PaEvent::State(state)), vec![PaAction::Unlock]);
        assert_eq!(session.current_phase(), PaPhase::Failed(PaError::Disconnected));
    }
}

#[test]
fn the_lock_is_taken_and_given_back_in_turn() {
    let mut all = Vec::new();
    let (mut session, actions) = start::<u8>();
    all.extend(actions);
    for event in [
        PaEvent::Made(true),
        PaEvent::Made(true),
        PaEvent::Connected(true),
        PaEvent::Started(true),
        PaEvent::State(ContextState::Connecting),
        ready(),
        PaEvent::Subscribed(true),
        PaEvent::Requested(true),
    ] {
        all.extend(session.advance(event));
    }
    all.extend(session.receive(Some(PAInternal::Tick)));
    all.extend(session.advance(ready()));
    all.extend(session.receive(Some(PAInternal::Command(Box::new(PulseAudioAction::Other(1))))));
    all.extend(session.advance(ready()));
    all.extend(session.advance(PaEvent::Handled(false)));
    let mut held = false;
    for action in all {
        match action {
            PaAction::Lock => {
                assert!(!held);
                held = true;
            }
            PaAction::Unlock => {
                assert!(held);
                held = false;
            }
            PaAction::Receive => assert!(!held),
            PaAction::Wait | PaAction::FilterTargets | PaAction::HandleCommand => assert!(held),
            _ => {}
        }
    }
    assert!(!held);
}

#[test]
fn a_trial_lists_the_sinks() {
    let (phase, actions) = ironbar::clients::volume::pulse_trial::test();
    assert_eq!(
        actions,
        vec![TrialAction::Make, TrialAction::WatchState, TrialAction::Connect]
    );
    let (phase, actions) = advance(phase, TrialEvent::Connected(true));
    assert_eq!(
        actions,
        vec![TrialAction::PrintServer, TrialAction::Lock, TrialAction::Start]
    );
    let (phase, actions) = advance(phase, TrialEvent::Started(true));
    assert_eq!(actions, vec![TrialAction::ReadState]);
    let (phase, actions) = advance(phase, TrialEvent::State(ContextState::SettingName));
    assert_eq!(actions, vec![TrialAction::Wait, TrialAction::ReadState]);
    let (phase, actions) = advance(phase, TrialEvent::State(ContextState::Ready));
    assert_eq!(phase, TrialPhase::Done);
    assert_eq!(actions, vec![TrialAction::UnwatchState, TrialAction::PrintSinks]);
}

#[test]
fn a_trial_goes_on_after_failures() {
    let (phase, actions) = advance(TrialPhase::Connecting, TrialEvent::Connected(false));
    assert_eq!(
        actions,
        vec![
            TrialAction::ReportError,
            TrialAction::PrintServer,
            TrialAction::Lock,
            TrialAction::Start,
        ]
    );
    let (phase, actions) = advance(phase, TrialEvent::Started(false));
    assert_eq!(actions, vec![TrialAction::ReportError, TrialAction::ReadState]);
    let (phase, actions) = advance(phase, TrialEvent::State(ContextState::Failed));
    assert_eq!(
        actions,
        vec![
            TrialAction::Unlock,
            TrialAction::Stop,
            TrialAction::ReportFailure,
            TrialAction::ReadState,
        ]
    );
    assert_eq!(phase, TrialPhase::Waiting);
}
