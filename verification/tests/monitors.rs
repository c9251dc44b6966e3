use ironbar::clients::volume::pulse::common::{
    ContextState, EntryIdentifier, EntryType, Facility, StreamState,
};
use ironbar::clients::volume::pulse::ident_map::IdentMap;
use ironbar::clients::volume::pulse::monitor::{
    samples, slice_to_4_bytes, ExitSender, Monitors, MAX_FAILURES,
};
use ironbar::clients::volume::pulse::recording_spec;
use ironbar::clients::volume::pulse::stream::{
    advance, begin_read, create, monitor_buffer, monitor_flags, monitor_spec, on_read, on_signal, source_name,
    stream_index, CreateError, CreateEvent, CreatePhase, Peek, ReadAction, ReadEvent, StreamAction,
};
use ironbar::clients::volume::pulse::CardProfile;
use tokio::sync::mpsc::UnboundedReceiver;

fn sink(index: u32) -> EntryIdentifier {
    EntryIdentifier { entry_type: EntryType::Sink, index }
}

fn input(index: u32) -> EntryIdentifier {
    EntryIdentifier { entry_type: EntryType::SinkInput, index }
}

fn start_one(monitors: &mut Monitors<&'static str>, ident: EntryIdentifier, stream: &'static str) -> UnboundedReceiver<u32> {
    let (attempt, request) = monitors.create_monitor(ident, None).unwrap();
    monitors.finish_monitor(attempt, Some(stream));
    request.close_rx
}

fn fail_one(monitors: &mut Monitors<&'static str>, ident: EntryIdentifier) -> usize {
    let (attempt, _) = monitors.create_monitor(ident, None).unwrap();
    monitors.finish_monitor(attempt, None);
    monitors.failure_count(&ident)
}

#[test]
fn facilities_have_their_kinds() {
    assert_eq!(EntryType::from(Facility::Sink), EntryType::Sink);
    assert_eq!(EntryType::from(Facility::Source), EntryType::Source);
    assert_eq!(EntryType::from(Facility::SinkInput), EntryType::SinkInput);
    assert_eq!(EntryType::from(Facility::SourceOutput), EntryType::SourceOutput);
    assert_eq!(EntryType::from(Facility::Card), EntryType::Card);
    assert_eq!(EntryType::from(Facility::Module), EntryType::Sink);
    assert_eq!(EntryType::from(Facility::Client), EntryType::Sink);
    assert_eq!(EntryType::from(Facility::SampleCache), EntryType::Sink);
    assert_eq!(EntryType::from(Facility::Server), EntryType::Sink);
}

#[test]
fn settled_states() {
    assert!(StreamState::Ready.is_settled());
    assert!(StreamState::Failed.is_settled() && StreamState::Failed.is_over());
    assert!(StreamState::Terminated.is_settled() && StreamState::Terminated.is_over());
    assert!(!StreamState::Ready.is_over());
    assert!(!StreamState::Creating.is_settled());
    assert!(!StreamState::Unconnected.is_settled());
    assert!(ContextState::Ready.is_settled());
    assert!(ContextState::Failed.is_settled());
    assert!(ContextState::Terminated.is_settled());
    assert!(!ContextState::Authorizing.is_settled());
}

#[test]
fn ident_map_is_a_map() {
    let mut map: IdentMap<u8> = IdentMap::new();
    assert!(map.get(&sink(1)).is_none());
    map.insert(sink(1), 10);
    map.insert(input(1), 20);
    map.insert(sink(1), 30);
    assert_eq!(map.get(&sink(1)), Some(&30));
    assert_eq!(map.get(&input(1)), Some(&20));
    assert_eq!(map.entries.len(), 2);
    assert!(map.contains_key(&input(1)));
    assert_eq!(map.remove(&sink(1)), Some(30));
    assert_eq!(map.remove(&sink(1)), None);
    assert_eq!(map.position(&input(1)), Some(0));
}

#[test]
fn filter_reports_targets_without_monitor() {
    let mut monitors: Monitors<&'static str> = Monitors::default();
    assert!(monitors.idents().is_empty());
    let mut targets: IdentMap<Option<u32>> = IdentMap::new();
    targets.insert(sink(1), Some(4));
    targets.insert(input(2), None);
    let missing = monitors.filter(&IdentMap::new(), &targets).missing;
    assert_eq!(missing, vec![(sink(1), Some(4)), (input(2), None)]);
}

#[test]
fn filter_drops_failed_streams_and_signals_unwanted_ones() {
    let mut monitors: Monitors<&'static str> = Monitors::default();
    let mut failed = start_one(&mut monitors, sink(1), "failed");
    let mut ended = start_one(&mut monitors, sink(2), "ended");
    let mut unwanted = start_one(&mut monitors, sink(3), "unwanted");
    let mut wanted = start_one(&mut monitors, sink(4), "wanted");
    let mut states: IdentMap<StreamState> = IdentMap::new();
    states.insert(sink(1), StreamState::Failed);
    states.insert(sink(2), StreamState::Terminated);
    states.insert(sink(3), StreamState::Creating);
    states.insert(sink(4), StreamState::Ready);
    let mut targets: IdentMap<Option<u32>> = IdentMap::new();
    targets.insert(sink(4), None);
    targets.insert(sink(1), Some(9));
    let filtered = monitors.filter(&states, &targets);
    assert_eq!(filtered.missing, vec![(sink(1), Some(9))]);
    assert_eq!(filtered.gone.entries.len(), 2);
    assert_eq!(filtered.gone.get(&sink(1)).unwrap().stream, "failed");
    assert_eq!(filtered.gone.get(&sink(2)).unwrap().stream, "ended");
    assert_eq!(monitors.idents(), vec![sink(3), sink(4)]);
    assert_eq!(monitors.get(&sink(3)).unwrap().stream, "unwanted");
    assert!(monitors.get(&sink(1)).is_none());
    assert_eq!(unwanted.try_recv(), Ok(0));
    assert!(unwanted.try_recv().is_err());
    assert!(wanted.try_recv().is_err());
    assert!(failed.try_recv().is_err());
    assert!(ended.try_recv().is_err());
}

#[test]
fn without_targets_all_are_told_to_exit() {
    let mut monitors: Monitors<&'static str> = Monitors::default();
    let mut first = start_one(&mut monitors, sink(1), "first");
    let mut second = start_one(&mut monitors, input(1), "second");
    let mut states: IdentMap<StreamState> = IdentMap::new();
    states.insert(sink(1), StreamState::Ready);
    states.insert(input(1), StreamState::Creating);
    assert!(monitors.filter(&states, &IdentMap::new()).missing.is_empty());
    assert_eq!(first.try_recv(), Ok(0));
    assert_eq!(second.try_recv(), Ok(0));
}

#[test]
fn wanted_monitors_are_left_alone() {
    let mut monitors: Monitors<&'static str> = Monitors::default();
    let mut rx = start_one(&mut monitors, sink(1), "kept");
    let mut states: IdentMap<StreamState> = IdentMap::new();
    states.insert(sink(1), StreamState::Ready);
    let mut targets: IdentMap<Option<u32>> = IdentMap::new();
    targets.insert(sink(1), Some(3));
    for _ in 0..3 {
        assert!(monitors.filter(&states, &targets).missing.is_empty());
    }
    assert_eq!(monitors.get(&sink(1)).unwrap().stream, "kept");
    assert!(rx.try_recv().is_err());
}

#[test]
fn filter_goes_on_when_the_monitor_is_gone() {
    let mut monitors: Monitors<&'static str> = Monitors::default();
    let rx = start_one(&mut monitors, sink(1), "gone");
    drop(rx);
    let mut states: IdentMap<StreamState> = IdentMap::new();
    states.insert(sink(1), StreamState::Ready);
    assert!(monitors.filter(&states, &IdentMap::new()).missing.is_empty());
    assert_eq!(monitors.idents(), vec![sink(1)]);
}

#[test]
fn all_targets_end_up_monitored() {
    let mut monitors: Monitors<&'static str> = Monitors::default();
    let _kept = start_one(&mut monitors, sink(1), "kept");
    let mut states: IdentMap<StreamState> = IdentMap::new();
    states.insert(sink(1), StreamState::Ready);
    let mut targets: IdentMap<Option<u32>> = IdentMap::new();
    targets.insert(sink(1), None);
    targets.insert(sink(2), None);
    targets.insert(sink(3), Some(1));
    let mut receivers = Vec::new();
    for (ident, _source) in monitors.filter(&states, &targets).missing {
        receivers.push(start_one(&mut monitors, ident, "new"));
    }
    assert_eq!(receivers.len(), 2);
    for ident in [sink(1), sink(2), sink(3)] {
        assert!(monitors.get(&ident).is_some());
    }
}

#[test]
fn targets_whose_attempts_fail_have_no_monitor() {
    let mut monitors: Monitors<&'static str> = Monitors::default();
    let _kept = start_one(&mut monitors, sink(1), "kept");
    let mut states: IdentMap<StreamState> = IdentMap::new();
    states.insert(sink(1), StreamState::Ready);
    let mut targets: IdentMap<Option<u32>> = IdentMap::new();
    targets.insert(sink(1), None);
    targets.insert(sink(2), None);
    targets.insert(sink(3), None);
    let missing = monitors.filter(&states, &targets).missing;
    assert_eq!(missing, vec![(sink(2), None), (sink(3), None)]);
    assert_eq!(fail_one(&mut monitors, sink(2)), 1);
    let _new = start_one(&mut monitors, sink(3), "new");
    assert_eq!(monitors.idents(), vec![sink(1), sink(3)]);
    assert_eq!(monitors.get(&sink(1)).unwrap().stream, "kept");
}

#[test]
fn of_repeated_entries_the_last_stays() {
    let map = IdentMap::from_entries(vec![(sink(1), 'a'), (input(1), 'b'), (sink(1), 'c')]);
    assert_eq!(map.entries.len(), 2);
    assert_eq!(map.get(&sink(1)), Some(&'c'));
    assert_eq!(map.get(&input(1)), Some(&'b'));
    assert!(IdentMap::<char>::from_entries(Vec::new()).entries.is_empty());
}

#[test]
fn a_running_monitor_is_not_created_again() {
    let mut monitors: Monitors<&'static str> = Monitors::default();
    let _rx = start_one(&mut monitors, sink(1), "running");
    assert!(monitors.create_monitor(sink(1), None).is_none());
}

#[test]
fn an_attempt_asks_for_the_stream_of_a_monitor() {
    let mut monitors: Monitors<&'static str> = Monitors::default();
    let (attempt, mut request) = monitors.create_monitor(input(4), Some(8)).unwrap();
    assert_eq!(request.phase, CreatePhase::Opening { ident: input(4), source: Some(8) });
    assert_eq!(request.actions, vec![StreamAction::Open(monitor_spec())]);
    monitors.finish_monitor(attempt, Some("stream"));
    assert!(request.close_rx.try_recv().is_err());
    let mut states: IdentMap<StreamState> = IdentMap::new();
    states.insert(input(4), StreamState::Ready);
    monitors.filter(&states, &IdentMap::new());
    assert_eq!(request.close_rx.try_recv(), Ok(0));
    assert!(request.close_rx.try_recv().is_err());
}

#[test]
fn a_handle_sends_what_it_is_given_once() {
    let (mut sender, mut rx) = ExitSender::open();
    sender.send(7);
    sender.send(9);
    assert_eq!(rx.try_recv(), Ok(7));
    assert_eq!(rx.try_recv(), Ok(9));
    assert!(rx.try_recv().is_err());
}

#[test]
fn failures_are_counted_up_to_the_limit_and_then_anew() {
    let mut monitors: Monitors<&'static str> = Monitors::default();
    let mut counts = Vec::new();
    for _ in 0..12 {
        counts.push(fail_one(&mut monitors, sink(1)));
    }
    assert_eq!(counts, vec![1, 2, 3, 4, 5, 1, 2, 3, 4, 5, 1, 2]);
    assert_eq!(MAX_FAILURES, 5);
    assert_eq!(monitors.failure_count(&sink(2)), 0);
}

#[test]
fn a_start_forgets_failures() {
    let mut monitors: Monitors<&'static str> = Monitors::default();
    fail_one(&mut monitors, sink(1));
    assert_eq!(fail_one(&mut monitors, sink(1)), 2);
    let _rx = start_one(&mut monitors, sink(1), "at last");
    assert_eq!(monitors.failure_count(&sink(1)), 0);
    assert!(monitors.get(&sink(1)).is_some());
}

#[test]
fn four_bytes() {
    assert_eq!(slice_to_4_bytes(&[1, 2, 3, 4]), [1, 2, 3, 4]);
}

#[test]
fn data_is_cut_into_samples() {
    assert_eq!(samples(&[]).len(), 0);
    assert_eq!(samples(&[1, 2, 3]).len(), 0);
    assert_eq!(
        samples(&[1, 2, 3, 4, 5, 6, 7, 8, 9, 10]),
        vec![[1, 2, 3, 4], [5, 6, 7, 8]]
    );
    let bytes: Vec<u8> = [0.5f32, -1.25f32].iter().flat_map(|x| x.to_ne_bytes()).collect();
    let cut = samples(&bytes);
    assert_eq!(f32::from_ne_bytes(cut[1]), -1.25f32);
}

#[test]
fn recording_parameters() {
    assert!(monitor_flags().peak_detect && monitor_flags().adjust_latency);
    assert_eq!(recording_spec().rate, 1024);
    assert_eq!(monitor_spec().rate, 20);
    assert_eq!(monitor_spec().channels, 1);
    assert_eq!(monitor_buffer().fragsize, 48);
    assert_eq!(monitor_buffer().minreq, 0);
    assert_eq!(monitor_buffer().maxlength, u32::MAX);
}

#[test]
fn card_profiles_compare() {
    let profile = CardProfile {
        name: "a".to_string(),
        description: "b".to_string(),
        is_selected: true,
    };
    assert_eq!(profile, profile.clone());
}

#[test]
fn sources_are_named_by_their_index() {
    assert_eq!(source_name(None), None);
    assert_eq!(source_name(Some(0)), Some("0".to_string()));
    assert_eq!(source_name(Some(907)), Some("907".to_string()));
    assert_eq!(source_name(Some(u32::MAX)), Some("4294967295".to_string()));
}

#[test]
fn only_sink_inputs_are_listened_to_alone() {
    assert_eq!(stream_index(input(6)), Some(6));
    assert_eq!(stream_index(sink(6)), None);
}

#[test]
fn creating_the_stream_of_a_sink_input() {
    let (phase, actions) = create(monitor_spec(), input(6), Some(2));
    assert_eq!(actions, vec![StreamAction::Open(monitor_spec())]);
    let (phase, actions) = advance(phase, CreateEvent::Opened(true));
    assert_eq!(
        actions,
        vec![
            StreamAction::WatchState,
            StreamAction::MonitorStream(6),
            StreamAction::ConnectRecord { source: Some(2), attr: monitor_buffer(), flags: monitor_flags() },
        ]
    );
    let (phase, actions) = advance(phase, CreateEvent::Connected(true));
    assert_eq!(actions, vec![StreamAction::ReadState]);
    let (phase, actions) = advance(phase, CreateEvent::State(StreamState::Creating));
    assert_eq!(actions, vec![StreamAction::Wait, StreamAction::ReadState]);
    let (phase, actions) = advance(phase, CreateEvent::State(StreamState::Ready));
    assert_eq!(phase, CreatePhase::Created);
    assert_eq!(actions, vec![StreamAction::UnwatchState, StreamAction::WatchReads]);
}

#[test]
fn creating_the_stream_of_a_sink() {
    let (phase, _) = create(monitor_spec(), sink(6), None);
    let (phase, actions) = advance(phase, CreateEvent::Opened(true));
    assert_eq!(phase, CreatePhase::Connecting);
    assert_eq!(
        actions,
        vec![
            StreamAction::WatchState,
            StreamAction::ConnectRecord { source: None, attr: monitor_buffer(), flags: monitor_flags() },
        ]
    );
}

#[test]
fn streams_that_cannot_be_created() {
    let (opening, _) = create(monitor_spec(), sink(6), None);
    let (phase, actions) = advance(opening, CreateEvent::Opened(false));
    assert_eq!(phase, CreatePhase::Refused(CreateError::NotOpened));
    assert!(actions.is_empty());
    let (connecting, _) = advance(opening, CreateEvent::Opened(true));
    let (phase, _) = advance(connecting, CreateEvent::Connected(false));
    assert_eq!(phase, CreatePhase::Refused(CreateError::NotConnected));
    let (waiting, _) = advance(connecting, CreateEvent::Connected(true));
    for state in [StreamState::Failed, StreamState::Terminated] {
        let (phase, actions) = advance(waiting, CreateEvent::State(state));
        assert_eq!(phase, CreatePhase::Refused(CreateError::Terminated));
        assert!(actions.is_empty());
    }
    assert_eq!(
        CreateError::NotOpened.message(),
        "Error creating stream for monitoring volume"
    );
    assert_eq!(
        CreateError::NotConnected.message(),
        "while connecting stream for monitoring volume"
    );
    assert_eq!(CreateError::Terminated.message(), "Stream terminated");
}

#[test]
fn reading_what_was_recorded() {
    assert_eq!(on_signal(Ok::<u32, ()>(0)), ReadAction::Disconnect);
    assert_eq!(on_signal(Ok::<u32, ()>(7)), ReadAction::Disconnect);
    assert_eq!(on_signal(Err::<u32, ()>(())), ReadAction::ReadState);
    assert_eq!(on_read(ReadEvent::Close(true)), ReadAction::Disconnect);
    assert_eq!(on_read(ReadEvent::Close(false)), ReadAction::ReadState);
    assert_eq!(on_read(ReadEvent::State(StreamState::Failed)), ReadAction::ReportFailure);
    assert_eq!(on_read(ReadEvent::State(StreamState::Terminated)), ReadAction::ReportFailure);
    assert_eq!(on_read(ReadEvent::State(StreamState::Ready)), ReadAction::Peek);
    assert_eq!(on_read(ReadEvent::State(StreamState::Creating)), ReadAction::Rest);
    assert_eq!(on_read(ReadEvent::Peeked(Peek::Data)), ReadAction::Measure);
    assert_eq!(on_read(ReadEvent::Peeked(Peek::Hole)), ReadAction::Discard);
    assert_eq!(on_read(ReadEvent::Peeked(Peek::Empty)), ReadAction::Rest);
    assert_eq!(on_read(ReadEvent::Peeked(Peek::Error)), ReadAction::ReportFailure);
}

#[test]
fn a_signal_to_exit_reaches_the_reader() {
    let mut monitors: Monitors<&'static str> = Monitors::default();
    let mut rx = start_one(&mut monitors, sink(1), "stream");
    assert_eq!(begin_read(&mut rx), ReadAction::ReadState);
    let mut states: IdentMap<StreamState> = IdentMap::new();
    states.insert(sink(1), StreamState::Ready);
    monitors.filter(&states, &IdentMap::new());
    assert_eq!(begin_read(&mut rx), ReadAction::Disconnect);
    assert_eq!(begin_read(&mut rx), ReadAction::ReadState);
}
