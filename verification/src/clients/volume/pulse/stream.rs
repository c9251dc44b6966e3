//! How the stream of a monitor is created and read.
//!
//! Creating a stream takes several requests to the sound server, and what is
//! asked next depends on each answer. [`create`] gives the first requests and
//! [`advance`] those that follow an answer.

use super::common::{EntryIdentifier, EntryType, StreamState};
use crate::text::{decimal, decimal_text};
use tokio::sync::mpsc;
use vstd::prelude::*;

verus! {

/// The name under which the sound server knows a monitor's stream.
pub const STREAM_NAME: &'static str = "RsMixer monitor";

/// How a sample is encoded.
#[derive(Clone, Copy, Debug, PartialEq, Eq, Structural)]
pub enum SampleFormat {
    /// A float of 32 bits in the byte order of the machine.
    Float32Ne,
}

/// What is recorded.
#[derive(Clone, Copy, Debug, PartialEq, Eq, Structural)]
pub struct SampleSpec {
    pub format: SampleFormat,
    pub channels: u8,
    pub rate: u32,
}

/// The sizes of the server's buffer. The largest value leaves a size to the
/// server.
#[derive(Clone, Copy, Debug, PartialEq, Eq, Structural)]
pub struct BufferAttr {
    pub maxlength: u32,
    pub tlength: u32,
    pub prebuf: u32,
    pub minreq: u32,
    pub fragsize: u32,
}

/// What is asked of the server beyond recording.
#[derive(Clone, Copy, Debug, PartialEq, Eq, Structural)]
pub struct RecordFlags {
    /// To give peaks rather than samples.
    pub peak_detect: bool,
    /// To suit its latency to the buffer.
    pub adjust_latency: bool,
}

/// What a monitor records: one channel, at a rate that suits a volume meter.
pub open spec fn monitor_samples() -> SampleSpec {
    SampleSpec { format: SampleFormat::Float32Ne, channels: 1, rate: 20 }
}

/// What a monitor records.
pub fn monitor_spec() -> (spec: SampleSpec)
    ensures
        spec == monitor_samples(),
        spec == (SampleSpec { format: SampleFormat::Float32Ne, channels: 1, rate: 20 }),
{
    SampleSpec { format: SampleFormat::Float32Ne, channels: 1, rate: 20 }
}

/// The buffer that a monitor asks for.
pub open spec fn monitor_buffer_spec() -> BufferAttr {
    BufferAttr {
        maxlength: u32::MAX,
        tlength: u32::MAX,
        prebuf: u32::MAX,
        minreq: 0,
        fragsize: 48,
    }
}

/// The buffer that a monitor asks for.
pub fn monitor_buffer() -> (attr: BufferAttr)
    ensures
        attr == monitor_buffer_spec(),
        attr == (BufferAttr {
            maxlength: u32::MAX,
            tlength: u32::MAX,
            prebuf: u32::MAX,
            minreq: 0,
            fragsize: 48,
        }),
{
    BufferAttr {
        maxlength: u32::MAX,
        tlength: u32::MAX,
        prebuf: u32::MAX,
        minreq: 0,
        fragsize: 48,
    }
}

/// What a monitor asks of the server beyond recording.
pub open spec fn monitor_flags_spec() -> RecordFlags {
    RecordFlags { peak_detect: true, adjust_latency: true }
}

/// What a monitor asks of the server beyond recording.
pub fn monitor_flags() -> (flags: RecordFlags)
    ensures
        flags == monitor_flags_spec(),
        flags.peak_detect,
        flags.adjust_latency,
{
    RecordFlags { peak_detect: true, adjust_latency: true }
}

/// Why a stream could not be created.
#[derive(Clone, Copy, Debug, PartialEq, Eq, Structural)]
pub enum CreateError {
    /// No stream could be made.
    NotOpened,
    /// The stream could not be connected to its source.
    NotConnected,
    /// The stream failed or ended before it was ready.
    Terminated,
}

impl CreateError {
    /// Says why the stream could not be created.
    pub fn message(&self) -> (message: String)
        ensures
            message@ == match self {
                CreateError::NotOpened => "Error creating stream for monitoring volume"@,
                CreateError::NotConnected => "while connecting stream for monitoring volume"@,
                CreateError::Terminated => "Stream terminated"@,
            },
    {
        match self {
            CreateError::NotOpened => "Error creating stream for monitoring volume".to_owned(),
            CreateError::NotConnected => "while connecting stream for monitoring volume".to_owned(),
            CreateError::Terminated => "Stream terminated".to_owned(),
        }
    }
}

/// A request to the sound server, or to its main loop.
#[derive(Clone, Copy, Debug, PartialEq, Eq, Structural)]
pub enum StreamAction {
    /// Make a stream.
    Open(SampleSpec),
    /// Have the main loop woken when the stream's state settles.
    WatchState,
    /// Listen to this sink input alone.
    MonitorStream(u32),
    /// Connect the stream for recording, to the source with this index if there
    /// is one.
    ConnectRecord { source: Option<u32>, attr: BufferAttr, flags: RecordFlags },
    /// Tell the state of the stream.
    ReadState,
    /// Wait until the main loop is woken.
    Wait,
    /// Stop watching the state.
    UnwatchState,
    /// Have what is recorded handled as [`on_read`] says.
    WatchReads,
}

/// How far the creation of a stream has come.
#[derive(Clone, Copy, Debug, PartialEq, Eq, Structural)]
pub enum CreatePhase {
    Opening { ident: EntryIdentifier, source: Option<u32> },
    Connecting,
    Waiting,
    Created,
    Refused(CreateError),
}

/// What came of the last request.
#[derive(Clone, Copy, Debug, PartialEq, Eq, Structural)]
pub enum CreateEvent {
    /// Whether a stream was made.
    Opened(bool),
    /// Whether the stream was connected.
    Connected(bool),
    /// The state of the stream.
    State(StreamState),
}

impl CreatePhase {
    /// Whether the event answers what was asked last.
    pub open spec fn expects(self, event: CreateEvent) -> bool {
        match self {
            CreatePhase::Opening { .. } => event is Opened,
            CreatePhase::Connecting => event is Connected,
            CreatePhase::Waiting => event is State,
            _ => false,
        }
    }

    /// Whether the stream's state is being watched.
    pub open spec fn watching(self) -> bool {
        match self {
            CreatePhase::Opening { .. } => false,
            CreatePhase::Connecting => true,
            CreatePhase::Waiting => true,
            CreatePhase::Created => false,
            CreatePhase::Refused(error) => !(error is NotOpened),
        }
    }

    /// The phase that an answer leads to.
    pub open spec fn next(self, event: CreateEvent) -> CreatePhase {
        match event {
            CreateEvent::Opened(true) => CreatePhase::Connecting,
            CreateEvent::Opened(false) => CreatePhase::Refused(CreateError::NotOpened),
            CreateEvent::Connected(true) => CreatePhase::Waiting,
            CreateEvent::Connected(false) => CreatePhase::Refused(CreateError::NotConnected),
            CreateEvent::State(state) => if state is Ready {
                CreatePhase::Created
            } else if state.over() {
                CreatePhase::Refused(CreateError::Terminated)
            } else {
                CreatePhase::Waiting
            },
        }
    }

    /// What is asked after an answer.
    pub open spec fn requests(self, event: CreateEvent) -> Seq<StreamAction> {
        match self.next(event) {
            CreatePhase::Connecting => {
                let connect = StreamAction::ConnectRecord {
                    source: self->source,
                    attr: monitor_buffer_spec(),
                    flags: monitor_flags_spec(),
                };
                match monitored_input(self->ident) {
                    Some(index) => seq![
                        StreamAction::WatchState,
                        StreamAction::MonitorStream(index),
                        connect,
                    ],
                    None => seq![StreamAction::WatchState, connect],
                }
            },
            CreatePhase::Waiting => if event is Connected {
                seq![StreamAction::ReadState]
            } else {
                seq![StreamAction::Wait, StreamAction::ReadState]
            },
            CreatePhase::Created => seq![StreamAction::UnwatchState, StreamAction::WatchReads],
            _ => seq![],
        }
    }
}

/// The sink input that a monitor listens to alone: the object itself, if it is
/// one.
pub open spec fn monitored_input(ident: EntryIdentifier) -> Option<u32> {
    if ident.entry_type == EntryType::SinkInput {
        Some(ident.index)
    } else {
        None
    }
}

/// Returns the sink input that a monitor listens to alone.
pub fn stream_index(ident: EntryIdentifier) -> (index: Option<u32>)
    ensures
        index == monitored_input(ident),
        index matches Some(n) ==> ident.entry_type is SinkInput && n == ident.index,
        index is None ==> !(ident.entry_type is SinkInput),
{
    if ident.entry_type == EntryType::SinkInput {
        Some(ident.index)
    } else {
        None
    }
}

/// Returns the name of the source with an index: the index in decimal notation.
pub fn source_name(source: Option<u32>) -> (name: Option<String>)
    ensures
        match source {
            Some(index) => name matches Some(name) && name@ == decimal(index as nat),
            None => name is None,
        },
{
    match source {
        Some(index) => Some(decimal_text(index)),
        None => None,
    }
}

/// Begins to create the stream of a monitor.
pub fn create(spec: SampleSpec, ident: EntryIdentifier, source: Option<u32>) -> (begun: (
    CreatePhase,
    Vec<StreamAction>,
))
    ensures
        begun.0 == (CreatePhase::Opening { ident, source }),
        begun.1@ == seq![StreamAction::Open(spec)],
{
    let mut actions: Vec<StreamAction> = Vec::new();
    actions.push(StreamAction::Open(spec));
    assert(actions@ =~= seq![StreamAction::Open(spec)]);
    (CreatePhase::Opening { ident, source }, actions)
}

/// Goes on creating a stream after an answer.
pub fn advance(phase: CreatePhase, event: CreateEvent) -> (advanced: (
    CreatePhase,
    Vec<StreamAction>,
))
    requires
        phase.expects(event),
    ensures
        advanced.0 == phase.next(event),
        advanced.1@ == phase.requests(event),
{
    let mut actions: Vec<StreamAction> = Vec::new();
    let next: CreatePhase = match (phase, event) {
        (CreatePhase::Opening { ident, source }, CreateEvent::Opened(true)) => {
            actions.push(StreamAction::WatchState);
            if let Some(index) = stream_index(ident) {
                actions.push(StreamAction::MonitorStream(index));
            }
            actions.push(
                StreamAction::ConnectRecord {
                    source,
                    attr: monitor_buffer(),
                    flags: monitor_flags(),
                },
            );
            CreatePhase::Connecting
        },
        (_, CreateEvent::Opened(_)) => CreatePhase::Refused(CreateError::NotOpened),
        (_, CreateEvent::Connected(true)) => {
            actions.push(StreamAction::ReadState);
            CreatePhase::Waiting
        },
        (_, CreateEvent::Connected(false)) => CreatePhase::Refused(CreateError::NotConnected),
        (_, CreateEvent::State(StreamState::Ready)) => {
            actions.push(StreamAction::UnwatchState);
            actions.push(StreamAction::WatchReads);
            CreatePhase::Created
        },
        (_, CreateEvent::State(StreamState::Failed | StreamState::Terminated)) => {
            CreatePhase::Refused(CreateError::Terminated)
        },
        (_, CreateEvent::State(_)) => {
            actions.push(StreamAction::Wait);
            actions.push(StreamAction::ReadState);
            CreatePhase::Waiting
        },
    };
    assert(actions@ =~= phase.requests(event));
    (next, actions)
}

/// Once the stream of a monitor is opened, its state is watched first of all. Last
/// of all it is connected to the very source that was asked for, or to none if
/// none was, whatever the object is, with a buffer of small fragments, with peaks
/// and with latency to suit. In between it is told to listen to a sink input alone
/// exactly if the object is that sink input.
pub proof fn law_opened_streams_are_connected_to_their_source(
    ident: EntryIdentifier,
    source: Option<u32>,
)
    ensures
        ({
            let begun = CreatePhase::Opening { ident, source };
            let actions = begun.requests(CreateEvent::Opened(true));
            &&& begun.expects(CreateEvent::Opened(true))
            &&& begun.next(CreateEvent::Opened(true)) is Connecting
            &&& actions.first() is WatchState
            &&& actions.last() == (StreamAction::ConnectRecord {
                source,
                attr: BufferAttr {
                    maxlength: u32::MAX,
                    tlength: u32::MAX,
                    prebuf: u32::MAX,
                    minreq: 0,
                    fragsize: 48,
                },
                flags: RecordFlags { peak_detect: true, adjust_latency: true },
            })
            &&& ident.entry_type is SinkInput ==> actions.len() == 3 && actions[1]
                == StreamAction::MonitorStream(ident.index)
            &&& !(ident.entry_type is SinkInput) ==> actions.len() == 2
            &&& forall|n: u32| #[trigger]
                actions.contains(StreamAction::MonitorStream(n))
                    <==> ident.entry_type is SinkInput && n == ident.index
        }),
{
    let begun = CreatePhase::Opening { ident, source };
    let actions = begun.requests(CreateEvent::Opened(true));
    if ident.entry_type is SinkInput {
        assert(actions[1] == StreamAction::MonitorStream(ident.index));
    }
}

/// A stream that is connected is waited for until its state is settled. As long as
/// it is not, the main loop is waited for and the state is read again. One that is
/// ready is read from, its state no longer being watched; one that failed or was
/// terminated is refused, and nothing more is asked.
pub proof fn law_streams_are_waited_for(state: StreamState)
    ensures
        ({
            let waiting = CreatePhase::Waiting;
            let event = CreateEvent::State(state);
            let connected = CreateEvent::Connected(true);
            &&& CreatePhase::Connecting.expects(connected) && waiting.expects(event)
            &&& CreatePhase::Connecting.next(connected) is Waiting
            &&& CreatePhase::Connecting.requests(connected) == seq![StreamAction::ReadState]
            &&& waiting.next(event) is Created <==> state is Ready
            &&& waiting.next(event) == CreatePhase::Refused(CreateError::Terminated)
                <==> state is Failed || state is Terminated
            &&& waiting.next(event) is Waiting <==> state is Unconnected || state is Creating
            &&& waiting.next(event) is Created ==> waiting.requests(event) == seq![
                StreamAction::UnwatchState,
                StreamAction::WatchReads,
            ]
            &&& waiting.next(event) is Refused ==> waiting.requests(event).len() == 0
            &&& waiting.next(event) is Waiting ==> waiting.requests(event) == seq![
                StreamAction::Wait,
                StreamAction::ReadState,
            ]
        }),
{
    assert(CreatePhase::Connecting.requests(CreateEvent::Connected(true)) =~= seq![
        StreamAction::ReadState,
    ]);
}

/// A stream that cannot be opened or connected is refused, for that reason, and
/// nothing more is asked.
pub proof fn law_streams_are_refused_for_what_failed(ident: EntryIdentifier, source: Option<u32>)
    ensures
        ({
            let begun = CreatePhase::Opening { ident, source };
            let (opened, connected) = (CreateEvent::Opened(false), CreateEvent::Connected(false));
            &&& begun.expects(opened) && CreatePhase::Connecting.expects(connected)
            &&& begun.next(opened) == CreatePhase::Refused(CreateError::NotOpened)
            &&& begun.requests(opened).len() == 0
            &&& CreatePhase::Connecting.next(connected) == CreatePhase::Refused(
                CreateError::NotConnected,
            )
            &&& CreatePhase::Connecting.requests(connected).len() == 0
        }),
{
}

/// The phase that a run of answers leads to.
pub open spec fn phase_after(start: CreatePhase, events: Seq<CreateEvent>) -> CreatePhase
    decreases events.len(),
{
    if events.len() == 0 {
        start
    } else {
        phase_after(start, events.drop_last()).next(events.last())
    }
}

/// Whether every answer in a run is one to what was asked before it.
pub open spec fn answers_in_turn(start: CreatePhase, events: Seq<CreateEvent>) -> bool
    decreases events.len(),
{
    events.len() > 0 ==> answers_in_turn(start, events.drop_last()) && phase_after(
        start,
        events.drop_last(),
    ).expects(events.last())
}

/// A stream counts as created exactly if it was made, then connected, and then
/// at last reported ready.
pub proof fn law_created_streams_are_ready(
    ident: EntryIdentifier,
    source: Option<u32>,
    events: Seq<CreateEvent>,
)
    requires
        answers_in_turn(CreatePhase::Opening { ident, source }, events),
    ensures
        phase_after(CreatePhase::Opening { ident, source }, events) is Created <==> {
            &&& events.len() >= 3
            &&& events[0] == CreateEvent::Opened(true)
            &&& events[1] == CreateEvent::Connected(true)
            &&& events.last() == CreateEvent::State(StreamState::Ready)
        },
    decreases events.len(),
{
    lemma_phase_shape(ident, source, events);
    if events.len() > 0 {
        lemma_phase_shape(ident, source, events.drop_last());
    }
}

proof fn lemma_phase_shape(ident: EntryIdentifier, source: Option<u32>, events: Seq<CreateEvent>)
    requires
        answers_in_turn(CreatePhase::Opening { ident, source }, events),
    ensures
        ({
            let phase = phase_after(CreatePhase::Opening { ident, source }, events);
            &&& phase is Opening <==> events.len() == 0
            &&& events.len() > 0 ==> events[0] is Opened
            &&& phase is Connecting ==> events.len() == 1 && events[0] == CreateEvent::Opened(true)
            &&& phase is Waiting || phase is Created ==> {
                &&& events.len() >= 2
                &&& events[0] == CreateEvent::Opened(true)
                &&& events[1] == CreateEvent::Connected(true)
            }
            &&& phase is Created ==> events.len() >= 3 && events.last() == CreateEvent::State(
                StreamState::Ready,
            )
        }),
    decreases events.len(),
{
    if events.len() > 0 {
        lemma_phase_shape(ident, source, events.drop_last());
        assert(events.drop_last().len() == events.len() - 1);
        if events.len() > 1 {
            assert(events.drop_last()[0] == events[0]);
        }
        if events.len() > 2 {
            assert(events.drop_last()[1] == events[1]);
        }
    }
}

/// Whether the state is watched once the actions are done, given whether it was
/// before.
pub open spec fn watched_after(before: bool, actions: Seq<StreamAction>) -> bool
    decreases actions.len(),
{
    if actions.len() == 0 {
        before
    } else if actions.last() is WatchState {
        true
    } else if actions.last() is UnwatchState {
        false
    } else {
        watched_after(before, actions.drop_last())
    }
}

/// The state of a stream is watched from the time when it is made until it is
/// ready.
pub proof fn law_state_is_watched_while_waiting(phase: CreatePhase, event: CreateEvent)
    requires
        phase.expects(event),
    ensures
        watched_after(phase.watching(), phase.requests(event)) == phase.next(event).watching(),
{
    let actions = phase.requests(event);
    reveal_with_fuel(watched_after, 4);
    if actions.len() > 0 {
        let rest = actions.drop_last();
        if rest.len() > 0 {
            assert(rest.last() == actions[actions.len() - 2]);
            if rest.drop_last().len() > 0 {
                assert(rest.drop_last().last() == actions[actions.len() - 3]);
            }
        }
    }
}

/// What the sound server has recorded.
#[derive(Clone, Copy, Debug, PartialEq, Eq, Structural)]
pub enum Peek {
    Data,
    Hole,
    Empty,
    Error,
}

/// A step in the handling of what was recorded.
#[derive(Clone, Copy, Debug, PartialEq, Eq, Structural)]
pub enum ReadEvent {
    /// Whether the monitor was told to exit.
    Close(bool),
    /// The state of the stream.
    State(StreamState),
    /// What has been recorded.
    Peeked(Peek),
}

/// What is to be done next about what was recorded.
#[derive(Clone, Copy, Debug, PartialEq, Eq, Structural)]
pub enum ReadAction {
    /// Disconnect the stream and wake the main loop.
    Disconnect,
    /// Tell the state of the stream.
    ReadState,
    /// Look at what has been recorded.
    Peek,
    /// Measure the volume of the data, then discard it.
    Measure,
    /// Discard what has been recorded.
    Discard,
    /// Report that the monitor has failed.
    ReportFailure,
    /// Nothing more.
    Rest,
}

/// What is to be done next about what was recorded.
pub open spec fn read_action(event: ReadEvent) -> ReadAction {
    match event {
        ReadEvent::Close(requested) => if requested {
            ReadAction::Disconnect
        } else {
            ReadAction::ReadState
        },
        ReadEvent::State(state) => if state.over() {
            ReadAction::ReportFailure
        } else if state is Ready {
            ReadAction::Peek
        } else {
            ReadAction::Rest
        },
        ReadEvent::Peeked(peek) => match peek {
            Peek::Data => ReadAction::Measure,
            Peek::Hole => ReadAction::Discard,
            Peek::Empty => ReadAction::Rest,
            Peek::Error => ReadAction::ReportFailure,
        },
    }
}

/// What is recorded is looked at only while the stream is ready, measured only if
/// it is data, and discarded if it is data or a hole. A stream is disconnected
/// exactly if it was told to close, and a failure is reported exactly if the stream
/// failed, was terminated, or cannot be looked at.
pub proof fn law_reads_go_by_what_is_found(event: ReadEvent)
    ensures
        ({
            let action = read_action(event);
            &&& action is Disconnect <==> event == ReadEvent::Close(true)
            &&& action is ReadState <==> event == ReadEvent::Close(false)
            &&& action is Peek <==> event == ReadEvent::State(StreamState::Ready)
            &&& action is Measure <==> event == ReadEvent::Peeked(Peek::Data)
            &&& action is Discard <==> event == ReadEvent::Peeked(Peek::Hole)
            &&& action is ReportFailure <==> (event == ReadEvent::State(StreamState::Failed)
                || event == ReadEvent::State(StreamState::Terminated) || event
                == ReadEvent::Peeked(Peek::Error))
            &&& action is Rest <==> (event == ReadEvent::State(StreamState::Unconnected) || event
                == ReadEvent::State(StreamState::Creating) || event == ReadEvent::Peeked(
                Peek::Empty,
            ))
        }),
{
}

/// Returns what is to be done next about what was recorded.
pub fn on_read(event: ReadEvent) -> (action: ReadAction)
    ensures
        action == read_action(event),
{
    match event {
        ReadEvent::Close(true) => ReadAction::Disconnect,
        ReadEvent::Close(false) => ReadAction::ReadState,
        ReadEvent::State(StreamState::Failed | StreamState::Terminated) => {
            ReadAction::ReportFailure
        },
        ReadEvent::State(StreamState::Ready) => ReadAction::Peek,
        ReadEvent::State(_) => ReadAction::Rest,
        ReadEvent::Peeked(Peek::Data) => ReadAction::Measure,
        ReadEvent::Peeked(Peek::Hole) => ReadAction::Discard,
        ReadEvent::Peeked(Peek::Empty) => ReadAction::Rest,
        ReadEvent::Peeked(Peek::Error) => ReadAction::ReportFailure,
    }
}

/// What `tokio` returns when there is no message to take.
#[verifier::external_type_specification]
#[verifier::external_body]
pub struct ExTryRecvError(mpsc::error::TryRecvError);

/// `tokio::sync::mpsc::UnboundedReceiver::try_recv`: takes the next message, if
/// there is one now. What the other side has sent by now is not known here, so
/// nothing is said of the result.
pub assume_specification<T>[ mpsc::UnboundedReceiver::<T>::try_recv ](
    rx: &mut mpsc::UnboundedReceiver<T>,
) -> (message: Result<T, mpsc::error::TryRecvError>)
;

/// Returns what is to be done first about what was recorded, given what was
/// taken out of the channel to the monitor: any signal tells it to exit.
pub fn on_signal<E>(signal: Result<u32, E>) -> (action: ReadAction)
    ensures
        action == read_action(ReadEvent::Close(signal is Ok)),
        signal is Ok ==> action is Disconnect,
        signal is Err ==> action is ReadState,
{
    on_read(ReadEvent::Close(signal.is_ok()))
}

/// Begins to handle what was recorded: one signal is taken out of the channel to
/// the monitor, if there is one now, and what came of that decides as
/// [`on_signal`] says. The channel is left as that one attempt leaves it.
pub fn begin_read(close_rx: &mut mpsc::UnboundedReceiver<u32>) -> (action: ReadAction)
    ensures
        exists|
            rx: &mut mpsc::UnboundedReceiver<u32>,
            signal: Result<u32, mpsc::error::TryRecvError>,
        |
            *rx == *old(close_rx) && *final(rx) == *final(close_rx) && #[trigger] call_ensures(
                mpsc::UnboundedReceiver::<u32>::try_recv,
                (rx,),
                signal,
            ) && action == read_action(ReadEvent::Close(signal is Ok)) && (signal is Ok
                ==> action is Disconnect) && (signal is Err ==> action is ReadState),
{
    on_signal(close_rx.try_recv())
}

} // verus!
