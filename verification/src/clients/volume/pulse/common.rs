//! What the sound server's objects are called here.

use vstd::prelude::*;

verus! {

/// What the client is called in the program's log.
pub const LOGGING_MODULE: &'static str = "PAInterface";

/// The kinds of objects that have a volume or a profile.
#[derive(Clone, Copy, Debug, PartialEq, Eq, Hash, Structural)]
pub enum EntryType {
    Sink,
    Source,
    SinkInput,
    SourceOutput,
    Card,
}

/// An object of the sound server: its kind, and its index among that kind.
#[derive(Clone, Copy, Debug, PartialEq, Eq, Hash, Structural)]
pub struct EntryIdentifier {
    pub entry_type: EntryType,
    pub index: u32,
}

/// The facilities that the sound server reports events about.
#[derive(Clone, Copy, Debug, PartialEq, Eq, Hash, Structural)]
pub enum Facility {
    Sink,
    Source,
    SinkInput,
    SourceOutput,
    Module,
    Client,
    SampleCache,
    Server,
    Card,
}

/// The kind of object that a facility is about. A facility without a kind of
/// its own counts as a sink.
pub open spec fn entry_type_of(facility: Facility) -> EntryType {
    match facility {
        Facility::Source => EntryType::Source,
        Facility::SinkInput => EntryType::SinkInput,
        Facility::SourceOutput => EntryType::SourceOutput,
        Facility::Card => EntryType::Card,
        _ => EntryType::Sink,
    }
}

/// A facility is about the kind of object that it is named after, and one that
/// is named after none of these counts as a sink. So every kind but that of sinks
/// comes from its own facility alone.
pub proof fn law_kinds_come_from_their_facilities(facility: Facility)
    ensures
        ({
            let entry_type = <EntryType as vstd::std_specs::convert::FromSpec<Facility>>::from_spec(
                facility,
            );
            &&& entry_type is Source <==> facility is Source
            &&& entry_type is SinkInput <==> facility is SinkInput
            &&& entry_type is SourceOutput <==> facility is SourceOutput
            &&& entry_type is Card <==> facility is Card
            &&& entry_type is Sink <==> (facility is Sink || facility is Module
                || facility is Client || facility is SampleCache || facility is Server)
        }),
{
}

impl From<Facility> for EntryType {
    fn from(fac: Facility) -> (entry_type: EntryType) {
        match fac {
            Facility::Sink => EntryType::Sink,
            Facility::Source => EntryType::Source,
            Facility::SinkInput => EntryType::SinkInput,
            Facility::SourceOutput => EntryType::SourceOutput,
            Facility::Card => EntryType::Card,
            _ => EntryType::Sink,
        }
    }
}

impl vstd::std_specs::convert::FromSpecImpl<Facility> for EntryType {
    open spec fn obeys_from_spec() -> bool {
        true
    }

    open spec fn from_spec(fac: Facility) -> EntryType {
        entry_type_of(fac)
    }
}

/// The states that a stream goes through.
#[derive(Clone, Copy, Debug, PartialEq, Eq, Structural)]
pub enum StreamState {
    Unconnected,
    Creating,
    Ready,
    Failed,
    Terminated,
}

impl StreamState {
    /// Whether a stream in this state is beyond use.
    pub open spec fn over(self) -> bool {
        self is Failed || self is Terminated
    }

    /// Whether a stream in this state is beyond use.
    pub fn is_over(&self) -> (over: bool)
        ensures
            over == self.over(),
            over <==> self is Failed || self is Terminated,
    {
        match self {
            StreamState::Failed | StreamState::Terminated => true,
            _ => false,
        }
    }

    /// Whether whoever waits for the stream is to be woken: it is ready, or
    /// beyond use.
    pub fn is_settled(&self) -> (settled: bool)
        ensures
            settled == (self is Ready || self.over()),
            settled <==> self is Ready || self is Failed || self is Terminated,
    {
        match self {
            StreamState::Ready | StreamState::Failed | StreamState::Terminated => true,
            _ => false,
        }
    }
}

/// The states that the connection to the sound server goes through.
#[derive(Clone, Copy, Debug, PartialEq, Eq, Structural)]
pub enum ContextState {
    Unconnected,
    Connecting,
    Authorizing,
    SettingName,
    Ready,
    Failed,
    Terminated,
}

impl ContextState {
    /// Whether a connection in this state is beyond use.
    pub open spec fn over(self) -> bool {
        self is Failed || self is Terminated
    }

    /// Whether whoever waits for the connection is to be woken: it is ready, or
    /// beyond use.
    pub fn is_settled(&self) -> (settled: bool)
        ensures
            settled == (self is Ready || self.over()),
            settled <==> self is Ready || self is Failed || self is Terminated,
    {
        match self {
            ContextState::Ready | ContextState::Failed | ContextState::Terminated => true,
            _ => false,
        }
    }
}

} // verus!
