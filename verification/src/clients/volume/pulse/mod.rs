//! The client of the sound server.

pub mod common;
pub mod ident_map;
pub mod monitor;
pub mod pa_interface;
pub mod stream;

use common::EntryIdentifier;
use ident_map::IdentMap;
use stream::{SampleFormat, SampleSpec};
use vstd::prelude::*;

verus! {

/// Something to be done by the sound server. `A` holds the actions that the
/// session passes on without looking at them.
#[derive(Debug)]
#[verifier::reject_recursive_types(A)]
pub enum PulseAudioAction<A> {
    /// These are the objects to be monitored, each with the source that its
    /// sound is to be taken from.
    CreateMonitors(IdentMap<Option<u32>>),
    /// Another action.
    Other(A),
}

/// A message to the session with the sound server.
#[derive(Debug)]
#[verifier::reject_recursive_types(A)]
pub enum PAInternal<A> {
    /// It is time to look after the monitors.
    Tick,
    /// An action is asked for.
    Command(Box<PulseAudioAction<A>>),
    /// Information on an object is asked for.
    AskInfo(EntryIdentifier),
}

/// A profile that a card offers.
#[derive(PartialEq, Eq, Clone, Debug)]
pub struct CardProfile {
    pub name: String,
    pub description: String,
    pub is_selected: bool,
}

/// What a recording of full quality consists of.
pub fn recording_spec() -> (spec: SampleSpec)
    ensures
        spec == (SampleSpec { format: SampleFormat::Float32Ne, channels: 1, rate: 1024 }),
{
    SampleSpec { format: SampleFormat::Float32Ne, channels: 1, rate: 1024 }
}

} // verus!
