//! Which objects of the sound server have their volume monitored.

use super::common::{EntryIdentifier, StreamState};
use super::ident_map::{as_map, entry_at, idents_differ, lemma_entry_in_map, IdentMap};
use super::stream::{
    create, monitor_samples, monitor_spec, CreatePhase, SampleFormat, SampleSpec, StreamAction,
};
use tokio::sync::mpsc;
use vstd::prelude::*;

verus! {

/// How many times in a row a monitor may fail to start before the count of its
/// failures begins anew.
pub const MAX_FAILURES: usize = 5;

/// What a monitor is sent to make it close its stream.
pub const EXIT_SIGNAL: u32 = 0;

/// The sending half of an unbounded `tokio` channel. The value stands for the
/// handle together with what has been sent through it.
#[verifier::external_type_specification]
#[verifier::external_body]
#[verifier::reject_recursive_types(T)]
pub struct ExUnboundedSender<T>(mpsc::UnboundedSender<T>);

/// The receiving half of an unbounded `tokio` channel.
#[verifier::external_type_specification]
#[verifier::external_body]
#[verifier::reject_recursive_types(T)]
pub struct ExUnboundedReceiver<T>(mpsc::UnboundedReceiver<T>);

/// What `tokio` returns for a message whose channel has no receiver any more.
#[verifier::external_type_specification]
#[verifier::external_body]
#[verifier::reject_recursive_types(T)]
pub struct ExSendError<T>(mpsc::error::SendError<T>);

/// What has been sent through a handle, first to last.
pub uninterp spec fn sent_through(tx: mpsc::UnboundedSender<u32>) -> Seq<u32>;

/// The channel that a handle leads to.
pub uninterp spec fn channel_of(tx: mpsc::UnboundedSender<u32>) -> int;

/// The channel that is received from.
pub uninterp spec fn channel_read_by(rx: mpsc::UnboundedReceiver<u32>) -> int;

/// `tokio::sync::mpsc::unbounded_channel`: makes a channel without a bound and
/// returns its two halves. Nothing has been sent through the one yet, and it
/// leads to what the other receives from.
#[verifier::external_body]
fn unbounded_channel() -> (halves: (mpsc::UnboundedSender<u32>, mpsc::UnboundedReceiver<u32>))
    ensures
        sent_through(halves.0) == Seq::<u32>::empty(),
        channel_of(halves.0) == channel_read_by(halves.1),
{
    mpsc::unbounded_channel()
}

/// `tokio::sync::mpsc::UnboundedSender::send`: sends one message through the
/// handle, without waiting. Whether a receiver is still there to take it depends
/// on the other side, so nothing is said of the result. The handle is borrowed
/// for change, though the call would do without, so that what was sent through it
/// can be told.
#[verifier::external_body]
fn send_through(tx: &mut mpsc::UnboundedSender<u32>, message: u32) -> (outcome: Result<
    (),
    mpsc::error::SendError<u32>,
>)
    ensures
        channel_of(*final(tx)) == channel_of(*old(tx)),
        sent_through(*final(tx)) == sent_through(*old(tx)).push(message),
{
    tx.send(message)
}

/// The handle by which a monitor is told to close its stream.
pub struct ExitSender {
    tx: mpsc::UnboundedSender<u32>,
}

impl ExitSender {
    /// The channel that leads to the monitor.
    pub closed spec fn channel(&self) -> int {
        channel_of(self.tx)
    }

    /// What has been sent to the monitor, first to last.
    pub closed spec fn sent(&self) -> Seq<u32> {
        sent_through(self.tx)
    }

    /// Makes a channel and returns its sending half, wrapped, and its receiving
    /// half.
    pub fn open() -> (halves: (ExitSender, mpsc::UnboundedReceiver<u32>))
        ensures
            halves.0.sent() == Seq::<u32>::empty(),
            halves.0.channel() == channel_read_by(halves.1),
    {
        let (tx, rx) = unbounded_channel();
        (ExitSender { tx }, rx)
    }

    /// Sends a signal. That the monitor may be gone already is no error.
    pub fn send(&mut self, signal: u32)
        ensures
            final(self).channel() == old(self).channel(),
            final(self).sent() == old(self).sent().push(signal),
    {
        let _ = send_through(&mut self.tx, signal);
    }
}

/// A stream that listens to an object, and the handle that closes it.
pub struct Monitor<S> {
    pub stream: S,
    pub exit_sender: ExitSender,
}

/// Whether `after` is the monitor `before`, having been told to exit if it is
/// not wanted and not if it is.
pub open spec fn told<S>(before: Monitor<S>, after: Monitor<S>, wanted: bool) -> bool {
    &&& after.stream == before.stream
    &&& after.exit_sender.channel() == before.exit_sender.channel()
    &&& after.exit_sender.sent() == if wanted {
        before.exit_sender.sent()
    } else {
        before.exit_sender.sent().push(EXIT_SIGNAL)
    }
}

/// Whether `after` is what a sweep leaves of the monitors `before`, and `gone`
/// what it takes out of them. Those whose streams are over are taken out as they
/// were, without having been sent anything; of the others those that no target
/// asks for have been told to exit.
pub open spec fn swept<S>(
    before: Map<EntryIdentifier, Monitor<S>>,
    states: Map<EntryIdentifier, StreamState>,
    targets: Map<EntryIdentifier, Option<u32>>,
    after: Map<EntryIdentifier, Monitor<S>>,
    gone: Map<EntryIdentifier, Monitor<S>>,
) -> bool {
    &&& forall|ident: EntryIdentifier| #[trigger]
        gone.contains_key(ident) == (before.contains_key(ident) && states[ident].over())
    &&& forall|ident: EntryIdentifier| #[trigger]
        gone.contains_key(ident) ==> gone[ident] == before[ident]
    &&& forall|ident: EntryIdentifier| #[trigger]
        after.contains_key(ident) == (before.contains_key(ident) && !states[ident].over())
    &&& forall|ident: EntryIdentifier| #[trigger]
        after.contains_key(ident) ==> told(
            before[ident],
            after[ident],
            targets.contains_key(ident),
        )
}

/// What a sweep of the monitors comes to.
pub struct Filtered<S> {
    /// The targets without a monitor, for which one is to be started.
    pub missing: Vec<(EntryIdentifier, Option<u32>)>,
    /// The monitors that were taken out.
    pub gone: IdentMap<Monitor<S>>,
}

/// An attempt to start a monitor: for which object, and the handle by which the
/// monitor will be told to exit.
pub struct Attempt {
    ident: EntryIdentifier,
    exit_sender: ExitSender,
}

impl Attempt {
    /// The object.
    pub closed spec fn ident(&self) -> EntryIdentifier {
        self.ident
    }

    /// The handle.
    pub closed spec fn exit_sender(&self) -> ExitSender {
        self.exit_sender
    }
}

/// The stream that an attempt asks for: how its creation begins, and the half of
/// a channel on which it is told to close.
pub struct StreamRequest {
    pub phase: CreatePhase,
    pub actions: Vec<StreamAction>,
    pub close_rx: mpsc::UnboundedReceiver<u32>,
}

/// Whether a stream is asked for that records what a monitor of the object does,
/// from this source, and that listens to the handle of the attempt, through which
/// nothing has been sent.
pub open spec fn asks_for(
    attempt: Attempt,
    request: StreamRequest,
    ident: EntryIdentifier,
    source: Option<u32>,
) -> bool {
    &&& attempt.ident() == ident
    &&& attempt.exit_sender().sent() == Seq::<u32>::empty()
    &&& attempt.exit_sender().channel() == channel_read_by(request.close_rx)
    &&& request.phase == (CreatePhase::Opening { ident, source })
    &&& request.actions@ == seq![StreamAction::Open(monitor_samples())]
}

/// The failure counts once an attempt to start a monitor begins: a count that
/// has reached the limit is forgotten.
pub open spec fn counts_at_attempt(
    errors: Map<EntryIdentifier, usize>,
    ident: EntryIdentifier,
) -> Map<EntryIdentifier, usize> {
    if errors.contains_key(ident) && errors[ident] >= MAX_FAILURES {
        errors.remove(ident)
    } else {
        errors
    }
}

/// How often in a row a monitor has failed to start.
pub open spec fn failures(errors: Map<EntryIdentifier, usize>, ident: EntryIdentifier) -> int {
    if errors.contains_key(ident) {
        errors[ident] as int
    } else {
        0
    }
}

/// The failure counts after an attempt to start a monitor.
pub open spec fn counts_after_attempt(
    errors: Map<EntryIdentifier, usize>,
    ident: EntryIdentifier,
    started: bool,
) -> Map<EntryIdentifier, usize> {
    if started {
        errors.remove(ident)
    } else {
        errors.insert(ident, (failures(errors, ident) + 1) as usize)
    }
}

/// The monitors that run, and how often others have failed to start.
pub struct Monitors<S> {
    monitors: IdentMap<Monitor<S>>,
    errors: IdentMap<usize>,
}

impl<S> Default for Monitors<S> {
    fn default() -> (monitors: Self)
        ensures
            monitors.wf(),
            monitors.running() == Map::<EntryIdentifier, Monitor<S>>::empty(),
            monitors.errors() == Map::<EntryIdentifier, usize>::empty(),
    {
        Self { monitors: IdentMap::new(), errors: IdentMap::new() }
    }
}

impl<S> Monitors<S> {
    /// The monitors that run.
    pub closed spec fn running(&self) -> Map<EntryIdentifier, Monitor<S>> {
        self.monitors@
    }

    /// How often in a row the monitors that do not run have failed to start.
    pub closed spec fn errors(&self) -> Map<EntryIdentifier, usize> {
        self.errors@
    }

    /// Whether both maps are proper ones.
    pub closed spec fn maps_wf(&self) -> bool {
        &&& self.monitors.wf()
        &&& self.errors.wf()
    }

    /// Whether every count of failures is between one and the limit, and none
    /// is kept of a monitor that runs.
    pub closed spec fn wf(&self) -> bool {
        &&& self.maps_wf()
        &&& forall|ident: EntryIdentifier| #[trigger]
            self.errors@.contains_key(ident) ==> 1 <= self.errors@[ident] <= MAX_FAILURES
                && !self.monitors@.contains_key(ident)
    }

    /// The identifiers of the monitors that run.
    pub fn idents(&self) -> (idents: Vec<EntryIdentifier>)
        requires
            self.wf(),
        ensures
            idents@.no_duplicates(),
            forall|ident: EntryIdentifier|
                idents@.contains(ident) == #[trigger] self.running().contains_key(ident),
    {
        let mut idents: Vec<EntryIdentifier> = Vec::new();
        let ghost entries = self.monitors.entries@;
        let mut i: usize = 0;
        while i < self.monitors.entries.len()
            invariant
                i <= self.monitors.entries@.len(),
                entries == self.monitors.entries@,
                idents@.len() == i,
                forall|j: int| 0 <= j < i ==> #[trigger] idents@[j] == entries[j].0,
            decreases entries.len() - i,
        {
            idents.push(self.monitors.entries[i].0);
            i += 1;
        }
        proof {
            assert forall|a: int, b: int| 0 <= a < b < idents@.len() implies idents@[a]
                != idents@[b] by {
                assert(entries[a].0 != entries[b].0);
            }
            assert forall|ident: EntryIdentifier|
                idents@.contains(ident) == #[trigger] self.running().contains_key(ident) by {
                if idents@.contains(ident) {
                    let j = choose|j: int| 0 <= j < idents@.len() && idents@[j] == ident;
                    assert(entry_at(entries, ident, j));
                }
                if self.running().contains_key(ident) {
                    let j = choose|j: int| entry_at(entries, ident, j);
                    assert(idents@[j] == ident);
                }
            }
        }
        idents
    }

    /// Returns the monitor of an identifier.
    pub fn get(&self, ident: &EntryIdentifier) -> (monitor: Option<&Monitor<S>>)
        requires
            self.wf(),
        ensures
            match monitor {
                Some(monitor) => self.running().contains_key(*ident) && *monitor
                    == self.running()[*ident],
                None => !self.running().contains_key(*ident),
            },
    {
        self.monitors.get(ident)
    }

    /// Takes out the monitors whose streams are over, tells those that no target
    /// asks for to exit, and looks for the targets without a monitor, for which
    /// one is to be started. `states` holds the state of every monitor's stream.
    /// The monitors that were taken out come back to be dropped.
    pub fn filter(
        &mut self,
        states: &IdentMap<StreamState>,
        targets: &IdentMap<Option<u32>>,
    ) -> (filtered: Filtered<S>)
        requires
            old(self).wf(),
            states.wf(),
            targets.wf(),
            old(self).running().dom().subset_of(states@.dom()),
        ensures
            final(self).wf(),
            final(self).errors() == old(self).errors(),
            filtered.gone.wf(),
            swept(
                old(self).running(),
                states@,
                targets@,
                final(self).running(),
                filtered.gone@,
            ),
            filtered.missing@ == targets.entries@.filter(
                |target: (EntryIdentifier, Option<u32>)|
                    !final(self).running().contains_key(target.0),
            ),
    {
        let gone = self.sweep(states, targets);
        let mut missing: Vec<(EntryIdentifier, Option<u32>)> = Vec::new();
        let ghost wanted = |target: (EntryIdentifier, Option<u32>)|
            !self.running().contains_key(target.0);
        let mut i: usize = 0;
        while i < targets.entries.len()
            invariant
                i <= targets.entries@.len(),
                wanted == (|target: (EntryIdentifier, Option<u32>)|
                    !self.running().contains_key(target.0)),
                missing@ == targets.entries@.take(i as int).filter(wanted),
            decreases targets.entries@.len() - i,
        {
            let target: (EntryIdentifier, Option<u32>) = targets.entries[i];
            if !self.monitors.contains_key(&target.0) {
                missing.push(target);
            }
            proof {
                let upto = targets.entries@.take(i + 1);
                assert(upto.drop_last() =~= targets.entries@.take(i as int));
                assert(upto.last() == target);
                reveal(Seq::filter);
            }
            i += 1;
        }
        proof {
            assert(targets.entries@.take(i as int) =~= targets.entries@);
        }
        Filtered { missing, gone }
    }

    /// Takes out the monitors whose streams are over, and tells those that no
    /// target asks for to exit.
    fn sweep(
        &mut self,
        states: &IdentMap<StreamState>,
        targets: &IdentMap<Option<u32>>,
    ) -> (gone: IdentMap<Monitor<S>>)
        requires
            old(self).wf(),
            states.wf(),
            targets.wf(),
            old(self).running().dom().subset_of(states@.dom()),
        ensures
            final(self).wf(),
            final(self).errors() == old(self).errors(),
            gone.wf(),
            swept(old(self).running(), states@, targets@, final(self).running(), gone@),
    {
        let ghost before = self.monitors.entries@;
        let mut gone: IdentMap<Monitor<S>> = IdentMap::new();
        let mut i: usize = 0;
        while i < self.monitors.entries.len()
            invariant
                states.wf(),
                targets.wf(),
                idents_differ(before),
                before == old(self).monitors.entries@,
                forall|ident: EntryIdentifier| #[trigger]
                    as_map(before).contains_key(ident) ==> states@.contains_key(ident),
                self.errors == old(self).errors,
                idents_differ(self.monitors.entries@),
                0 <= i <= self.monitors.entries@.len(),
                idents_differ(gone.entries@),
                self.monitors.entries@.len() + gone.entries@.len() == before.len(),
                forall|k: int|
                    0 <= k < gone.entries@.len() ==> taken_out(
                        before,
                        #[trigger] gone.entries@[k],
                        states@,
                        i + gone.entries@.len(),
                    ),
                forall|p: int|
                    0 <= p < i + gone.entries@.len() && states@[(
                    #[trigger] before[p]).0].over() ==> gone.entries@.contains(before[p]),
                forall|j: int|
                    i <= j < self.monitors.entries@.len() ==> #[trigger] self.monitors.entries@[j]
                        == before[j + gone.entries@.len()],
                forall|j: int|
                    0 <= j < i ==> survives(
                        before,
                        #[trigger] self.monitors.entries@[j],
                        states@,
                        targets@,
                    ),
                forall|p: int|
                    0 <= p < i + gone.entries@.len() && !states@[(#[trigger] before[p]).0].over() ==> exists|
                        j: int,
                    |
                        0 <= j < i && (#[trigger] self.monitors.entries@[j]).0 == before[p].0,
            decreases self.monitors.entries@.len() - i,
        {
            let ident: EntryIdentifier = self.monitors.entries[i].0;
            let ghost now = self.monitors.entries@;
            let ghost taken = gone.entries@;
            let ghost here = i + taken.len();
            proof {
                assert(now[i as int] == before[here]);
                lemma_entry_in_map(before, here);
            }
            let over: bool = match states.get(&ident) {
                Some(state) => state.is_over(),
                None => false,
            };
            if over {
                let entry = self.monitors.entries.remove(i);
                gone.entries.push(entry);
                proof {
                    lemma_taken_out(before, taken, states@, here);
                    assert forall|p: int|
                        0 <= p < i + gone.entries@.len() && !states@[(#[trigger] before[p]).0].over() implies exists|
                        j: int,
                    |
                        0 <= j < i && (#[trigger] self.monitors.entries@[j]).0 == before[p].0 by {
                        let j = choose|j: int| 0 <= j < i && (#[trigger] now[j]).0 == before[p].0;
                        assert(self.monitors.entries@[j] == now[j]);
                    }
                }
            } else {
                if !targets.contains_key(&ident) {
                    self.monitors.entries[i].1.exit_sender.send(EXIT_SIGNAL);
                }
                proof {
                    assert forall|k: int| 0 <= k < taken.len() implies taken_out(
                        before,
                        #[trigger] taken[k],
                        states@,
                        here + 1,
                    ) by {
                        assert(taken_out(before, taken[k], states@, here));
                    }
                    assert forall|p: int|
                        0 <= p < here + 1 && !states@[(
                        #[trigger] before[p]).0].over() implies exists|j: int|
                        0 <= j < i + 1 && (#[trigger] self.monitors.entries@[j]).0
                            == before[p].0 by {
                        if p == here {
                            assert(self.monitors.entries@[i as int].0 == before[p].0);
                        } else {
                            let j = choose|j: int|
                                0 <= j < i && (#[trigger] now[j]).0 == before[p].0;
                            assert(self.monitors.entries@[j] == now[j]);
                        }
                    }
                }
                i += 1;
            }
        }
        proof {
            lemma_gone(before, gone.entries@, states@);
            let after = self.monitors.entries@;
            assert forall|ident: EntryIdentifier| #[trigger]
                as_map(after).contains_key(ident) == (as_map(before).contains_key(ident)
                    && !states@[ident].over()) && (as_map(after).contains_key(ident) ==> told(
                as_map(before)[ident],
                as_map(after)[ident],
                targets@.contains_key(ident),
            )) by {
                if as_map(after).contains_key(ident) {
                    let j = choose|j: int| entry_at(after, ident, j);
                    assert(survives(before, after[j], states@, targets@));
                    lemma_entry_in_map(after, j);
                }
                if as_map(before).contains_key(ident) && !states@[ident].over() {
                    let p = choose|p: int| entry_at(before, ident, p);
                    assert(before[p].0 == ident);
                    let j = choose|j: int|
                        0 <= j < after.len() && (#[trigger] after[j]).0 == before[p].0;
                    assert(entry_at(after, ident, j));
                }
            }
        }
        gone
    }

    /// Begins an attempt to start a monitor: a count of failures that has reached
    /// the limit is forgotten, and if no monitor runs for the object, a stream is
    /// asked for.
    pub fn create_monitor(&mut self, ident: EntryIdentifier, monitor_src: Option<u32>) -> (begun:
        Option<(Attempt, StreamRequest)>)
        requires
            old(self).wf(),
        ensures
            final(self).wf(),
            final(self).running() == old(self).running(),
            final(self).errors() == counts_at_attempt(old(self).errors(), ident),
            failures(final(self).errors(), ident) < MAX_FAILURES,
            begun is None == old(self).running().contains_key(ident),
            begun matches Some(begun) ==> asks_for(begun.0, begun.1, ident, monitor_src),
            begun matches Some(begun) ==> {
                &&& begun.0.ident() == ident
                &&& begun.1.phase == (CreatePhase::Opening { ident, source: monitor_src })
                &&& begun.1.actions@ == seq![
                    StreamAction::Open(
                        SampleSpec { format: SampleFormat::Float32Ne, channels: 1, rate: 20 },
                    ),
                ]
                &&& begun.0.exit_sender().channel() == channel_read_by(begun.1.close_rx)
                &&& begun.0.exit_sender().sent() == Seq::<u32>::empty()
            },
            final(self).errors() == if old(self).errors().contains_key(ident)
                && old(self).errors()[ident] >= 5 {
                old(self).errors().remove(ident)
            } else {
                old(self).errors()
            },
    {
        let spent: bool = match self.errors.get(&ident) {
            Some(count) => *count >= MAX_FAILURES,
            None => false,
        };
        if spent {
            self.errors.remove(&ident);
        }
        if self.monitors.contains_key(&ident) {
            return None;
        }
        let (exit_sender, close_rx) = ExitSender::open();
        let (phase, actions) = create(monitor_spec(), ident, monitor_src);
        Some((Attempt { ident, exit_sender }, StreamRequest { phase, actions, close_rx }))
    }

    /// Ends an attempt to start a monitor. With a stream the monitor runs, with
    /// the handle of the attempt, and its failures are forgotten; without one they
    /// are one more.
    pub fn finish_monitor(&mut self, attempt: Attempt, created: Option<S>)
        requires
            old(self).wf(),
            !old(self).running().contains_key(attempt.ident()),
            failures(old(self).errors(), attempt.ident()) < MAX_FAILURES,
        ensures
            final(self).wf(),
            final(self).errors() == counts_after_attempt(
                old(self).errors(),
                attempt.ident(),
                created is Some,
            ),
            final(self).errors() == if created is Some {
                old(self).errors().remove(attempt.ident())
            } else if old(self).errors().contains_key(attempt.ident()) {
                old(self).errors().insert(
                    attempt.ident(),
                    (old(self).errors()[attempt.ident()] + 1) as usize,
                )
            } else {
                old(self).errors().insert(attempt.ident(), 1)
            },
            final(self).running() == match created {
                Some(stream) => old(self).running().insert(
                    attempt.ident(),
                    Monitor { stream, exit_sender: attempt.exit_sender() },
                ),
                None => old(self).running(),
            },
    {
        let Attempt { ident, exit_sender } = attempt;
        match created {
            Some(stream) => {
                self.monitors.insert(ident, Monitor { stream, exit_sender });
                self.errors.remove(&ident);
            },
            None => {
                self.error(&ident);
            },
        }
    }

    /// Counts one more failure to start a monitor.
    fn error(&mut self, ident: &EntryIdentifier)
        requires
            old(self).maps_wf(),
            failures(old(self).errors(), *ident) < usize::MAX,
        ensures
            final(self).maps_wf(),
            final(self).running() == old(self).running(),
            final(self).errors() == old(self).errors().insert(
                *ident,
                (failures(old(self).errors(), *ident) + 1) as usize,
            ),
    {
        let count: usize = match self.errors.get(ident) {
            Some(count) => *count,
            None => 0,
        };
        self.errors.insert(*ident, count + 1);
    }

    /// How often in a row a monitor has failed to start.
    pub fn failure_count(&self, ident: &EntryIdentifier) -> (count: usize)
        requires
            self.wf(),
        ensures
            count == failures(self.errors(), *ident),
            count == if self.errors().contains_key(*ident) {
                self.errors()[*ident]
            } else {
                0
            },
    {
        match self.errors.get(ident) {
            Some(count) => *count,
            None => 0,
        }
    }
}

/// Whether an entry is what becomes of some entry whose stream is not over.
spec fn survives<S>(
    before: Seq<(EntryIdentifier, Monitor<S>)>,
    entry: (EntryIdentifier, Monitor<S>),
    states: Map<EntryIdentifier, StreamState>,
    targets: Map<EntryIdentifier, Option<u32>>,
) -> bool {
    &&& !states[entry.0].over()
    &&& as_map(before).contains_key(entry.0)
    &&& told(as_map(before)[entry.0], entry.1, targets.contains_key(entry.0))
}

/// Whether an entry is one of the first `upto`, and its stream is over.
spec fn taken_out<S>(
    before: Seq<(EntryIdentifier, Monitor<S>)>,
    entry: (EntryIdentifier, Monitor<S>),
    states: Map<EntryIdentifier, StreamState>,
    upto: int,
) -> bool {
    &&& states[entry.0].over()
    &&& exists|p: int| 0 <= p < upto && #[trigger] before[p] == entry
}

/// What has been taken out stays a proper list when the entry at `here` joins
/// it.
proof fn lemma_taken_out<S>(
    before: Seq<(EntryIdentifier, Monitor<S>)>,
    taken: Seq<(EntryIdentifier, Monitor<S>)>,
    states: Map<EntryIdentifier, StreamState>,
    here: int,
)
    requires
        idents_differ(before),
        idents_differ(taken),
        0 <= here < before.len(),
        states[before[here].0].over(),
        forall|k: int|
            0 <= k < taken.len() ==> taken_out(before, #[trigger] taken[k], states, here),
        forall|p: int|
            0 <= p < here && states[(#[trigger] before[p]).0].over() ==> taken.contains(before[p]),
    ensures
        ({
            let more = taken.push(before[here]);
            &&& idents_differ(more)
            &&& forall|k: int|
                0 <= k < more.len() ==> taken_out(before, #[trigger] more[k], states, here + 1)
            &&& forall|p: int|
                0 <= p < here + 1 && states[(#[trigger] before[p]).0].over() ==> more.contains(
                    before[p],
                )
        }),
{
    let more = taken.push(before[here]);
    assert forall|k: int| 0 <= k < more.len() implies taken_out(
        before,
        #[trigger] more[k],
        states,
        here + 1,
    ) by {
        if k < taken.len() {
            assert(taken_out(before, taken[k], states, here));
        } else {
            assert(before[here] == more[k]);
        }
    }
    assert forall|a: int, b: int| 0 <= a < b < more.len() implies (#[trigger] more[a]).0 != (
    #[trigger] more[b]).0 by {
        if b == taken.len() {
            assert(taken_out(before, taken[a], states, here));
            let p = choose|p: int| 0 <= p < here && #[trigger] before[p] == taken[a];
            assert(before[p].0 != before[here].0);
        } else {
            assert(taken[a].0 != taken[b].0);
        }
    }
    assert forall|p: int|
        0 <= p < here + 1 && states[(#[trigger] before[p]).0].over() implies more.contains(
        before[p],
    ) by {
        if p < here {
            let k = choose|k: int| 0 <= k < taken.len() && taken[k] == before[p];
            assert(more[k] == before[p]);
        } else {
            assert(more[taken.len() as int] == before[p]);
        }
    }
}

/// What has been taken out in the end are the entries whose streams are over.
proof fn lemma_gone<S>(
    before: Seq<(EntryIdentifier, Monitor<S>)>,
    gone: Seq<(EntryIdentifier, Monitor<S>)>,
    states: Map<EntryIdentifier, StreamState>,
)
    requires
        idents_differ(before),
        idents_differ(gone),
        forall|k: int|
            0 <= k < gone.len() ==> taken_out(
                before,
                #[trigger] gone[k],
                states,
                before.len() as int,
            ),
        forall|p: int|
            0 <= p < before.len() && states[(#[trigger] before[p]).0].over() ==> gone.contains(
                before[p],
            ),
    ensures
        forall|ident: EntryIdentifier| #[trigger]
            as_map(gone).contains_key(ident) == (as_map(before).contains_key(ident)
                && states[ident].over()),
        forall|ident: EntryIdentifier| #[trigger]
            as_map(gone).contains_key(ident) ==> as_map(gone)[ident] == as_map(before)[ident],
{
    assert forall|ident: EntryIdentifier| #[trigger]
        as_map(gone).contains_key(ident) == (as_map(before).contains_key(ident)
            && states[ident].over()) && (as_map(gone).contains_key(ident) ==> as_map(gone)[ident]
        == as_map(before)[ident]) by {
        if as_map(gone).contains_key(ident) {
            let k = choose|k: int| entry_at(gone, ident, k);
            assert(taken_out(before, gone[k], states, before.len() as int));
            let p = choose|p: int| 0 <= p < before.len() && #[trigger] before[p] == gone[k];
            lemma_entry_in_map(gone, k);
            lemma_entry_in_map(before, p);
        }
        if as_map(before).contains_key(ident) && states[ident].over() {
            let p = choose|p: int| entry_at(before, ident, p);
            assert(before[p].0 == ident);
            let k = choose|k: int| 0 <= k < gone.len() && gone[k] == before[p];
            assert(entry_at(gone, ident, k));
        }
    }
}

/// The failure counts after `attempts` attempts to start a monitor, all failed.
pub open spec fn counts_after_failures(
    errors: Map<EntryIdentifier, usize>,
    ident: EntryIdentifier,
    attempts: nat,
) -> Map<EntryIdentifier, usize>
    decreases attempts,
{
    if attempts == 0 {
        errors
    } else {
        counts_after_attempt(
            counts_at_attempt(
                counts_after_failures(errors, ident, (attempts - 1) as nat),
                ident,
            ),
            ident,
            false,
        )
    }
}

/// Failures in a row are counted from one up to the limit, and then from one
/// again; the counts of other monitors do not move.
pub proof fn law_failures_cycle(
    errors: Map<EntryIdentifier, usize>,
    ident: EntryIdentifier,
    attempts: nat,
)
    requires
        !errors.contains_key(ident),
    ensures
        failures(counts_after_failures(errors, ident, attempts), ident) == if attempts == 0 {
            0
        } else {
            (attempts - 1) % MAX_FAILURES as int + 1
        },
        counts_after_failures(errors, ident, attempts).remove(ident) == errors,
    decreases attempts,
{
    if attempts > 0 {
        let earlier = (attempts - 1) as nat;
        law_failures_cycle(errors, ident, earlier);
        let before = counts_after_failures(errors, ident, earlier);
        assert(counts_at_attempt(before, ident).remove(ident) =~= errors);
        assert(counts_after_failures(errors, ident, attempts).remove(ident) =~= errors);
    } else {
        assert(errors.remove(ident) =~= errors);
    }
}

/// A monitor that starts has no failures on record, however many it had.
pub proof fn law_success_forgets_failures(
    errors: Map<EntryIdentifier, usize>,
    ident: EntryIdentifier,
)
    ensures
        failures(counts_after_attempt(counts_at_attempt(errors, ident), ident, true), ident) == 0,
{
}

/// Every count of failures is between one and the limit, and none is kept of a
/// monitor that runs.
pub proof fn law_counts_are_bounded<S>(monitors: Monitors<S>, ident: EntryIdentifier)
    requires
        monitors.wf(),
        monitors.errors().contains_key(ident),
    ensures
        1 <= monitors.errors()[ident] <= MAX_FAILURES,
        !monitors.running().contains_key(ident),
{
}

/// What a sweep does to a monitor goes by the state of its stream, and then by
/// whether its object is a target, whatever source the target names. With a stream
/// that failed or was terminated it leaves as it was. Otherwise it stays with its
/// stream and its channel; if its object is a target it is sent nothing, and if
/// not it is sent a zero, once.
pub proof fn law_sweeps_go_by_state_and_target<S>(
    before: Map<EntryIdentifier, Monitor<S>>,
    states: Map<EntryIdentifier, StreamState>,
    targets: Map<EntryIdentifier, Option<u32>>,
    after: Map<EntryIdentifier, Monitor<S>>,
    gone: Map<EntryIdentifier, Monitor<S>>,
    ident: EntryIdentifier,
)
    requires
        swept(before, states, targets, after, gone),
    ensures
        ({
            let dead = states[ident] is Failed || states[ident] is Terminated;
            &&& after.contains_key(ident) <==> before.contains_key(ident) && !dead
            &&& gone.contains_key(ident) <==> before.contains_key(ident) && dead
            &&& gone.contains_key(ident) ==> gone[ident] == before[ident]
            &&& after.contains_key(ident) ==> {
                &&& after[ident].stream == before[ident].stream
                &&& after[ident].exit_sender.channel() == before[ident].exit_sender.channel()
                &&& targets.contains_key(ident) ==> after[ident].exit_sender.sent()
                    == before[ident].exit_sender.sent()
                &&& !targets.contains_key(ident) ==> after[ident].exit_sender.sent()
                    == before[ident].exit_sender.sent().push(0u32)
            }
        }),
{
    assert(after.contains_key(ident) == (before.contains_key(ident) && !states[ident].over()));
    assert(gone.contains_key(ident) == (before.contains_key(ident) && states[ident].over()));
}

/// A failure to start is counted: after an attempt that failed, the count of the
/// object is one more than before, or one if it had none or had reached five; and
/// after one that did not fail it has none. The counts of all others stay.
pub proof fn law_attempts_count_failures(
    errors: Map<EntryIdentifier, usize>,
    ident: EntryIdentifier,
    other: EntryIdentifier,
    started: bool,
)
    requires
        other != ident,
    ensures
        ({
            let after = counts_after_attempt(counts_at_attempt(errors, ident), ident, started);
            &&& started <==> !after.contains_key(ident)
            &&& !started ==> after[ident] == if errors.contains_key(ident) && errors[ident] < 5 {
                (errors[ident] + 1) as usize
            } else {
                1usize
            }
            &&& after.contains_key(other) == errors.contains_key(other)
            &&& errors.contains_key(other) ==> after[other] == errors[other]
        }),
{
}

/// A monitor that is wanted and whose stream is not over is left alone by a
/// sweep: it keeps its stream and is sent nothing.
pub proof fn law_wanted_monitors_are_left_alone<S>(
    before: Map<EntryIdentifier, Monitor<S>>,
    states: Map<EntryIdentifier, StreamState>,
    targets: Map<EntryIdentifier, Option<u32>>,
    after: Map<EntryIdentifier, Monitor<S>>,
    gone: Map<EntryIdentifier, Monitor<S>>,
    ident: EntryIdentifier,
)
    requires
        swept(before, states, targets, after, gone),
        before.contains_key(ident),
        !states[ident].over(),
        targets.contains_key(ident),
    ensures
        after.contains_key(ident),
        after[ident].stream == before[ident].stream,
        after[ident].exit_sender.channel() == before[ident].exit_sender.channel(),
        after[ident].exit_sender.sent() == before[ident].exit_sender.sent(),
{
    assert(after.contains_key(ident));
}

/// A monitor whose stream is over leaves in a sweep as it was: it is sent
/// nothing, whether or not a target asks for it.
pub proof fn law_monitors_that_are_over_are_sent_nothing<S>(
    before: Map<EntryIdentifier, Monitor<S>>,
    states: Map<EntryIdentifier, StreamState>,
    targets: Map<EntryIdentifier, Option<u32>>,
    after: Map<EntryIdentifier, Monitor<S>>,
    gone: Map<EntryIdentifier, Monitor<S>>,
    ident: EntryIdentifier,
)
    requires
        swept(before, states, targets, after, gone),
        before.contains_key(ident),
        states[ident].over(),
    ensures
        !after.contains_key(ident),
        gone.contains_key(ident),
        gone[ident] == before[ident],
        gone[ident].exit_sender.sent() == before[ident].exit_sender.sent(),
{
    assert(gone.contains_key(ident));
}

/// A sweep for no targets tells every monitor that is left to exit, and finds
/// none to be started.
pub proof fn law_without_targets_all_are_told_to_exit<S>(
    before: Map<EntryIdentifier, Monitor<S>>,
    states: Map<EntryIdentifier, StreamState>,
    targets: IdentMap<Option<u32>>,
    after: Map<EntryIdentifier, Monitor<S>>,
    gone: Map<EntryIdentifier, Monitor<S>>,
    missing: Seq<(EntryIdentifier, Option<u32>)>,
)
    requires
        targets.entries@.len() == 0,
        swept(before, states, targets@, after, gone),
        missing == targets.entries@.filter(
            |target: (EntryIdentifier, Option<u32>)| !after.contains_key(target.0),
        ),
    ensures
        forall|ident: EntryIdentifier| #[trigger]
            after.contains_key(ident) ==> after[ident].exit_sender.sent()
                == before[ident].exit_sender.sent().push(EXIT_SIGNAL),
        missing.len() == 0,
{
    reveal(Seq::filter);
    assert forall|ident: EntryIdentifier| !#[trigger] targets@.contains_key(ident) by {
        if targets@.contains_key(ident) {
            let at = choose|at: int| entry_at(targets.entries@, ident, at);
            assert(entry_at(targets.entries@, ident, at));
        }
    }
}

/// After a sweep every target either has a monitor or is among those for which
/// one is to be started, and never both; and what is to be started is a target.
pub proof fn law_targets_are_covered<S>(
    running: Map<EntryIdentifier, Monitor<S>>,
    targets: Seq<(EntryIdentifier, Option<u32>)>,
    missing: Seq<(EntryIdentifier, Option<u32>)>,
)
    requires
        missing == targets.filter(
            |target: (EntryIdentifier, Option<u32>)| !running.contains_key(target.0),
        ),
    ensures
        forall|i: int|
            0 <= i < targets.len() ==> running.contains_key((#[trigger] targets[i]).0)
                != missing.contains(targets[i]),
        forall|i: int|
            0 <= i < missing.len() ==> targets.contains(#[trigger] missing[i])
                && !running.contains_key(missing[i].0),
{
    let wanted = |target: (EntryIdentifier, Option<u32>)| !running.contains_key(target.0);
    assert forall|i: int| 0 <= i < targets.len() implies running.contains_key(
        (#[trigger] targets[i]).0,
    ) != missing.contains(targets[i]) by {
        if !running.contains_key(targets[i].0) {
            targets.lemma_filter_contains(wanted, i);
        } else if missing.contains(targets[i]) {
            let j = choose|j: int| 0 <= j < missing.len() && missing[j] == targets[i];
            targets.lemma_filter_pred(wanted, j);
        }
    }
    lemma_filter_comes_from(targets, wanted);
    assert forall|i: int| 0 <= i < missing.len() implies targets.contains(#[trigger] missing[i])
        && !running.contains_key(missing[i].0) by {
        targets.lemma_filter_pred(wanted, i);
    }
}

/// The monitors that run after a number of attempts to start one. An attempt
/// that failed has no monitor.
pub open spec fn running_after_attempts<S>(
    running: Map<EntryIdentifier, Monitor<S>>,
    attempts: Seq<(EntryIdentifier, Option<Monitor<S>>)>,
) -> Map<EntryIdentifier, Monitor<S>>
    decreases attempts.len(),
{
    if attempts.len() == 0 {
        running
    } else {
        let before = running_after_attempts(running, attempts.drop_last());
        match attempts.last().1 {
            Some(monitor) => before.insert(attempts.last().0, monitor),
            None => before,
        }
    }
}

/// Whether one of the attempts gave an identifier a monitor.
pub open spec fn attempt_started<S>(
    attempts: Seq<(EntryIdentifier, Option<Monitor<S>>)>,
    ident: EntryIdentifier,
) -> bool {
    exists|i: int|
        0 <= i < attempts.len() && (#[trigger] attempts[i]).0 == ident && attempts[i].1 is Some
}

/// After a number of attempts, of which any may fail, the monitors that run are
/// those that ran before and those of the attempts that did not fail. One that
/// no attempt started anew is the one that ran before.
pub proof fn law_attempts_add_what_they_start<S>(
    running: Map<EntryIdentifier, Monitor<S>>,
    attempts: Seq<(EntryIdentifier, Option<Monitor<S>>)>,
)
    ensures
        forall|ident: EntryIdentifier| #[trigger]
            running_after_attempts(running, attempts).contains_key(ident) == (
            running.contains_key(ident) || attempt_started(attempts, ident)),
        forall|ident: EntryIdentifier|
            !attempt_started(attempts, ident) && running.contains_key(ident)
                ==> #[trigger] running_after_attempts(running, attempts)[ident]
                == running[ident],
    decreases attempts.len(),
{
    if attempts.len() > 0 {
        let rest = attempts.drop_last();
        let last = attempts.len() - 1;
        law_attempts_add_what_they_start(running, rest);
        assert forall|ident: EntryIdentifier| #[trigger]
            attempt_started(attempts, ident) == (attempt_started(rest, ident) || (
            attempts[last].0 == ident && attempts[last].1 is Some)) by {
            if attempt_started(rest, ident) {
                let i = choose|i: int|
                    0 <= i < rest.len() && (#[trigger] rest[i]).0 == ident && rest[i].1 is Some;
                assert(attempts[i].0 == ident);
            }
            if attempt_started(attempts, ident) {
                let i = choose|i: int|
                    0 <= i < attempts.len() && (#[trigger] attempts[i]).0 == ident
                        && attempts[i].1 is Some;
                if i < last {
                    assert(rest[i].0 == ident);
                }
            }
        }
        let before = running_after_attempts(running, rest);
        let after = running_after_attempts(running, attempts);
        assert(after == match attempts[last].1 {
            Some(monitor) => before.insert(attempts[last].0, monitor),
            None => before,
        });
        assert forall|ident: EntryIdentifier| #[trigger]
            after.contains_key(ident) == (running.contains_key(ident) || attempt_started(
                attempts,
                ident,
            )) by {
            assert(before.contains_key(ident) == (running.contains_key(ident) || attempt_started(
                rest,
                ident,
            )));
        }
        assert forall|ident: EntryIdentifier|
            !attempt_started(attempts, ident) && running.contains_key(
                ident,
            ) implies #[trigger] after[ident] == running[ident] by {
            assert(before[ident] == running[ident]);
        }
    }
}

/// Once it was attempted to start a monitor for every target that was found to
/// have none, a target has one exactly if it had one before or its attempt did
/// not fail; so every target has one if no attempt failed. The monitors that ran
/// before still do, and none was started but for a target.
pub proof fn law_targets_end_up_monitored<S>(
    running: Map<EntryIdentifier, Monitor<S>>,
    targets: Seq<(EntryIdentifier, Option<u32>)>,
    missing: Seq<(EntryIdentifier, Option<u32>)>,
    attempts: Seq<(EntryIdentifier, Option<Monitor<S>>)>,
)
    requires
        missing == targets.filter(
            |target: (EntryIdentifier, Option<u32>)| !running.contains_key(target.0),
        ),
        attempts.len() == missing.len(),
        forall|i: int| 0 <= i < attempts.len() ==> (#[trigger] attempts[i]).0 == missing[i].0,
    ensures
        forall|i: int|
            0 <= i < targets.len() ==> running_after_attempts(running, attempts).contains_key(
                (#[trigger] targets[i]).0,
            ) == (running.contains_key(targets[i].0) || attempt_started(attempts, targets[i].0)),
        (forall|i: int| 0 <= i < attempts.len() ==> (#[trigger] attempts[i]).1 is Some)
            ==> forall|i: int|
            0 <= i < targets.len() ==> running_after_attempts(running, attempts).contains_key(
                (#[trigger] targets[i]).0,
            ),
        forall|ident: EntryIdentifier|
            running.contains_key(ident) ==> #[trigger] running_after_attempts(
                running,
                attempts,
            ).contains_key(ident) && running_after_attempts(running, attempts)[ident]
                == running[ident],
        forall|ident: EntryIdentifier| #[trigger]
            running_after_attempts(running, attempts).contains_key(ident)
                ==> running.contains_key(ident) || exists|i: int|
                0 <= i < targets.len() && (#[trigger] targets[i]).0 == ident,
{
    law_targets_are_covered(running, targets, missing);
    law_attempts_add_what_they_start(running, attempts);
    let after = running_after_attempts(running, attempts);
    if forall|i: int| 0 <= i < attempts.len() ==> (#[trigger] attempts[i]).1 is Some {
        assert forall|i: int| 0 <= i < targets.len() implies after.contains_key(
            (#[trigger] targets[i]).0,
        ) by {
            if !running.contains_key(targets[i].0) {
                let j = choose|j: int| 0 <= j < missing.len() && missing[j] == targets[i];
                assert(attempts[j].0 == targets[i].0);
                assert(attempt_started(attempts, targets[i].0));
            }
        }
    }
    assert forall|ident: EntryIdentifier| attempt_started(attempts, ident) implies
        !running.contains_key(ident) && exists|i: int|
        0 <= i < targets.len() && (#[trigger] targets[i]).0 == ident by {
        let j = choose|j: int|
            0 <= j < attempts.len() && (#[trigger] attempts[j]).0 == ident && attempts[j].1 is Some;
        assert(targets.contains(missing[j]));
        let i = choose|i: int| 0 <= i < targets.len() && targets[i] == missing[j];
        assert(targets[i].0 == ident);
    }
}

proof fn lemma_filter_comes_from<A>(s: Seq<A>, pred: spec_fn(A) -> bool)
    ensures
        forall|i: int| 0 <= i < s.filter(pred).len() ==> s.contains(#[trigger] s.filter(pred)[i]),
    decreases s.len(),
{
    reveal(Seq::filter);
    if s.len() > 0 {
        lemma_filter_comes_from(s.drop_last(), pred);
        assert forall|i: int| 0 <= i < s.filter(pred).len() implies s.contains(
            #[trigger] s.filter(pred)[i],
        ) by {
            let rest = s.drop_last().filter(pred);
            if i < rest.len() {
                assert(s.drop_last().contains(rest[i]));
                let j = choose|j: int|
                    0 <= j < s.drop_last().len() && s.drop_last()[j] == rest[i];
                assert(s[j] == rest[i]);
            } else {
                assert(s[s.len() - 1] == s.last());
            }
        }
    }
}

/// Copies a slice of exactly four bytes into an array.
pub fn slice_to_4_bytes(slice: &[u8]) -> (bytes: [u8; 4])
    requires
        slice@.len() == 4,
    ensures
        bytes@ == slice@,
{
    let bytes: [u8; 4] = [slice[0], slice[1], slice[2], slice[3]];
    assert(bytes@ =~= slice@);
    bytes
}

/// Cuts recorded data into samples of four bytes. What is left over at the end
/// is not a sample.
pub fn samples(data: &[u8]) -> (samples: Vec<[u8; 4]>)
    ensures
        samples@.len() == data@.len() / 4,
        forall|c: int|
            0 <= c < samples@.len() ==> (#[trigger] samples@[c])@ == data@.subrange(
                c * 4,
                (c + 1) * 4,
            ),
{
    let len: usize = data.len();
    let count: usize = len / 4;
    let mut samples: Vec<[u8; 4]> = Vec::new();
    let mut c: usize = 0;
    while c < count
        invariant
            c <= count,
            len == data@.len(),
            count == len / 4,
            samples@.len() == c,
            forall|k: int|
                0 <= k < c ==> (#[trigger] samples@[k])@ == data@.subrange(k * 4, (k + 1) * 4),
        decreases count - c,
    {
        let sample: [u8; 4] = slice_to_4_bytes(&data[c * 4..(c + 1) * 4]);
        samples.push(sample);
        c += 1;
    }
    samples
}

} // verus!
