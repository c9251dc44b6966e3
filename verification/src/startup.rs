//! How the program starts, and how it builds its bars.

use crate::cached_broadcast::{Cacheable, Event};
use crate::search::{first_where, is_first_where, lemma_first_where, lemma_first_where_none};
use vstd::prelude::*;

verus! {

/// The name under which the desktop knows the application.
pub const GTK_APP_ID: &'static str = "dev.jstanger.ironbar";

/// The environment variable that names another style sheet.
pub const STYLE_VARIABLE: &'static str = "IRONBAR_CSS";

/// The environment variable that names another configuration file.
pub const CONFIG_VARIABLE: &'static str = "IRONBAR_CONFIG";

/// The directory, below the user's directory for configurations, that holds
/// ours.
pub const CONFIG_DIRECTORY: &'static str = "ironbar";

/// The style sheet in that directory.
pub const STYLE_FILE: &'static str = "style.css";

/// Why the program gave up.
#[derive(Clone, Copy, Debug, PartialEq, Eq, Structural)]
pub enum ExitCode {
    /// There is no display.
    GtkDisplay,
    /// The bars could not be created.
    CreateBars,
}

/// What the program does with its arguments.
#[derive(Debug)]
pub enum Launch<C> {
    /// It passes this command on to the program that is running.
    Send(C),
    /// It starts.
    Start,
}

/// Decides what to do with the arguments: a command is passed on, and without
/// one the program starts.
pub fn run_with_args<C>(command: Option<C>) -> (launch: Launch<C>)
    ensures
        launch == match command {
            Some(command) => Launch::Send(command),
            None => Launch::Start,
        },
{
    match command {
        Some(command) => Launch::Send(command),
        None => Launch::Start,
    }
}

/// What becomes of the reply to a command that was passed on.
#[derive(Debug)]
pub enum Reply<R, E> {
    /// It is shown.
    Show(R),
    /// None came, and the reason is logged.
    Log(E),
}

/// Decides what becomes of the reply to a command that was passed on: it is
/// shown, and if none came, that is only logged.
pub fn on_reply<R, E>(reply: Result<R, E>) -> (decided: Reply<R, E>)
    ensures
        decided == match reply {
            Ok(response) => Reply::<R, E>::Show(response),
            Err(error) => Reply::Log(error),
        },
{
    match reply {
        Ok(response) => Reply::Show(response),
        Err(error) => Reply::Log(error),
    }
}

/// How far the program has come.
#[derive(Clone, Copy, Debug, PartialEq, Eq, Structural)]
pub enum StartPhase {
    /// It was not launched yet.
    New,
    /// It was launched, and waits to be activated.
    Ready,
    /// It looks for its style sheet.
    Locating,
    /// It looks whether the style sheet exists.
    Checking,
    /// It is running.
    Running,
    /// It gave up, or was interrupted.
    Over,
}

/// Something that happens to the program as a whole.
#[derive(Clone, Copy, Debug, PartialEq, Eq, Structural)]
pub enum StartEvent {
    /// It was launched without a command.
    Launched,
    /// The desktop activates it.
    Activated,
    /// The path of the style sheet is known, or cannot be.
    StyleLocated(bool),
    /// Whether there is a file at that path.
    StyleChecked(bool),
    /// The user interrupts it.
    Interrupted,
}

/// What is to be done about it.
#[derive(Clone, Copy, Debug, PartialEq, Eq, Structural)]
pub enum StartAction {
    /// Make the application, and have its activation reported.
    MakeApplication,
    /// Read the configuration.
    LoadConfig,
    /// Have bars created for the outputs that are passed on.
    WatchOutputs,
    /// Run the application.
    Run,
    /// Report that the program is running already.
    ReportRunning,
    /// Serve commands.
    StartIpc,
    /// Find out where the style sheet is.
    LocateStyle,
    /// Find out whether it exists.
    CheckStyle,
    /// Load it.
    LoadStyle,
    /// Wait, in the background, for an interruption.
    AwaitInterrupt,
    /// Pass the display's outputs on as they come and go.
    ForwardOutputs,
    /// Have interruptions reported.
    HandleInterrupts,
    /// Stop serving commands.
    ShutdownIpc,
    /// Report the reason and exit with its code.
    Fail(ExitCode),
    /// Exit.
    Exit,
}

impl StartPhase {
    /// Whether the event can happen.
    pub open spec fn expects(self, event: StartEvent) -> bool {
        match self {
            StartPhase::New => event is Launched,
            StartPhase::Ready => event is Activated,
            StartPhase::Locating => event is StyleLocated,
            StartPhase::Checking => event is StyleChecked,
            StartPhase::Running => event is Activated || event is Interrupted,
            StartPhase::Over => false,
        }
    }

    /// The phase that an event leads to.
    pub open spec fn next(self, event: StartEvent) -> StartPhase {
        match event {
            StartEvent::Launched => StartPhase::Ready,
            StartEvent::Activated => if self is Running {
                StartPhase::Running
            } else {
                StartPhase::Locating
            },
            StartEvent::StyleLocated(located) => if located {
                StartPhase::Checking
            } else {
                StartPhase::Over
            },
            StartEvent::StyleChecked(_) => StartPhase::Running,
            StartEvent::Interrupted => StartPhase::Over,
        }
    }

    /// What is to be done about an event.
    pub open spec fn requests(self, event: StartEvent) -> Seq<StartAction> {
        match event {
            StartEvent::Launched => seq![
                StartAction::MakeApplication,
                StartAction::LoadConfig,
                StartAction::WatchOutputs,
                StartAction::Run,
            ],
            StartEvent::Activated => if self is Running {
                seq![StartAction::ReportRunning]
            } else {
                seq![StartAction::StartIpc, StartAction::LocateStyle]
            },
            StartEvent::StyleLocated(located) => if located {
                seq![StartAction::CheckStyle]
            } else {
                seq![StartAction::Fail(ExitCode::CreateBars)]
            },
            StartEvent::StyleChecked(exists_now) => {
                let rest = seq![
                    StartAction::AwaitInterrupt,
                    StartAction::ForwardOutputs,
                    StartAction::HandleInterrupts,
                ];
                if exists_now {
                    seq![StartAction::LoadStyle] + rest
                } else {
                    rest
                }
            },
            StartEvent::Interrupted => seq![StartAction::ShutdownIpc, StartAction::Exit],
        }
    }

    /// The place of the phase in the program's life.
    pub open spec fn order(self) -> int {
        match self {
            StartPhase::New => 0,
            StartPhase::Ready => 1,
            StartPhase::Locating => 2,
            StartPhase::Checking => 3,
            StartPhase::Running => 4,
            StartPhase::Over => 5,
        }
    }
}

/// When the program is launched it makes the application, reads the configuration,
/// has the outputs watched and runs, in this order. The first activation has it
/// serve commands and look for its style sheet; any later one is only reported. A
/// style sheet that cannot be located ends the program with the code for bars that
/// cannot be created. One that is there is loaded; then, in any case, interruptions
/// are waited for, outputs passed on and interruptions reported. An interruption
/// has it stop serving commands and exit.
pub proof fn law_the_program_starts_in_order(exists_now: bool)
    ensures
        ({
            let launched = StartPhase::New.requests(StartEvent::Launched);
            let activated = StartPhase::Ready.requests(StartEvent::Activated);
            let again = StartPhase::Running.requests(StartEvent::Activated);
            let located = StartEvent::StyleLocated(true);
            let lost = StartEvent::StyleLocated(false);
            let checked = StartEvent::StyleChecked(exists_now);
            let started = StartPhase::Checking.requests(checked);
            &&& StartPhase::New.expects(StartEvent::Launched)
            &&& StartPhase::Ready.expects(StartEvent::Activated)
            &&& StartPhase::Locating.expects(located) && StartPhase::Locating.expects(lost)
            &&& StartPhase::Checking.expects(checked)
            &&& StartPhase::Running.expects(StartEvent::Activated)
            &&& StartPhase::Running.expects(StartEvent::Interrupted)
            &&& StartPhase::New.next(StartEvent::Launched) is Ready
            &&& StartPhase::Ready.next(StartEvent::Activated) is Locating
            &&& StartPhase::Locating.next(located) is Checking
            &&& StartPhase::Locating.next(lost) is Over
            &&& StartPhase::Checking.next(checked) is Running
            &&& StartPhase::Running.next(StartEvent::Activated) is Running
            &&& StartPhase::Running.next(StartEvent::Interrupted) is Over
            &&& launched.len() == 4 && launched[0] is MakeApplication && launched[1] is LoadConfig
                && launched[2] is WatchOutputs && launched[3] is Run
            &&& activated.len() == 2 && activated[0] is StartIpc && activated[1] is LocateStyle
            &&& again.len() == 1 && again[0] is ReportRunning
            &&& StartPhase::Locating.requests(located) == seq![StartAction::CheckStyle]
            &&& StartPhase::Locating.requests(lost) == seq![
                StartAction::Fail(ExitCode::CreateBars),
            ]
            &&& exists_now ==> started.len() == 4 && started[0] is LoadStyle
            &&& !exists_now ==> started.len() == 3
            &&& started[started.len() - 3] is AwaitInterrupt
            &&& started[started.len() - 2] is ForwardOutputs
            &&& started.last() is HandleInterrupts
            &&& StartPhase::Running.requests(StartEvent::Interrupted) == seq![
                StartAction::ShutdownIpc,
                StartAction::Exit,
            ]
        }),
{
}

/// Goes on after an event: returns how far the program has come then, and what is
/// to be done. It begins as new, and its first event is that it is launched.
pub fn start_ironbar(phase: StartPhase, event: StartEvent) -> (started: (
    StartPhase,
    Vec<StartAction>,
))
    requires
        phase.expects(event),
    ensures
        started.0 == phase.next(event),
        started.1@ == phase.requests(event),
{
    let mut actions: Vec<StartAction> = Vec::new();
    let next: StartPhase = match event {
        StartEvent::Launched => {
            actions.push(StartAction::MakeApplication);
            actions.push(StartAction::LoadConfig);
            actions.push(StartAction::WatchOutputs);
            actions.push(StartAction::Run);
            StartPhase::Ready
        },
        StartEvent::Activated => {
            if let StartPhase::Running = phase {
                actions.push(StartAction::ReportRunning);
                StartPhase::Running
            } else {
                actions.push(StartAction::StartIpc);
                actions.push(StartAction::LocateStyle);
                StartPhase::Locating
            }
        },
        StartEvent::StyleLocated(true) => {
            actions.push(StartAction::CheckStyle);
            StartPhase::Checking
        },
        StartEvent::StyleLocated(false) => {
            actions.push(StartAction::Fail(ExitCode::CreateBars));
            StartPhase::Over
        },
        StartEvent::StyleChecked(exists_now) => {
            if exists_now {
                actions.push(StartAction::LoadStyle);
            }
            actions.push(StartAction::AwaitInterrupt);
            actions.push(StartAction::ForwardOutputs);
            actions.push(StartAction::HandleInterrupts);
            StartPhase::Running
        },
        StartEvent::Interrupted => {
            actions.push(StartAction::ShutdownIpc);
            actions.push(StartAction::Exit);
            StartPhase::Over
        },
    };
    assert(actions@ =~= phase.requests(event));
    (next, actions)
}

/// How far the program has come after the first `upto` of the events.
pub open spec fn phase_at(events: Seq<StartEvent>, upto: int) -> StartPhase
    decreases upto,
{
    if upto <= 0 {
        StartPhase::New
    } else {
        phase_at(events, upto - 1).next(events[upto - 1])
    }
}

/// Whether every one of the events can happen when it does.
pub open spec fn can_happen(events: Seq<StartEvent>) -> bool {
    forall|i: int| 0 <= i < events.len() ==> phase_at(events, i).expects(#[trigger] events[i])
}

/// What is to be done about the event at position `i`.
pub open spec fn requests_at(events: Seq<StartEvent>, i: int) -> Seq<StartAction> {
    phase_at(events, i).requests(events[i])
}

/// However often the program is activated, it starts once. It begins to serve
/// commands at the first activation and at no other; and it passes the outputs
/// on, has interruptions reported and waits for one when the style sheet was
/// looked for, having loaded it if it exists, which happens at most once.
pub proof fn law_starts_once(events: Seq<StartEvent>, i: int, j: int)
    requires
        can_happen(events),
        0 <= i < events.len(),
        0 <= j < events.len(),
    ensures
        requests_at(events, i).contains(StartAction::StartIpc) <==> is_first_where(
            events,
            |event: StartEvent| event is Activated,
            i,
        ),
        requests_at(events, i).contains(StartAction::LoadStyle) <==> events[i]
            == StartEvent::StyleChecked(true),
        requests_at(events, i).contains(StartAction::ForwardOutputs) <==> events[i] is StyleChecked,
        requests_at(events, i).contains(StartAction::HandleInterrupts)
            <==> events[i] is StyleChecked,
        requests_at(events, i).contains(StartAction::AwaitInterrupt) <==> events[i] is StyleChecked,
        requests_at(events, i).contains(StartAction::LoadConfig) <==> i == 0,
        requests_at(events, i).contains(StartAction::WatchOutputs) <==> i == 0,
        requests_at(events, i).no_duplicates(),
        events[i] is StyleChecked && events[j] is StyleChecked ==> i == j,
{
    let activated = |event: StartEvent| event is Activated;
    let actions = requests_at(events, i);
    assert(phase_at(events, i).expects(events[i]));
    assert(phase_at(events, j).expects(events[j]));
    assert(phase_at(events, 0) is New);
    if i > 0 {
        lemma_phases_rise(events, 0, i);
    }
    if events[i] is Launched {
        assert(actions[1] == StartAction::LoadConfig && actions[2] == StartAction::WatchOutputs);
    }
    if events[i] is StyleChecked {
        let at = if events[i] == StartEvent::StyleChecked(true) { 1int } else { 0int };
        assert(actions[at] == StartAction::AwaitInterrupt);
        assert(actions[at + 1] == StartAction::ForwardOutputs);
        assert(actions[at + 2] == StartAction::HandleInterrupts);
        if at == 1 {
            assert(actions[0] == StartAction::LoadStyle);
        }
        if events[j] is StyleChecked {
            if i < j {
                lemma_phases_rise(events, i, j);
            } else if j < i {
                lemma_phases_rise(events, j, i);
            }
        }
    }
    if events[i] is Activated && phase_at(events, i) is Ready {
        assert(actions[0] == StartAction::StartIpc);
        assert forall|k: int| 0 <= k < i implies !activated(#[trigger] events[k]) by {
            assert(phase_at(events, k).expects(events[k]));
            lemma_phases_rise(events, k, i);
        }
    }
    if is_first_where(events, activated, i) {
        lemma_first_activation(events, i);
    }
}

proof fn lemma_phases_rise(events: Seq<StartEvent>, i: int, j: int)
    requires
        can_happen(events),
        0 <= i < j <= events.len(),
    ensures
        phase_at(events, i).order() <= phase_at(events, j).order(),
        !(phase_at(events, i) is Running) ==> phase_at(events, i).order() < phase_at(
            events,
            j,
        ).order(),
    decreases j - i,
{
    assert(phase_at(events, j - 1).expects(events[j - 1]));
    if i < j - 1 {
        lemma_phases_rise(events, i, j - 1);
    }
}

proof fn lemma_first_activation(events: Seq<StartEvent>, i: int)
    requires
        can_happen(events),
        is_first_where(events, |event: StartEvent| event is Activated, i),
    ensures
        phase_at(events, i) is Ready,
{
    let activated = |event: StartEvent| event is Activated;
    assert(phase_at(events, i).expects(events[i]));
    assert(i > 0);
    assert(phase_at(events, 0).expects(events[0]));
    assert(phase_at(events, 1) is Ready);
    if i > 1 {
        assert(phase_at(events, 1).expects(events[1]));
        assert(activated(events[1]));
    }
}

/// Where the style sheet is.
#[derive(Debug)]
pub enum StyleSource<D> {
    /// At this path.
    Path(String),
    /// In our directory below this one.
    InConfigDir(D),
}

/// Decides where the style sheet is: where the environment says, or else in the
/// user's directory for configurations, if there is one.
pub fn style_source<D>(named: Option<String>, config_dir: Option<D>) -> (source: Result<
    StyleSource<D>,
    ExitCode,
>)
    ensures
        source == match named {
            Some(path) => Ok::<StyleSource<D>, ExitCode>(StyleSource::Path(path)),
            None => match config_dir {
                Some(dir) => Ok(StyleSource::InConfigDir(dir)),
                None => Err(ExitCode::CreateBars),
            },
        },
{
    match named {
        Some(path) => Ok(StyleSource::Path(path)),
        None => {
            match config_dir {
                Some(dir) => Ok(StyleSource::InConfigDir(dir)),
                None => Err(ExitCode::CreateBars),
            }
        },
    }
}

/// The output for which bars are to be created when the outputs change: one that
/// is added.
pub open spec fn added_output<T: Cacheable>(event: Event<T>) -> Option<T> {
    match event {
        Event::Add(output) => Some(output),
        _ => None,
    }
}

/// Returns the output for which bars are to be created when the outputs change.
pub fn output_to_cover<T: Cacheable>(event: Event<T>) -> (output: Option<T>)
    ensures
        output == added_output(event),
        event matches Event::Add(added) ==> output == Some(added),
        !(event is Add) ==> output is None,
{
    match event {
        Event::Add(output) => Some(output),
        _ => None,
    }
}

/// Bars to be created: on which display, for which output, and by which
/// configuration.
#[derive(Debug)]
pub struct BarsRequest<D, T, C> {
    pub display: D,
    pub output: T,
    pub config: C,
}

/// What is done about a change to the outputs.
#[derive(Debug)]
pub struct OutputReaction<B> {
    /// The bars that are created.
    pub bars: Option<B>,
    /// Whether later changes are handled too.
    pub goes_on: bool,
}

/// Whoever handles changes to the outputs, with the configuration that was read
/// when the program was launched.
#[derive(Debug)]
pub struct OutputWatch<C> {
    config: C,
}

/// What is done about a change to the outputs, if there is a display: an output
/// that is added gets bars, and later changes are handled in any case.
pub open spec fn output_reaction<D, T: Cacheable, C>(
    config: C,
    display: D,
    event: Event<T>,
) -> OutputReaction<BarsRequest<D, T, C>> {
    OutputReaction {
        bars: match added_output(event) {
            Some(output) => Some(BarsRequest { display, output, config }),
            None => None,
        },
        goes_on: true,
    }
}

impl<C> OutputWatch<C> {
    /// The configuration.
    pub closed spec fn config(&self) -> C {
        self.config
    }

    /// Begins to handle changes, with the configuration that was read.
    pub fn new(config: C) -> (watch: Self)
        ensures
            watch.config() == config,
    {
        OutputWatch { config }
    }

    /// Returns what is done about a change to the outputs, or with which code to
    /// exit if there is no display. The display is asked for whatever the change
    /// is.
    pub fn on_output<D, T: Cacheable>(&self, display: Option<D>, event: Event<T>) -> (reaction:
        Result<OutputReaction<BarsRequest<D, T, &C>>, ExitCode>)
        ensures
            match reaction {
                Ok(reaction) => display matches Some(display) && {
                    let expected = output_reaction(self.config(), display, event);
                    &&& reaction.goes_on == expected.goes_on
                    &&& match reaction.bars {
                        Some(bars) => expected.bars == Some(
                            BarsRequest {
                                display: bars.display,
                                output: bars.output,
                                config: *bars.config,
                            },
                        ),
                        None => expected.bars is None,
                    }
                },
                Err(code) => display is None && code == ExitCode::GtkDisplay,
            },
            display is None <==> reaction is Err,
            reaction matches Ok(reaction) ==> {
                &&& reaction.goes_on
                &&& event matches Event::Add(added) ==> {
                    &&& reaction.bars is Some
                    &&& display == Some(reaction.bars->0.display)
                    &&& reaction.bars->0.output == added
                    &&& *reaction.bars->0.config == self.config()
                }
                &&& !(event is Add) ==> reaction.bars is None
            },
    {
        match get_display(display) {
            Ok(display) => {
                let bars: Option<BarsRequest<D, T, &C>> = match output_to_cover(event) {
                    Some(output) => Some(BarsRequest { display, output, config: &self.config }),
                    None => None,
                };
                Ok(OutputReaction { bars, goes_on: true })
            },
            Err(code) => Err(code),
        }
    }
}

/// The bars that are created over a run of changes, first to last.
pub open spec fn bars_over<D, T: Cacheable, C>(
    config: C,
    display: D,
    events: Seq<Event<T>>,
) -> Seq<BarsRequest<D, T, C>>
    decreases events.len(),
{
    if events.len() == 0 {
        seq![]
    } else {
        let before = bars_over(config, display, events.drop_last());
        match output_reaction(config, display, events.last()).bars {
            Some(bars) => before.push(bars),
            None => before,
        }
    }
}

/// Over any run of changes to the outputs, each output that is added gets bars
/// once, in their order and by the configuration read at the launch; an output
/// that is removed or replaced gets none; and no change ends the handling of
/// later ones.
pub proof fn law_each_added_output_gets_bars_once<D, T: Cacheable, C>(
    config: C,
    display: D,
    events: Seq<Event<T>>,
)
    ensures
        bars_over(config, display, events) == events.filter(
            |event: Event<T>| event is Add,
        ).map_values(
            |event: Event<T>|
                (BarsRequest { display, output: added_output(event)->0, config }),
        ),
        forall|i: int|
            0 <= i < events.len() ==> output_reaction(
                config,
                display,
                #[trigger] events[i],
            ).goes_on,
    decreases events.len(),
{
    reveal(Seq::filter);
    let adds = |event: Event<T>| event is Add;
    let request = |event: Event<T>|
        (BarsRequest { display, output: added_output(event)->0, config });
    if events.len() > 0 {
        law_each_added_output_gets_bars_once(config, display, events.drop_last());
        assert(bars_over(config, display, events) =~= events.filter(adds).map_values(request));
    } else {
        assert(bars_over(config, display, events) =~= events.filter(adds).map_values(request));
    }
}

/// A step in reloading the program.
#[derive(Clone, Copy, Debug, PartialEq, Eq, Structural)]
pub enum ReloadAction {
    /// Close the window at this position.
    Close(usize),
    /// Read the configuration.
    LoadConfig,
    /// List the outputs.
    ListOutputs,
    /// Get the display, and go on as [`reload_bars`] says, or exit if there is
    /// none.
    GetDisplay,
    /// Create the bars for the output at this position.
    CreateBars(usize),
}

/// The steps in which the program begins to reload.
pub open spec fn reload_actions(windows: nat) -> Seq<ReloadAction> {
    Seq::new(windows, |i: int| ReloadAction::Close(i as usize)).push(
        ReloadAction::LoadConfig,
    ).push(ReloadAction::ListOutputs).push(ReloadAction::GetDisplay)
}

/// The steps in which it goes on, once the outputs are listed and there is a
/// display.
pub open spec fn reload_bars_actions(outputs: nat) -> Seq<ReloadAction> {
    Seq::new(outputs, |i: int| ReloadAction::CreateBars(i as usize))
}

/// Returns the steps in which the program begins to reload: it closes all
/// windows, reads the configuration, lists the outputs, and gets the display.
pub fn reload(windows: usize) -> (actions: Vec<ReloadAction>)
    ensures
        actions@ == reload_actions(windows as nat),
        actions@.len() == windows + 3,
        forall|i: int|
            0 <= i < windows ==> #[trigger] actions@[i] == ReloadAction::Close(i as usize),
        actions@[windows as int] is LoadConfig,
        actions@[windows as int + 1] is ListOutputs,
        actions@[windows as int + 2] is GetDisplay,
{
    let mut actions: Vec<ReloadAction> = Vec::new();
    let mut i: usize = 0;
    while i < windows
        invariant
            i <= windows,
            actions@ == Seq::new(i as nat, |j: int| ReloadAction::Close(j as usize)),
        decreases windows - i,
    {
        actions.push(ReloadAction::Close(i));
        i += 1;
        assert(actions@ =~= Seq::new(i as nat, |j: int| ReloadAction::Close(j as usize)));
    }
    actions.push(ReloadAction::LoadConfig);
    actions.push(ReloadAction::ListOutputs);
    actions.push(ReloadAction::GetDisplay);
    actions
}

/// Returns the steps in which the program goes on reloading once the outputs are
/// listed and there is a display: it creates the bars for every output. The first step that fails is
/// the last.
pub fn reload_bars(outputs: usize) -> (actions: Vec<ReloadAction>)
    ensures
        actions@ == reload_bars_actions(outputs as nat),
        actions@.len() == outputs,
        forall|i: int|
            0 <= i < outputs ==> #[trigger] actions@[i] == ReloadAction::CreateBars(i as usize),
{
    let mut actions: Vec<ReloadAction> = Vec::new();
    let mut i: usize = 0;
    while i < outputs
        invariant
            i <= outputs,
            actions@ == reload_bars_actions(i as nat),
        decreases outputs - i,
    {
        actions.push(ReloadAction::CreateBars(i));
        i += 1;
        assert(actions@ =~= reload_bars_actions(i as nat));
    }
    actions
}

/// Every window is closed, the configuration is read, the outputs are listed and
/// the display is asked for before any bar is created, in this order, and the
/// bars are those of every output.
pub proof fn law_reload_closes_before_it_creates(windows: nat, outputs: nat)
    requires
        windows <= usize::MAX,
        outputs <= usize::MAX,
    ensures
        ({
            let actions = reload_actions(windows) + reload_bars_actions(outputs);
            &&& actions.len() == windows + 3 + outputs
            &&& forall|i: int|
                0 <= i < windows ==> #[trigger] actions[i] == ReloadAction::Close(i as usize)
            &&& actions[windows as int] == ReloadAction::LoadConfig
            &&& actions[windows as int + 1] == ReloadAction::ListOutputs
            &&& actions[windows as int + 2] == ReloadAction::GetDisplay
            &&& forall|i: int|
                0 <= i < outputs ==> #[trigger] actions[windows + 3 + i]
                    == ReloadAction::CreateBars(i as usize)
        }),
{
}

/// Things to be done in turn, until one of them fails.
#[derive(Debug)]
pub struct Batch {
    next: usize,
    total: usize,
    failed: bool,
}

impl Batch {
    /// How many things there are.
    pub closed spec fn total(&self) -> usize {
        self.total
    }

    /// How many of them have been tried.
    pub closed spec fn tried(&self) -> usize {
        self.next
    }

    /// Whether one of them has failed.
    pub closed spec fn failed(&self) -> bool {
        self.failed
    }

    /// Whether no more was tried than there is.
    pub closed spec fn wf(&self) -> bool {
        self.next <= self.total
    }

    /// Begins with the first of `total` things.
    pub fn new(total: usize) -> (batch: Batch)
        ensures
            batch.wf(),
            batch.total() == total,
            batch.tried() == 0,
            !batch.failed(),
    {
        Batch { next: 0, total, failed: false }
    }

    /// Returns which thing is to be tried next, if any.
    pub fn current(&self) -> (current: Option<usize>)
        requires
            self.wf(),
        ensures
            current == if !self.failed() && self.tried() < self.total() {
                Some(self.tried())
            } else {
                None
            },
    {
        if !self.failed && self.next < self.total {
            Some(self.next)
        } else {
            None
        }
    }

    /// Takes down whether it succeeded.
    pub fn report(&mut self, succeeded: bool)
        requires
            old(self).wf(),
            !old(self).failed(),
            old(self).tried() < old(self).total(),
        ensures
            final(self).wf(),
            final(self).total() == old(self).total(),
            final(self).tried() == old(self).tried() + 1,
            final(self).failed() == !succeeded,
    {
        self.next = self.next + 1;
        self.failed = !succeeded;
    }

    /// Whether nothing has failed.
    pub fn succeeded(&self) -> (succeeded: bool)
        ensures
            succeeded == !self.failed(),
    {
        !self.failed
    }
}

/// Whether `runs` are the states of a batch in which each thing succeeds as
/// `succeeds` says.
pub open spec fn is_batch_run(runs: Seq<Batch>, succeeds: Seq<bool>) -> bool {
    &&& runs.len() >= 1
    &&& runs[0].tried() == 0 && !runs[0].failed()
    &&& forall|i: int|
        0 <= i < runs.len() ==> (#[trigger] runs[i]).wf() && runs[i].total() == succeeds.len()
    &&& forall|i: int|
        0 < i < runs.len() ==> !runs[i - 1].failed() && runs[i - 1].tried() < runs[i - 1].total()
            && (#[trigger] runs[i]).tried() == runs[i - 1].tried() + 1 && runs[i].failed()
            == !succeeds[runs[i - 1].tried() as int]
}

/// A batch that has nothing left to try has tried everything, in order, up to
/// and including the first thing that fails; and it has failed exactly if
/// something does.
pub proof fn law_batch_stops_at_first_failure(runs: Seq<Batch>, succeeds: Seq<bool>)
    requires
        is_batch_run(runs, succeeds),
        runs.last().failed() || runs.last().tried() == runs.last().total(),
    ensures
        match first_where(succeeds, |success: bool| !success) {
            Some(at) => runs.last().failed() && runs.last().tried() == at + 1,
            None => !runs.last().failed() && runs.last().tried() == succeeds.len(),
        },
{
    let failure = |success: bool| !success;
    let last = runs.len() - 1;
    lemma_batch_run(runs, succeeds, last);
    if runs.last().failed() {
        assert(is_first_where(succeeds, failure, last - 1));
        lemma_first_where(succeeds, failure, last - 1);
    } else {
        lemma_first_where_none(succeeds, failure);
        assert(forall|i: int| 0 <= i < succeeds.len() ==> !failure(#[trigger] succeeds[i]));
    }
}

proof fn lemma_batch_run(runs: Seq<Batch>, succeeds: Seq<bool>, i: int)
    requires
        is_batch_run(runs, succeeds),
        0 <= i < runs.len(),
    ensures
        runs[i].tried() == i,
        i <= succeeds.len(),
        runs[i].failed() ==> i > 0 && !succeeds[i - 1],
        forall|j: int| 0 <= j < i - 1 ==> #[trigger] succeeds[j],
        !runs[i].failed() && i > 0 ==> succeeds[i - 1],
    decreases i,
{
    assert(runs[i].wf());
    if i > 0 {
        lemma_batch_run(runs, succeeds, i - 1);
        assert(runs[i].tried() == runs[i - 1].tried() + 1);
    }
}

/// The configuration of the bars on a monitor.
#[derive(Debug)]
pub enum MonitorConfig<C> {
    Single(C),
    Multiple(Vec<C>),
}

/// Why no bars can be created for a monitor.
#[derive(Clone, Copy, Debug, PartialEq, Eq, Structural)]
pub enum MonitorError {
    /// The toolkit and the display report different outputs.
    OutputsDiffer,
}

/// The bars that a configuration asks for, first to last.
pub open spec fn bars_of<C>(config: Option<MonitorConfig<C>>) -> Seq<C> {
    match config {
        Some(MonitorConfig::Single(bar)) => seq![bar],
        Some(MonitorConfig::Multiple(bars)) => bars@,
        None => seq![],
    }
}

/// Returns the bars to be created for a monitor, first to last. An output
/// without a name gets none, nor does one that the configuration leaves out.
pub fn create_bars_for_monitor<C>(
    named: bool,
    monitor: Result<usize, MonitorError>,
    config: Option<MonitorConfig<C>>,
) -> (bars: Result<Vec<C>, MonitorError>)
    ensures
        match bars {
            Ok(bars) => (!named && bars@ == Seq::<C>::empty()) || (named && monitor is Ok && bars@
                == bars_of(config)),
            Err(error) => named && monitor == Err::<usize, MonitorError>(error),
        },
        bars matches Ok(bars) ==> {
            &&& !named ==> bars@.len() == 0
            &&& named && config is None ==> bars@.len() == 0
            &&& named ==> (config matches Some(MonitorConfig::Single(bar)) ==> bars@ == seq![bar])
            &&& named ==> (config matches Some(MonitorConfig::Multiple(all)) ==> bars@ == all@)
        },
{
    if !named {
        return Ok(Vec::new());
    }
    if let Err(error) = monitor {
        return Err(error);
    }
    let bars: Vec<C> = match config {
        Some(MonitorConfig::Single(bar)) => {
            let mut bars: Vec<C> = Vec::new();
            bars.push(bar);
            bars
        },
        Some(MonitorConfig::Multiple(bars)) => bars,
        None => Vec::new(),
    };
    assert(bars@ =~= bars_of(config));
    Ok(bars)
}

/// Returns the display, or with which code to exit if there is none.
pub fn get_display<D>(display: Option<D>) -> (found: Result<D, ExitCode>)
    ensures
        found == match display {
            Some(display) => Ok::<D, ExitCode>(display),
            None => Err(ExitCode::GtkDisplay),
        },
{
    match display {
        Some(display) => Ok(display),
        None => Err(ExitCode::GtkDisplay),
    }
}

/// Whether the monitor at position `i` is the one of the output with a name:
/// the toolkit has such a monitor, and the output at the same position has the
/// name.
pub open spec fn is_monitor_of(
    name: Seq<char>,
    monitors: Seq<bool>,
    outputs: Seq<Option<String>>,
    i: int,
) -> bool {
    &&& 0 <= i < monitors.len()
    &&& monitors[i]
    &&& i < outputs.len()
    &&& outputs[i] matches Some(output) && output@ == name
}

/// Looks for the monitor of the output with a name. `monitors` says at which
/// positions the toolkit has a monitor, and `outputs` holds the names of the
/// display's outputs.
pub fn get_monitor(name: &String, monitors: &Vec<bool>, outputs: &Vec<Option<String>>) -> (found:
    Result<usize, MonitorError>)
    ensures
        match found {
            Ok(at) => is_monitor_of(name@, monitors@, outputs@, at as int) && forall|i: int|
                0 <= i < at ==> !#[trigger] is_monitor_of(name@, monitors@, outputs@, i),
            Err(error) => error == MonitorError::OutputsDiffer && forall|i: int|
                !#[trigger] is_monitor_of(name@, monitors@, outputs@, i),
        },
        found matches Ok(at) ==> at < monitors@.len() && at < outputs@.len() && monitors@[at as int]
            && outputs@[at as int] is Some && outputs@[at as int]->0@ == name@,
        forall|i: int|
            0 <= i < monitors@.len() && i < outputs@.len() && monitors@[i] && (
            #[trigger] outputs@[i]) is Some && outputs@[i]->0@ == name@ ==> found is Ok && found->Ok_0
                <= i,
{
    let mut i: usize = 0;
    while i < monitors.len()
        invariant
            i <= monitors@.len(),
            forall|j: int|
                0 <= j < i ==> !#[trigger] is_monitor_of(name@, monitors@, outputs@, j),
            forall|j: int|
                0 <= j < i && j < outputs@.len() && monitors@[j] && (#[trigger] outputs@[j]) is Some
                    ==> outputs@[j]->0@ != name@,
        decreases monitors@.len() - i,
    {
        if monitors[i] && i < outputs.len() {
            let is_match: bool = match &outputs[i] {
                Some(output) => *output == *name,
                None => false,
            };
            if is_match {
                return Ok(i);
            }
        }
        i += 1;
    }
    Err(MonitorError::OutputsDiffer)
}

/// If the outputs' names differ, at most one position has the monitor of a name,
/// so the search finds the same one in whatever order it goes.
pub proof fn law_monitor_is_unique(
    name: Seq<char>,
    monitors: Seq<bool>,
    outputs: Seq<Option<String>>,
    i: int,
    j: int,
)
    requires
        forall|a: int, b: int|
            0 <= a < b < outputs.len() && (#[trigger] outputs[a]) is Some && (
            #[trigger] outputs[b]) is Some ==> outputs[a]->0@ != outputs[b]->0@,
        is_monitor_of(name, monitors, outputs, i),
        is_monitor_of(name, monitors, outputs, j),
    ensures
        i == j,
{
    if i < j {
        assert(outputs[i]->0@ != outputs[j]->0@);
    } else if j < i {
        assert(outputs[j]->0@ != outputs[i]->0@);
    }
}

/// Where the configuration is read from.
#[derive(Debug)]
pub enum ConfigSource {
    /// This file.
    Path(String),
    /// The first file that is found in one of the usual places.
    Search,
}

/// Decides where the configuration is read from: from where the environment
/// says, or else from the usual places.
pub fn config_source(named: Option<String>) -> (source: ConfigSource)
    ensures
        source == match named {
            Some(path) => ConfigSource::Path(path),
            None => ConfigSource::Search,
        },
{
    match named {
        Some(path) => ConfigSource::Path(path),
        None => ConfigSource::Search,
    }
}

/// Returns the configuration that was read, or the default one if reading
/// failed.
pub fn load_config<C: Default, E>(loaded: Result<C, E>) -> (config: C)
    ensures
        match loaded {
            Ok(read) => config == read,
            Err(_) => call_ensures(C::default, (), config),
        },
{
    match loaded {
        Ok(read) => read,
        Err(_) => C::default(),
    }
}

} // verus!
