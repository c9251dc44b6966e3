use ironbar::cached_broadcast::{Cacheable, Event};
use ironbar::config::common::{
    on_child_revealed, on_installed, on_script_result, ClickScripts, CommonConfig, Crossing,
    HoverScripts, Orientation, Reaction, RevealerTransitionType, ScrollDirection, ScrollScripts,
    ShowIf, TransitionType, VisibilityAction,
};
use ironbar::startup::{
    config_source, create_bars_for_monitor, get_display, get_monitor, load_config, on_reply,
    output_to_cover, reload, reload_bars, run_with_args, start_ironbar, style_source, Batch,
    ConfigSource, ExitCode, Launch, MonitorConfig, MonitorError, OutputWatch, ReloadAction, Reply,
    StartAction, StartEvent, StartPhase, StyleSource, GTK_APP_ID,
};
use ironbar::text::{bool_text, decimal_text};

#[derive(Debug, Clone, PartialEq)]
struct Output(u32);

impl Cacheable for Output {
    type Key = u32;

    fn get_key(&self) -> u32 {
        self.0
    }
}

fn config() -> CommonConfig<&'static str> {
    CommonConfig {
        show_if: Some("show"),
        transition_type: Some(TransitionType::Crossfade),
        transition_duration: Some(250),
        on_click_left: Some("left"),
        on_click_right: Some("right"),
        on_click_middle: Some("middle"),
        on_scroll_up: Some("up"),
        on_scroll_down: Some("down"),
        on_mouse_enter: Some("enter"),
        on_mouse_exit: None,
        tooltip: Some("tip".to_string()),
    }
}

#[test]
fn transitions_follow_the_orientation() {
    use_transition(TransitionType::SlideStart, Orientation::Horizontal, RevealerTransitionType::SlideLeft);
    use_transition(TransitionType::SlideStart, Orientation::Vertical, RevealerTransitionType::SlideUp);
    use_transition(TransitionType::SlideEnd, Orientation::Horizontal, RevealerTransitionType::SlideRight);
    use_transition(TransitionType::SlideEnd, Orientation::Vertical, RevealerTransitionType::SlideDown);
    use_transition(TransitionType::Crossfade, Orientation::Horizontal, RevealerTransitionType::Crossfade);
    use_transition(TransitionType::Crossfade, Orientation::Unknown(7), RevealerTransitionType::Crossfade);
    use_transition(TransitionType::NoTransition, Orientation::Vertical, RevealerTransitionType::NoTransition);
    use_transition(TransitionType::SlideStart, Orientation::Unknown(7), RevealerTransitionType::NoTransition);
    use_transition(TransitionType::SlideEnd, Orientation::Unknown(7), RevealerTransitionType::NoTransition);
}

fn use_transition(
    transition: TransitionType,
    orientation: Orientation,
    expected: RevealerTransitionType,
) {
    assert_eq!(transition.to_revealer_transition_type(orientation), expected);
}

/// The event is passed on, whether or not a script runs.
fn reaction<S>(script: Option<S>) -> Reaction<S> {
    Reaction { script, inhibit: false }
}

#[test]
fn when_to_show_is_taken_out() {
    let mut options = config();
    assert!(matches!(options.install_show_if(), ShowIf::Script("show")));
    assert!(options.show_if.is_none());
    assert!(matches!(options.install_show_if(), ShowIf::Always));
}

#[test]
fn polling_reveals_in_order() {
    let mut actions = Vec::new();
    for success in [true, false, false, true] {
        actions.extend(on_script_result(success));
    }
    assert_eq!(
        actions,
        vec![
            VisibilityAction::Show,
            VisibilityAction::Reveal(true),
            VisibilityAction::Reveal(false),
            VisibilityAction::Reveal(false),
            VisibilityAction::Show,
            VisibilityAction::Reveal(true),
        ]
    );
}

#[test]
fn options_are_installed() {
    let installation = config().install();
    assert!(matches!(installation.show, ShowIf::Script("show")));
    assert_eq!(installation.clicks.on_click(1), Some(&"left"));
    assert_eq!(installation.clicks.on_click(2), Some(&"middle"));
    assert_eq!(installation.clicks.on_click(3), Some(&"right"));
    assert_eq!(installation.clicks.on_click(0), None);
    assert_eq!(installation.clicks.on_click(8), None);
    let scrolls = &installation.scrolls;
    assert_eq!(scrolls.on_scroll(ScrollDirection::Up), reaction(Some(&"up")));
    assert_eq!(scrolls.on_scroll(ScrollDirection::Down), reaction(Some(&"down")));
    assert_eq!(scrolls.on_scroll(ScrollDirection::Left), reaction(None));
    assert_eq!(scrolls.on_scroll(ScrollDirection::Smooth), reaction(None));
    assert_eq!(installation.hovers.on_hover(Crossing::Enter), reaction(Some(&"enter")));
    assert_eq!(installation.hovers.on_hover(Crossing::Leave), reaction(None));
    assert_eq!(installation.tooltip, Some("tip".to_string()));
}

#[test]
fn missing_scripts_do_not_run() {
    let clicks: ClickScripts<u8> = ClickScripts { left: None, middle: Some(2), right: None };
    assert_eq!(clicks.on_click(1), None);
    assert_eq!(clicks.on_click(2), Some(&2));
    let scrolls: ScrollScripts<u8> = ScrollScripts { up: None, down: Some(4) };
    assert_eq!(scrolls.on_scroll(ScrollDirection::Up), reaction(None));
    let hovers: HoverScripts<u8> = HoverScripts { enter: None, leave: Some(6) };
    assert_eq!(hovers.on_hover(Crossing::Enter), reaction(None));
    assert_eq!(hovers.on_hover(Crossing::Leave), reaction(Some(&6)));
}

#[test]
fn modules_without_condition_are_shown_at_once() {
    let mut always = config();
    always.show_if = None;
    let installation = always.install();
    assert_eq!(on_installed(&installation.show), vec![VisibilityAction::ShowWidget]);
    assert!(on_installed(&config().install().show).is_empty());
}

#[test]
fn appearance_follows_the_script() {
    assert_eq!(
        on_script_result(true),
        vec![VisibilityAction::Show, VisibilityAction::Reveal(true)]
    );
    assert_eq!(on_script_result(false), vec![VisibilityAction::Reveal(false)]);
    assert!(on_child_revealed(true).is_empty());
    assert_eq!(on_child_revealed(false), vec![VisibilityAction::Hide]);
}

#[test]
fn commands_are_passed_on() {
    assert!(matches!(run_with_args(Some(3u8)), Launch::Send(3)));
    assert!(matches!(run_with_args::<u8>(None), Launch::Start));
}

#[test]
fn replies_are_shown_or_their_absence_logged() {
    assert!(matches!(on_reply::<u8, &str>(Ok(3)), Reply::Show(3)));
    assert!(matches!(on_reply::<u8, &str>(Err("none")), Reply::Log("none")));
}

#[test]
fn the_program_starts_once() {
    let (phase, actions) = start_ironbar(StartPhase::New, StartEvent::Launched);
    assert_eq!(phase, StartPhase::Ready);
    assert_eq!(
        actions,
        vec![
            StartAction::MakeApplication,
            StartAction::LoadConfig,
            StartAction::WatchOutputs,
            StartAction::Run,
        ]
    );
    let (phase, actions) = start_ironbar(phase, StartEvent::Activated);
    assert_eq!(actions, vec![StartAction::StartIpc, StartAction::LocateStyle]);
    let (phase, actions) = start_ironbar(phase, StartEvent::StyleLocated(true));
    assert_eq!(actions, vec![StartAction::CheckStyle]);
    let (phase, actions) = start_ironbar(phase, StartEvent::StyleChecked(true));
    assert_eq!(
        actions,
        vec![
            StartAction::LoadStyle,
            StartAction::AwaitInterrupt,
            StartAction::ForwardOutputs,
            StartAction::HandleInterrupts,
        ]
    );
    let (phase, actions) = start_ironbar(phase, StartEvent::Activated);
    assert_eq!(phase, StartPhase::Running);
    assert_eq!(actions, vec![StartAction::ReportRunning]);
    let (phase, actions) = start_ironbar(phase, StartEvent::Interrupted);
    assert_eq!(phase, StartPhase::Over);
    assert_eq!(actions, vec![StartAction::ShutdownIpc, StartAction::Exit]);
    assert_eq!(GTK_APP_ID, "dev.jstanger.ironbar");
}

#[test]
fn the_program_starts_without_a_style_sheet() {
    let (phase, actions) = start_ironbar(StartPhase::Checking, StartEvent::StyleChecked(false));
    assert_eq!(phase, StartPhase::Running);
    assert_eq!(
        actions,
        vec![
            StartAction::AwaitInterrupt,
            StartAction::ForwardOutputs,
            StartAction::HandleInterrupts,
        ]
    );
    let (phase, actions) = start_ironbar(StartPhase::Locating, StartEvent::StyleLocated(false));
    assert_eq!(phase, StartPhase::Over);
    assert_eq!(actions, vec![StartAction::Fail(ExitCode::CreateBars)]);
}

#[test]
fn the_style_sheet_is_located() {
    assert!(matches!(
        style_source(Some("/a.css".to_string()), Some(1u8)),
        Ok(StyleSource::Path(path)) if path == "/a.css"
    ));
    assert!(matches!(
        style_source(Some("/a.css".to_string()), None::<u8>),
        Ok(StyleSource::Path(_))
    ));
    assert!(matches!(
        style_source(None, Some(1u8)),
        Ok(StyleSource::InConfigDir(1))
    ));
    assert!(matches!(
        style_source(None, None::<u8>),
        Err(ExitCode::CreateBars)
    ));
}

#[test]
fn only_added_outputs_get_bars() {
    assert_eq!(output_to_cover(Event::Add(Output(4))), Some(Output(4)));
    assert_eq!(output_to_cover::<Output>(Event::Remove(4)), None);
    assert_eq!(output_to_cover(Event::Replace(4, Output(4))), None);
}

#[test]
fn each_added_output_gets_bars_once() {
    let watch = OutputWatch::new("config");
    let mut covered = Vec::new();
    for event in [
        Event::Add(Output(4)),
        Event::Replace(4, Output(5)),
        Event::Add(Output(6)),
        Event::Remove(4),
        Event::Add(Output(4)),
    ] {
        let reaction = watch.on_output(Some('d'), event).unwrap();
        assert!(reaction.goes_on);
        if let Some(bars) = reaction.bars {
            assert_eq!(*bars.config, "config");
            assert_eq!(bars.display, 'd');
            covered.push(bars.output);
        }
    }
    assert_eq!(covered, vec![Output(4), Output(6), Output(4)]);
}

#[test]
fn without_a_display_no_output_is_handled() {
    let watch = OutputWatch::new("config");
    for event in [Event::Add(Output(4)), Event::Remove(4)] {
        assert!(matches!(watch.on_output(None::<u8>, event), Err(ExitCode::GtkDisplay)));
    }
}

#[test]
fn reloading_closes_before_it_creates() {
    assert_eq!(
        reload(2),
        vec![
            ReloadAction::Close(0),
            ReloadAction::Close(1),
            ReloadAction::LoadConfig,
            ReloadAction::ListOutputs,
            ReloadAction::GetDisplay,
        ]
    );
    assert_eq!(
        reload_bars(3),
        vec![
            ReloadAction::CreateBars(0),
            ReloadAction::CreateBars(1),
            ReloadAction::CreateBars(2),
        ]
    );
    assert_eq!(
        reload(0),
        vec![ReloadAction::LoadConfig, ReloadAction::ListOutputs, ReloadAction::GetDisplay]
    );
    assert!(reload_bars(0).is_empty());
}

#[test]
fn a_batch_stops_at_the_first_failure() {
    let succeeds = [true, true, false, true, false];
    let mut tried = Vec::new();
    let mut batch = Batch::new(succeeds.len());
    while let Some(i) = batch.current() {
        tried.push(i);
        batch.report(succeeds[i]);
    }
    assert_eq!(tried, vec![0, 1, 2]);
    assert!(!batch.succeeded());
}

#[test]
fn a_batch_without_failures_is_completed() {
    let mut tried = Vec::new();
    let mut batch = Batch::new(3);
    while let Some(i) = batch.current() {
        tried.push(i);
        batch.report(true);
    }
    assert_eq!(tried, vec![0, 1, 2]);
    assert!(batch.succeeded());
    assert_eq!(Batch::new(0).current(), None);
}

#[test]
fn bars_of_a_monitor() {
    let single = || Some(MonitorConfig::Single(7u8));
    assert_eq!(create_bars_for_monitor(true, Ok(0), single()), Ok(vec![7]));
    assert_eq!(
        create_bars_for_monitor(true, Ok(0), Some(MonitorConfig::Multiple(vec![7u8, 8]))),
        Ok(vec![7, 8])
    );
    assert_eq!(create_bars_for_monitor::<u8>(true, Ok(0), None), Ok(vec![]));
    assert_eq!(
        create_bars_for_monitor(false, Err(MonitorError::OutputsDiffer), single()),
        Ok(vec![])
    );
    assert_eq!(
        create_bars_for_monitor(true, Err(MonitorError::OutputsDiffer), single()),
        Err(MonitorError::OutputsDiffer)
    );
}

#[test]
fn no_display_no_program() {
    assert_eq!(get_display(Some(5u8)), Ok(5));
    assert_eq!(get_display(None::<u8>), Err(ExitCode::GtkDisplay));
}

#[test]
fn monitors_are_found_by_the_names_of_outputs() {
    let name = "DP-1".to_string();
    let outputs = vec![Some("HDMI-1".to_string()), None, Some("DP-1".to_string())];
    assert_eq!(get_monitor(&name, &vec![true, true, true], &outputs), Ok(2));
    assert_eq!(
        get_monitor(&name, &vec![true, true, false], &outputs),
        Err(MonitorError::OutputsDiffer)
    );
    assert_eq!(
        get_monitor(&name, &vec![true, true], &outputs),
        Err(MonitorError::OutputsDiffer)
    );
    assert_eq!(
        get_monitor(&name, &vec![true; 5], &vec![None, None]),
        Err(MonitorError::OutputsDiffer)
    );
    let twice = vec![Some("DP-1".to_string()), Some("DP-1".to_string())];
    assert_eq!(get_monitor(&name, &vec![false, true], &twice), Ok(1));
    assert_eq!(get_monitor(&name, &vec![true, true], &twice), Ok(0));
}

#[test]
fn the_configuration_is_located() {
    assert!(matches!(
        config_source(Some("/c.toml".to_string())),
        ConfigSource::Path(path) if path == "/c.toml"
    ));
    assert!(matches!(config_source(None), ConfigSource::Search));
}

#[test]
fn a_configuration_that_cannot_be_read_is_the_default() {
    assert_eq!(load_config::<u32, &str>(Ok(5)), 5);
    assert_eq!(load_config::<u32, &str>(Err("unreadable")), 0);
}

#[test]
fn texts() {
    assert_eq!(decimal_text(0), "0");
    assert_eq!(decimal_text(10), "10");
    assert_eq!(decimal_text(1234567890), "1234567890");
    assert_eq!(bool_text(true), "true");
    assert_eq!(bool_text(false), "false");
}
