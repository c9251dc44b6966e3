//! How the server answers.

use super::{refusal, Answer, Command, Ipc, Response};
use crate::search::{first_where, is_first_where, lemma_first_where, lemma_first_where_none};
use crate::text::bool_text;
use vstd::prelude::*;

verus! {

/// What has to be done or found out before a command can be answered.
#[derive(Clone, Copy, Debug, PartialEq, Eq, Structural)]
pub enum Inquiry {
    /// Nothing.
    Nothing,
    /// Turn the toolkit's inspector on.
    EnableDebugging,
    /// Reload everything.
    Reload,
    /// Set the variable of the command, and tell whether that was refused.
    SetVariable,
    /// Look up the variable of the command.
    GetVariable,
    /// Find out whether the path of the command exists.
    CheckPath,
    /// Look up the popup of the command's bar.
    FindPopup,
    /// List the windows.
    ListWindows,
}

/// A module in the popup of a bar: its name, and the buttons that open it.
#[derive(Debug)]
pub struct PopupEntry {
    pub id: usize,
    pub module_name: String,
    pub buttons: Vec<usize>,
}

/// The popup of a bar: the modules that can be shown in it, in the order in
/// which they are looked through, and the one that is shown.
#[derive(Debug)]
pub struct Popup {
    pub cache: Vec<PopupEntry>,
    pub current_widget: Option<usize>,
}

/// A window, by its name and whether it is shown.
#[derive(Debug)]
pub struct BarWindow {
    pub name: String,
    pub visible: bool,
}

/// What came of an inquiry.
#[derive(Debug)]
pub enum Finding {
    /// It was done.
    Done,
    /// The variable was set, or refused for a reason.
    VariableSet(Result<(), String>),
    /// The value of the variable.
    Variable(Option<String>),
    /// Whether the path exists.
    PathExists(bool),
    /// The popup of the bar, if there is such a bar.
    Popup(Option<Popup>),
    /// The windows.
    Windows(Vec<BarWindow>),
}

/// What is to be done along with an answer.
#[derive(Clone, Copy, Debug, PartialEq, Eq, Structural)]
pub enum Effect {
    /// Load the style sheet of the command.
    LoadCss,
    /// Hide the popup of the command's bar.
    HidePopup,
    /// Show a module in the popup of the command's bar, at one of its buttons.
    ShowPopup { id: usize, button_id: usize },
    /// Show or hide the window at this position in the list of windows.
    SetVisible { window: usize, visible: bool },
}

/// What has to be done or found out before a command can be answered.
pub open spec fn inquiry_for(command: Command) -> Inquiry {
    match command {
        Command::Inspect => Inquiry::EnableDebugging,
        Command::Reload => Inquiry::Reload,
        Command::SetVar { .. } => Inquiry::SetVariable,
        Command::Get { .. } => Inquiry::GetVariable,
        Command::LoadCss { .. } => Inquiry::CheckPath,
        Command::TogglePopup { .. } => Inquiry::FindPopup,
        Command::OpenPopup { .. } => Inquiry::FindPopup,
        Command::ClosePopup { .. } => Inquiry::FindPopup,
        Command::Ping => Inquiry::Nothing,
        Command::SetVisible { .. } => Inquiry::ListWindows,
        Command::GetVisible { .. } => Inquiry::ListWindows,
    }
}

/// Whether a finding is of the kind that an inquiry has.
pub open spec fn settles(finding: Finding, inquiry: Inquiry) -> bool {
    match inquiry {
        Inquiry::Nothing | Inquiry::EnableDebugging | Inquiry::Reload => finding is Done,
        Inquiry::SetVariable => finding is VariableSet,
        Inquiry::GetVariable => finding is Variable,
        Inquiry::CheckPath => finding is PathExists,
        Inquiry::FindPopup => finding is Popup,
        Inquiry::ListWindows => finding is Windows,
    }
}

/// The position of the first module with a name.
pub open spec fn module_named(cache: Seq<PopupEntry>, name: Seq<char>) -> Option<int> {
    first_where(cache, |entry: PopupEntry| entry.module_name@ == name)
}

/// The position of the first window with a name.
pub open spec fn window_named(windows: Seq<BarWindow>, name: Seq<char>) -> Option<int> {
    first_where(windows, |window: BarWindow| window.name@ == name)
}

/// What becomes of a bar's popup when the module with a name is to be shown in
/// it. `toggles` says that a module that is shown already is to be hidden.
pub open spec fn popup_outcome(popup: Popup, name: Seq<char>, toggles: bool) -> (
    Seq<Effect>,
    Answer,
) {
    match module_named(popup.cache@, name) {
        None => (seq![Effect::HidePopup], refusal("Invalid module name")),
        Some(at) => {
            let entry = popup.cache@[at];
            if entry.buttons@.len() == 0 {
                (seq![Effect::HidePopup], refusal("Module has no popup functionality"))
            } else if toggles && popup.current_widget == Some(entry.id) {
                (seq![Effect::HidePopup], Answer::Success)
            } else {
                (
                    seq![
                        Effect::HidePopup,
                        Effect::ShowPopup { id: entry.id, button_id: entry.buttons@[0] },
                    ],
                    Answer::Success,
                )
            }
        },
    }
}

/// What is to be done about a command, and the answer to it, given what was
/// found out.
pub open spec fn outcome(command: Command, finding: Finding) -> (Seq<Effect>, Answer) {
    match command {
        Command::Inspect | Command::Reload | Command::Ping => (seq![], Answer::Success),
        Command::SetVar { .. } => match finding->VariableSet_0 {
            Ok(_) => (seq![], Answer::Success),
            Err(reason) => (seq![], Answer::Failure(Some(reason@))),
        },
        Command::Get { .. } => match finding->Variable_0 {
            Some(value) => (seq![], Answer::Value(value@)),
            None => (seq![], refusal("Variable not found")),
        },
        Command::LoadCss { .. } => if finding->PathExists_0 {
            (seq![Effect::LoadCss], Answer::Success)
        } else {
            (seq![], refusal("File not found"))
        },
        Command::TogglePopup { name, .. } => match finding->Popup_0 {
            Some(popup) => popup_outcome(popup, name@, true),
            None => (seq![], refusal("Invalid monitor name")),
        },
        Command::OpenPopup { name, .. } => match finding->Popup_0 {
            Some(popup) => popup_outcome(popup, name@, false),
            None => (seq![], refusal("Invalid monitor name")),
        },
        Command::ClosePopup { .. } => match finding->Popup_0 {
            Some(_) => (seq![Effect::HidePopup], Answer::Success),
            None => (seq![], refusal("Invalid monitor name")),
        },
        Command::SetVisible { bar_name, visible } => match window_named(
            finding->Windows_0@,
            bar_name@,
        ) {
            Some(at) => (
                seq![Effect::SetVisible { window: at as usize, visible }],
                Answer::Success,
            ),
            None => (seq![], refusal("Bar not found")),
        },
        Command::GetVisible { bar_name } => match window_named(finding->Windows_0@, bar_name@) {
            Some(at) => (
                seq![],
                Answer::Value(
                    if finding->Windows_0@[at].visible {
                        "true"@
                    } else {
                        "false"@
                    },
                ),
            ),
            None => (seq![], refusal("Bar not found")),
        },
    }
}

/// Looks for the first module with a name.
fn find_module(cache: &Vec<PopupEntry>, name: &String) -> (found: Option<usize>)
    ensures
        match found {
            Some(at) => at < cache@.len() && module_named(cache@, name@) == Some(at as int),
            None => module_named(cache@, name@) is None,
        },
{
    let ghost wanted = |entry: PopupEntry| entry.module_name@ == name@;
    let mut i: usize = 0;
    while i < cache.len()
        invariant
            i <= cache@.len(),
            wanted == (|entry: PopupEntry| entry.module_name@ == name@),
            forall|j: int| 0 <= j < i ==> !wanted(#[trigger] cache@[j]),
        decreases cache@.len() - i,
    {
        if cache[i].module_name == *name {
            proof {
                assert(is_first_where(cache@, wanted, i as int));
                lemma_first_where(cache@, wanted, i as int);
            }
            return Some(i);
        }
        i += 1;
    }
    proof {
        lemma_first_where_none(cache@, wanted);
    }
    None
}

/// Looks for the first window with a name.
fn find_window(windows: &Vec<BarWindow>, name: &String) -> (found: Option<usize>)
    ensures
        match found {
            Some(at) => at < windows@.len() && window_named(windows@, name@) == Some(at as int),
            None => window_named(windows@, name@) is None,
        },
{
    let ghost wanted = |window: BarWindow| window.name@ == name@;
    let mut i: usize = 0;
    while i < windows.len()
        invariant
            i <= windows@.len(),
            wanted == (|window: BarWindow| window.name@ == name@),
            forall|j: int| 0 <= j < i ==> !wanted(#[trigger] windows@[j]),
        decreases windows@.len() - i,
    {
        if windows[i].name == *name {
            proof {
                assert(is_first_where(windows@, wanted, i as int));
                lemma_first_where(windows@, wanted, i as int);
            }
            return Some(i);
        }
        i += 1;
    }
    proof {
        lemma_first_where_none(windows@, wanted);
    }
    None
}

/// Decides what becomes of a bar's popup when the module with a name is to be
/// shown in it.
fn show_module(popup: &Popup, name: &String, toggles: bool) -> (decided: (Vec<Effect>, Response))
    ensures
        (decided.0@, decided.1@) == popup_outcome(*popup, name@, toggles),
{
    let mut effects: Vec<Effect> = Vec::new();
    effects.push(Effect::HidePopup);
    let response: Response = match find_module(&popup.cache, name) {
        None => Response::error("Invalid module name"),
        Some(at) => {
            let entry = &popup.cache[at];
            if entry.buttons.len() == 0 {
                Response::error("Module has no popup functionality")
            } else {
                let shown: bool = match popup.current_widget {
                    Some(current) => current == entry.id,
                    None => false,
                };
                if !(toggles && shown) {
                    effects.push(
                        Effect::ShowPopup { id: entry.id, button_id: entry.buttons[0] },
                    );
                }
                Response::Success
            }
        },
    };
    assert(effects@ =~= popup_outcome(*popup, name@, toggles).0);
    (effects, response)
}

impl Ipc {
    /// Returns what has to be done or found out before a command can be
    /// answered.
    pub fn inquire(command: &Command) -> (inquiry: Inquiry)
        ensures
            inquiry == inquiry_for(*command),
    {
        match command {
            Command::Inspect => Inquiry::EnableDebugging,
            Command::Reload => Inquiry::Reload,
            Command::SetVar { .. } => Inquiry::SetVariable,
            Command::Get { .. } => Inquiry::GetVariable,
            Command::LoadCss { .. } => Inquiry::CheckPath,
            Command::TogglePopup { .. } => Inquiry::FindPopup,
            Command::OpenPopup { .. } => Inquiry::FindPopup,
            Command::ClosePopup { .. } => Inquiry::FindPopup,
            Command::Ping => Inquiry::Nothing,
            Command::SetVisible { .. } => Inquiry::ListWindows,
            Command::GetVisible { .. } => Inquiry::ListWindows,
        }
    }

    /// Answers a command, given what was found out, and says what is to be done
    /// about it.
    pub fn handle_command(command: &Command, finding: Finding) -> (handled: (
        Vec<Effect>,
        Response,
    ))
        requires
            settles(finding, inquiry_for(*command)),
        ensures
            (handled.0@, handled.1@) == outcome(*command, finding),
    {
        let mut effects: Vec<Effect> = Vec::new();
        let response: Response = match (command, finding) {
            (Command::SetVar { .. }, Finding::VariableSet(Err(reason))) => {
                Response::Failure { message: Some(reason) }
            },
            (Command::Get { .. }, Finding::Variable(value)) => {
                match value {
                    Some(value) => Response::OkValue { value },
                    None => Response::error("Variable not found"),
                }
            },
            (Command::LoadCss { .. }, Finding::PathExists(exists_now)) => {
                if exists_now {
                    effects.push(Effect::LoadCss);
                    Response::Success
                } else {
                    Response::error("File not found")
                }
            },
            (Command::TogglePopup { name, .. }, Finding::Popup(Some(popup))) => {
                return show_module(&popup, name, true);
            },
            (Command::OpenPopup { name, .. }, Finding::Popup(Some(popup))) => {
                return show_module(&popup, name, false);
            },
            (Command::ClosePopup { .. }, Finding::Popup(Some(_))) => {
                effects.push(Effect::HidePopup);
                Response::Success
            },
            (_, Finding::Popup(_)) => Response::error("Invalid monitor name"),
            (Command::SetVisible { bar_name, visible }, Finding::Windows(windows)) => {
                match find_window(&windows, bar_name) {
                    Some(at) => {
                        effects.push(Effect::SetVisible { window: at, visible: *visible });
                        Response::Success
                    },
                    None => Response::error("Bar not found"),
                }
            },
            (Command::GetVisible { bar_name }, Finding::Windows(windows)) => {
                match find_window(&windows, bar_name) {
                    Some(at) => Response::OkValue { value: bool_text(windows[at].visible) },
                    None => Response::error("Bar not found"),
                }
            },
            _ => Response::Success,
        };
        assert(effects@ =~= outcome(*command, finding).0);
        (effects, response)
    }
}

/// What has to be done or found out before a command can be answered is what that
/// very command is about, and what comes of it is all that an answer needs.
pub proof fn law_inquiries_are_about_their_commands(command: Command, finding: Finding)
    ensures
        ({
            let inquiry = inquiry_for(command);
            &&& inquiry is EnableDebugging <==> command is Inspect
            &&& inquiry is Reload <==> command is Reload
            &&& inquiry is SetVariable <==> command is SetVar
            &&& inquiry is GetVariable <==> command is Get
            &&& inquiry is CheckPath <==> command is LoadCss
            &&& inquiry is FindPopup <==> command is TogglePopup || command is OpenPopup
                || command is ClosePopup
            &&& inquiry is Nothing <==> command is Ping
            &&& inquiry is ListWindows <==> command is SetVisible || command is GetVisible
            &&& settles(finding, inquiry) <==> {
                ||| finding is Done && (command is Inspect || command is Reload || command is Ping)
                ||| finding is VariableSet && command is SetVar
                ||| finding is Variable && command is Get
                ||| finding is PathExists && command is LoadCss
                ||| finding is Popup && (command is TogglePopup || command is OpenPopup
                    || command is ClosePopup)
                ||| finding is Windows && (command is SetVisible || command is GetVisible)
            }
        }),
{
}

/// The inspector, a reload and a question whether anyone is there always succeed,
/// without any effect of the answer.
pub proof fn law_plain_commands_succeed()
    ensures
        outcome(Command::Inspect, Finding::Done) == (Seq::<Effect>::empty(), Answer::Success),
        outcome(Command::Reload, Finding::Done) == (Seq::<Effect>::empty(), Answer::Success),
        outcome(Command::Ping, Finding::Done) == (Seq::<Effect>::empty(), Answer::Success),
{
}

/// Setting a variable succeeds exactly if it was not refused, and is refused for
/// the very reason that was given. Whoever asks for a variable gets its very value,
/// or is told that it was not found.
pub proof fn law_variables_are_answered(
    key: String,
    value: String,
    set: Result<(), String>,
    found: Option<String>,
)
    ensures
        ({
            let (effects, answer) = outcome(
                Command::SetVar { key, value },
                Finding::VariableSet(set),
            );
            &&& effects.len() == 0
            &&& set is Ok ==> answer is Success
            &&& set matches Err(reason) ==> answer == Answer::Failure(Some(reason@))
        }),
        ({
            let (effects, answer) = outcome(Command::Get { key }, Finding::Variable(found));
            &&& effects.len() == 0
            &&& found matches Some(held) ==> answer == Answer::Value(held@)
            &&& found is None ==> answer == Answer::Failure(Some("Variable not found"@))
        }),
{
}

/// A style sheet is loaded exactly if it exists, and the command succeeds exactly
/// then.
pub proof fn law_style_sheets_are_loaded_if_they_exist(path: String, present: bool)
    ensures
        ({
            let (effects, answer) = outcome(
                Command::LoadCss { path },
                Finding::PathExists(present),
            );
            &&& present ==> effects == seq![Effect::LoadCss] && answer is Success
            &&& !present ==> effects.len() == 0 && answer == Answer::Failure(
                Some("File not found"@),
            )
        }),
{
}

/// A module is found wherever in the popup it stands. The first one with the name,
/// if it has a button, is shown at its first button when it is opened, and when it
/// is toggled while it is not shown; toggled while it is shown, it is only hidden.
/// One without a button is refused. The popup is hidden first in any case.
pub proof fn law_modules_are_found_wherever_they_are(
    popup: Popup,
    bar_name: String,
    name: String,
    at: int,
)
    requires
        0 <= at < popup.cache@.len(),
        popup.cache@[at].module_name@ == name@,
        forall|i: int| 0 <= i < at ==> (#[trigger] popup.cache@[i]).module_name@ != name@,
    ensures
        ({
            let entry = popup.cache@[at];
            let found = Finding::Popup(Some(popup));
            let opened = outcome(Command::OpenPopup { bar_name, name }, found);
            let toggled = outcome(Command::TogglePopup { bar_name, name }, found);
            let shown = seq![
                Effect::HidePopup,
                Effect::ShowPopup { id: entry.id, button_id: entry.buttons@[0] },
            ];
            &&& entry.buttons@.len() > 0 ==> opened == (shown, Answer::Success)
            &&& entry.buttons@.len() > 0 && popup.current_widget != Some(entry.id) ==> toggled == (
                shown,
                Answer::Success,
            )
            &&& entry.buttons@.len() > 0 && popup.current_widget == Some(entry.id) ==> toggled == (
                seq![Effect::HidePopup],
                Answer::Success,
            )
            &&& entry.buttons@.len() == 0 ==> opened == toggled && opened == (
                seq![Effect::HidePopup],
                Answer::Failure(Some("Module has no popup functionality"@)),
            )
        }),
{
    let wanted = |entry: PopupEntry| entry.module_name@ == name@;
    assert(is_first_where(popup.cache@, wanted, at));
    lemma_first_where(popup.cache@, wanted, at);
}

/// A name is refused as that of no module only if no module of the popup has it,
/// and then it always is, though the popup is hidden.
pub proof fn law_modules_are_refused_only_if_unknown(
    popup: Popup,
    bar_name: String,
    name: String,
)
    ensures
        ({
            let found = Finding::Popup(Some(popup));
            let refused = (
                seq![Effect::HidePopup],
                Answer::Failure(Some("Invalid module name"@)),
            );
            let unknown = forall|i: int|
                0 <= i < popup.cache@.len() ==> (#[trigger] popup.cache@[i]).module_name@ != name@;
            &&& unknown ==> outcome(Command::OpenPopup { bar_name, name }, found) == refused
            &&& unknown ==> outcome(Command::TogglePopup { bar_name, name }, found) == refused
            &&& !unknown ==> outcome(Command::OpenPopup { bar_name, name }, found).1
                != Answer::Failure(Some("Invalid module name"@))
            &&& !unknown ==> outcome(Command::TogglePopup { bar_name, name }, found).1
                != Answer::Failure(Some("Invalid module name"@))
        }),
{
    let wanted = |entry: PopupEntry| entry.module_name@ == name@;
    lemma_first_where_none(popup.cache@, wanted);
    reveal_strlit("Invalid module name");
    reveal_strlit("Module has no popup functionality");
    assert("Invalid module name"@.len() != "Module has no popup functionality"@.len());
    if forall|i: int|
        0 <= i < popup.cache@.len() ==> (#[trigger] popup.cache@[i]).module_name@ != name@ {
        assert(forall|i: int|
            0 <= i < popup.cache@.len() ==> !wanted(#[trigger] popup.cache@[i]));
    } else {
        let i = choose|i: int|
            0 <= i < popup.cache@.len() && (#[trigger] popup.cache@[i]).module_name@ == name@;
        assert(wanted(popup.cache@[i]));
    }
}

/// Closing the popup of a bar hides it. Every command on the popup of a bar that
/// is not there is refused, without any effect.
pub proof fn law_popups_of_unknown_bars_are_refused(popup: Popup, bar_name: String, name: String)
    ensures
        ({
            let refused = (
                Seq::<Effect>::empty(),
                Answer::Failure(Some("Invalid monitor name"@)),
            );
            let closing = Command::ClosePopup { bar_name };
            &&& outcome(closing, Finding::Popup(Some(popup))) == (
                seq![Effect::HidePopup],
                Answer::Success,
            )
            &&& outcome(closing, Finding::Popup(None)) == refused
            &&& outcome(Command::OpenPopup { bar_name, name }, Finding::Popup(None)) == refused
            &&& outcome(Command::TogglePopup { bar_name, name }, Finding::Popup(None)) == refused
        }),
{
}

/// A bar is found wherever among the windows it stands. The first window with the
/// name is the one that is shown or hidden, as the command says, and the one whose
/// being shown is told.
pub proof fn law_bars_are_found_wherever_they_are(
    windows: Vec<BarWindow>,
    bar_name: String,
    visible: bool,
    at: int,
)
    requires
        0 <= at < windows@.len(),
        windows@[at].name@ == bar_name@,
        forall|i: int| 0 <= i < at ==> (#[trigger] windows@[i]).name@ != bar_name@,
    ensures
        outcome(Command::SetVisible { bar_name, visible }, Finding::Windows(windows)) == (
            seq![Effect::SetVisible { window: at as usize, visible }],
            Answer::Success,
        ),
        at as usize == at,
        outcome(Command::GetVisible { bar_name }, Finding::Windows(windows)).0.len() == 0,
        windows@[at].visible ==> outcome(
            Command::GetVisible { bar_name },
            Finding::Windows(windows),
        ).1 == Answer::Value("true"@),
        !windows@[at].visible ==> outcome(
            Command::GetVisible { bar_name },
            Finding::Windows(windows),
        ).1 == Answer::Value("false"@),
{
    let wanted = |window: BarWindow| window.name@ == bar_name@;
    assert(is_first_where(windows@, wanted, at));
    lemma_first_where(windows@, wanted, at);
    assert(windows.len() == windows@.len());
}

/// If no window has the name, both commands on a bar are refused, without any
/// effect.
pub proof fn law_unknown_bars_are_refused(
    windows: Vec<BarWindow>,
    bar_name: String,
    visible: bool,
)
    requires
        forall|i: int| 0 <= i < windows@.len() ==> (#[trigger] windows@[i]).name@ != bar_name@,
    ensures
        outcome(Command::SetVisible { bar_name, visible }, Finding::Windows(windows)) == (
            Seq::<Effect>::empty(),
            Answer::Failure(Some("Bar not found"@)),
        ),
        outcome(Command::GetVisible { bar_name }, Finding::Windows(windows)) == (
            Seq::<Effect>::empty(),
            Answer::Failure(Some("Bar not found"@)),
        ),
{
    let wanted = |window: BarWindow| window.name@ == bar_name@;
    lemma_first_where_none(windows@, wanted);
    assert(forall|i: int| 0 <= i < windows@.len() ==> !wanted(#[trigger] windows@[i]));
}

/// What a bar's popup shows once the effects are done, given what it showed
/// before.
pub open spec fn shown_after(before: Option<usize>, effects: Seq<Effect>) -> Option<usize>
    decreases effects.len(),
{
    if effects.len() == 0 {
        before
    } else {
        match effects.last() {
            Effect::HidePopup => None,
            Effect::ShowPopup { id, .. } => Some(id),
            _ => shown_after(before, effects.drop_last()),
        }
    }
}

/// Whether a module with a name can be shown in a popup, and under which id.
pub open spec fn showable(popup: Popup, name: Seq<char>) -> Option<usize> {
    match module_named(popup.cache@, name) {
        Some(at) => if popup.cache@[at].buttons@.len() > 0 {
            Some(popup.cache@[at].id)
        } else {
            None
        },
        None => None,
    }
}

/// Toggling a module that is not shown shows it, and toggling it again hides it.
pub proof fn law_toggling_twice_hides(popup: Popup, again: Popup, name: Seq<char>)
    requires
        showable(popup, name) matches Some(id) && popup.current_widget != Some(id),
        again.cache@ == popup.cache@,
        again.current_widget == shown_after(
            popup.current_widget,
            popup_outcome(popup, name, true).0,
        ),
    ensures
        again.current_widget == showable(popup, name),
        shown_after(again.current_widget, popup_outcome(again, name, true).0) is None,
        popup_outcome(popup, name, true).1 == Answer::Success,
        popup_outcome(again, name, true).1 == Answer::Success,
{
    reveal_with_fuel(shown_after, 3);
}

/// Opening a module shows it, whatever was shown before, so opening it again
/// changes nothing.
pub proof fn law_opening_shows(popup: Popup, again: Popup, name: Seq<char>)
    requires
        showable(popup, name) is Some,
        again.cache@ == popup.cache@,
        again.current_widget == shown_after(
            popup.current_widget,
            popup_outcome(popup, name, false).0,
        ),
    ensures
        again.current_widget == showable(popup, name),
        shown_after(again.current_widget, popup_outcome(again, name, false).0)
            == again.current_widget,
        popup_outcome(popup, name, false).1 == Answer::Success,
        popup_outcome(again, name, false).1 == Answer::Success,
{
    reveal_with_fuel(shown_after, 3);
}

/// Only one popup is shown per bar: none is shown before the one that may be
/// shown was hidden.
pub proof fn law_hidden_before_shown(command: Command, finding: Finding, i: int)
    requires
        settles(finding, inquiry_for(command)),
        0 <= i < outcome(command, finding).0.len(),
        outcome(command, finding).0[i] is ShowPopup,
    ensures
        i > 0,
        outcome(command, finding).0[i - 1] == Effect::HidePopup,
{
}

/// A command that is not carried out has no effect, but that a bar's popup is
/// hidden if another was asked for in its place.
pub proof fn law_refused_commands_change_nothing(command: Command, finding: Finding)
    requires
        settles(finding, inquiry_for(command)),
        outcome(command, finding).1 is Failure,
    ensures
        outcome(command, finding).0 == Seq::<Effect>::empty() || (outcome(command, finding).0
            == seq![Effect::HidePopup] && (command is TogglePopup || command is OpenPopup)),
        outcome(command, finding).1->Failure_0 is Some,
{
}

/// The windows once the effects are done.
pub open spec fn visible_after(
    windows: Seq<BarWindow>,
    effects: Seq<Effect>,
) -> Seq<BarWindow>
    decreases effects.len(),
{
    if effects.len() == 0 {
        windows
    } else {
        let before = visible_after(windows, effects.drop_last());
        match effects.last() {
            Effect::SetVisible { window, visible } => before.update(
                window as int,
                BarWindow { name: before[window as int].name, visible },
            ),
            _ => before,
        }
    }
}

/// Whoever asks whether a bar is shown, after having shown or hidden it, is
/// answered accordingly.
pub proof fn law_visibility_reads_back(
    bar_name: String,
    visible: bool,
    before: Vec<BarWindow>,
    after: Vec<BarWindow>,
)
    requires
        window_named(before@, bar_name@) is Some,
        after@ == visible_after(
            before@,
            outcome(
                Command::SetVisible { bar_name, visible },
                Finding::Windows(before),
            ).0,
        ),
    ensures
        outcome(Command::GetVisible { bar_name }, Finding::Windows(after)) == (
            Seq::<Effect>::empty(),
            Answer::Value(
                if visible {
                    "true"@
                } else {
                    "false"@
                },
            ),
        ),
{
    let wanted = |window: BarWindow| window.name@ == bar_name@;
    lemma_first_where_none(before@, wanted);
    let at = window_named(before@, bar_name@)->0;
    let effects = outcome(
        Command::SetVisible { bar_name, visible },
        Finding::Windows(before),
    ).0;
    reveal_with_fuel(visible_after, 2);
    assert(effects.drop_last() =~= Seq::<Effect>::empty());
    assert(before@.len() <= usize::MAX) by {
        assert(before.len() == before@.len());
    }
    assert(after@[at].name == before@[at].name);
    assert(is_first_where(after@, wanted, at)) by {
        assert forall|i: int| 0 <= i < at implies !wanted(#[trigger] after@[i]) by {
            assert(after@[i] == before@[i]);
        }
    }
    lemma_first_where(after@, wanted, at);
}

/// How far the server has come.
#[derive(Clone, Copy, Debug, PartialEq, Eq, Structural)]
pub enum ServerPhase {
    Binding,
    Accepting,
    Serving,
    Stopped,
}

/// What came of the server's last request.
#[derive(Clone, Copy, Debug, PartialEq, Eq, Structural)]
pub enum ServerEvent {
    /// Whether the socket was bound.
    Bound(bool),
    /// Whether a connection was accepted.
    Accepted(bool),
    /// Whether the connection was served.
    Served(bool),
}

/// A request to whoever runs the server.
#[derive(Clone, Copy, Debug, PartialEq, Eq, Structural)]
pub enum ServerAction {
    /// Warn that the socket exists already.
    WarnOfSocket,
    /// Remove the socket.
    Shutdown,
    /// Bind the socket.
    Bind,
    /// Accept a connection.
    Accept,
    /// Serve the connection that was accepted.
    Serve,
    /// Report that the last request failed.
    ReportError,
}

impl ServerPhase {
    /// Whether the event answers what was asked last.
    pub open spec fn expects(self, event: ServerEvent) -> bool {
        match self {
            ServerPhase::Binding => event is Bound,
            ServerPhase::Accepting => event is Accepted,
            ServerPhase::Serving => event is Served,
            ServerPhase::Stopped => false,
        }
    }

    /// The phase that an answer leads to.
    pub open spec fn next(self, event: ServerEvent) -> ServerPhase {
        match event {
            ServerEvent::Bound(false) => ServerPhase::Stopped,
            ServerEvent::Accepted(true) => ServerPhase::Serving,
            _ => ServerPhase::Accepting,
        }
    }

    /// What is asked after an answer.
    pub open spec fn requests(self, event: ServerEvent) -> Seq<ServerAction> {
        let report = match event {
            ServerEvent::Bound(succeeded) | ServerEvent::Accepted(succeeded)
            | ServerEvent::Served(succeeded) => if succeeded {
                seq![]
            } else {
                seq![ServerAction::ReportError]
            },
        };
        match self.next(event) {
            ServerPhase::Serving => report.push(ServerAction::Serve),
            ServerPhase::Accepting => report.push(ServerAction::Accept),
            _ => report,
        }
    }
}

impl Ipc {
    /// Begins to serve. A socket that exists already is left over from a process
    /// that is gone, and is removed first.
    pub fn start(socket_exists: bool) -> (begun: (ServerPhase, Vec<ServerAction>))
        ensures
            begun.0 == ServerPhase::Binding,
            begun.1@ == if socket_exists {
                seq![ServerAction::WarnOfSocket, ServerAction::Shutdown, ServerAction::Bind]
            } else {
                seq![ServerAction::Bind]
            },
    {
        let mut actions: Vec<ServerAction> = Vec::new();
        if socket_exists {
            actions.push(ServerAction::WarnOfSocket);
            actions.push(ServerAction::Shutdown);
        }
        actions.push(ServerAction::Bind);
        assert(actions@ =~= if socket_exists {
            seq![ServerAction::WarnOfSocket, ServerAction::Shutdown, ServerAction::Bind]
        } else {
            seq![ServerAction::Bind]
        });
        (ServerPhase::Binding, actions)
    }

    /// Goes on serving after an answer.
    pub fn advance(phase: ServerPhase, event: ServerEvent) -> (advanced: (
        ServerPhase,
        Vec<ServerAction>,
    ))
        requires
            phase.expects(event),
        ensures
            advanced.0 == phase.next(event),
            advanced.1@ == phase.requests(event),
    {
        let mut actions: Vec<ServerAction> = Vec::new();
        let succeeded: bool = match event {
            ServerEvent::Bound(succeeded) => succeeded,
            ServerEvent::Accepted(succeeded) => succeeded,
            ServerEvent::Served(succeeded) => succeeded,
        };
        if !succeeded {
            actions.push(ServerAction::ReportError);
        }
        let next: ServerPhase = match event {
            ServerEvent::Bound(false) => ServerPhase::Stopped,
            ServerEvent::Accepted(true) => {
                actions.push(ServerAction::Serve);
                ServerPhase::Serving
            },
            _ => {
                actions.push(ServerAction::Accept);
                ServerPhase::Accepting
            },
        };
        assert(actions@ =~= phase.requests(event));
        (next, actions)
    }
}

/// A server that could bind its socket accepts a connection, and one that could
/// not reports that and stops. An accepted connection is served. After a connection
/// was served, and after one that could not be accepted or served, which is
/// reported, the next is accepted.
pub proof fn law_servers_accept_one_after_the_other(succeeded: bool)
    ensures
        ({
            let bound = ServerEvent::Bound(succeeded);
            let accepted = ServerEvent::Accepted(succeeded);
            let served = ServerEvent::Served(succeeded);
            let after_bound = ServerPhase::Binding.requests(bound);
            let after_accepted = ServerPhase::Accepting.requests(accepted);
            let after_served = ServerPhase::Serving.requests(served);
            &&& ServerPhase::Binding.expects(bound) && ServerPhase::Accepting.expects(accepted)
                && ServerPhase::Serving.expects(served)
            &&& succeeded ==> {
                &&& ServerPhase::Binding.next(bound) is Accepting
                &&& after_bound == seq![ServerAction::Accept]
                &&& ServerPhase::Accepting.next(accepted) is Serving
                &&& after_accepted == seq![ServerAction::Serve]
                &&& ServerPhase::Serving.next(served) is Accepting
                &&& after_served == seq![ServerAction::Accept]
            }
            &&& !succeeded ==> {
                &&& ServerPhase::Binding.next(bound) is Stopped
                &&& after_bound == seq![ServerAction::ReportError]
                &&& ServerPhase::Accepting.next(accepted) is Accepting
                &&& after_accepted == seq![ServerAction::ReportError, ServerAction::Accept]
                &&& ServerPhase::Serving.next(served) is Accepting
                &&& after_served == seq![ServerAction::ReportError, ServerAction::Accept]
            }
        }),
{
    assert(ServerPhase::Binding.requests(ServerEvent::Bound(true)) =~= seq![ServerAction::Accept]);
    assert(ServerPhase::Accepting.requests(ServerEvent::Accepted(true)) =~= seq![
        ServerAction::Serve,
    ]);
    assert(ServerPhase::Serving.requests(ServerEvent::Served(true)) =~= seq![ServerAction::Accept]);
    assert(ServerPhase::Accepting.requests(ServerEvent::Accepted(false)) =~= seq![
        ServerAction::ReportError,
        ServerAction::Accept,
    ]);
    assert(ServerPhase::Serving.requests(ServerEvent::Served(false)) =~= seq![
        ServerAction::ReportError,
        ServerAction::Accept,
    ]);
}

/// A server that is bound goes on accepting connections, whatever becomes of any
/// of them. Every connection that is accepted is served, and no other is accepted
/// until that is over.
pub proof fn law_bound_servers_go_on(phase: ServerPhase, event: ServerEvent)
    requires
        phase is Accepting || phase is Serving,
        phase.expects(event),
    ensures
        phase.next(event) is Accepting || phase.next(event) is Serving,
        event == ServerEvent::Accepted(true) <==> phase.next(event) is Serving,
        phase.next(event) is Serving ==> phase.requests(event) == seq![ServerAction::Serve],
        phase.next(event) is Accepting ==> phase.requests(event).last() == ServerAction::Accept
            && !phase.requests(event).contains(ServerAction::Serve),
{
    if phase.next(event) is Serving {
        assert(phase.requests(event) =~= seq![ServerAction::Serve]);
    }
}

/// The most that is read of a request.
pub const REQUEST_LIMIT: usize = 1024;

/// How far the service of a connection has come.
#[derive(Clone, Copy, Debug, PartialEq, Eq, Structural)]
pub enum ConnectionPhase {
    New,
    Reading,
    Decoding,
    Forwarding,
    Awaiting,
    Encoding,
    Writing,
    Closing,
    Served,
    Failed,
}

/// What came of the last request. `E` is why it failed.
#[derive(Debug)]
pub enum ConnectionEvent<E> {
    /// The connection was accepted.
    Accepted,
    /// So many bytes were read into the buffer.
    Filled(Result<(Vec<u8>, usize), E>),
    /// The command that the bytes stand for.
    Decoded(Result<Command, E>),
    /// The command was passed on. Whoever carries commands out is there as long
    /// as the server is.
    Forwarded,
    /// The response, unless there will be none.
    Answered(Option<Response>),
    /// The bytes that stand for the response.
    Encoded(Result<Vec<u8>, E>),
    /// The bytes were written.
    Written(Result<(), E>),
    /// The connection was closed.
    Closed(Result<(), E>),
}

/// What is to be done next about a connection.
#[derive(Debug)]
pub enum ConnectionAction<E> {
    /// Read once into a buffer of [`REQUEST_LIMIT`] bytes.
    Fill,
    /// Make these bytes out as a command.
    Decode(Vec<u8>),
    /// Pass this command on to whoever carries it out.
    Forward(Command),
    /// Take the next response.
    Await,
    /// Put this response into bytes.
    Encode(Response),
    /// Write these bytes.
    Write(Vec<u8>),
    /// Close the connection for writing.
    Close,
    /// Nothing more: the connection was served, or it failed.
    Finish(Result<(), E>),
}

/// What is to be done next about a connection, with bytes as sequences.
pub ghost enum ConnectionRequest<E> {
    Fill,
    Decode(Seq<u8>),
    Forward(Command),
    Await,
    Encode(Response),
    Write(Seq<u8>),
    Close,
    Finish(Result<(), E>),
}

impl<E> View for ConnectionAction<E> {
    type V = ConnectionRequest<E>;

    open spec fn view(&self) -> ConnectionRequest<E> {
        match *self {
            ConnectionAction::Fill => ConnectionRequest::Fill,
            ConnectionAction::Decode(request) => ConnectionRequest::Decode(request@),
            ConnectionAction::Forward(command) => ConnectionRequest::Forward(command),
            ConnectionAction::Await => ConnectionRequest::Await,
            ConnectionAction::Encode(response) => ConnectionRequest::Encode(response),
            ConnectionAction::Write(bytes) => ConnectionRequest::Write(bytes@),
            ConnectionAction::Close => ConnectionRequest::Close,
            ConnectionAction::Finish(result) => ConnectionRequest::Finish(result),
        }
    }
}

/// The response, or that the command failed if none came.
pub open spec fn answer_to_give(response: Option<Response>) -> Response {
    match response {
        Some(response) => response,
        None => Response::Failure { message: None },
    }
}

impl ConnectionPhase {
    /// Whether the event answers what was asked last.
    pub open spec fn expects<E>(self, event: ConnectionEvent<E>) -> bool {
        match self {
            ConnectionPhase::New => event is Accepted,
            ConnectionPhase::Reading => event matches ConnectionEvent::Filled(filled) && (
            filled matches Ok(read) ==> read.1 <= read.0@.len()),
            ConnectionPhase::Decoding => event is Decoded,
            ConnectionPhase::Forwarding => event is Forwarded,
            ConnectionPhase::Awaiting => event is Answered,
            ConnectionPhase::Encoding => event is Encoded,
            ConnectionPhase::Writing => event is Written,
            ConnectionPhase::Closing => event is Closed,
            ConnectionPhase::Served | ConnectionPhase::Failed => false,
        }
    }

    /// The phase that an answer leads to. That no response comes is not a
    /// failure.
    pub open spec fn next<E>(self, event: ConnectionEvent<E>) -> ConnectionPhase {
        match event {
            ConnectionEvent::Accepted => ConnectionPhase::Reading,
            ConnectionEvent::Filled(Ok(_)) => ConnectionPhase::Decoding,
            ConnectionEvent::Decoded(Ok(_)) => ConnectionPhase::Forwarding,
            ConnectionEvent::Forwarded => ConnectionPhase::Awaiting,
            ConnectionEvent::Answered(_) => ConnectionPhase::Encoding,
            ConnectionEvent::Encoded(Ok(_)) => ConnectionPhase::Writing,
            ConnectionEvent::Written(Ok(_)) => ConnectionPhase::Closing,
            ConnectionEvent::Closed(Ok(_)) => ConnectionPhase::Served,
            _ => ConnectionPhase::Failed,
        }
    }

    /// How many answers lead to the phase, if none of them is a failure.
    pub open spec fn order(self) -> int {
        match self {
            ConnectionPhase::New => 0,
            ConnectionPhase::Reading => 1,
            ConnectionPhase::Decoding => 2,
            ConnectionPhase::Forwarding => 3,
            ConnectionPhase::Awaiting => 4,
            ConnectionPhase::Encoding => 5,
            ConnectionPhase::Writing => 6,
            ConnectionPhase::Closing => 7,
            ConnectionPhase::Served => 8,
            ConnectionPhase::Failed => -1,
        }
    }

    /// Whether nothing more is to be done.
    pub open spec fn over(self) -> bool {
        self is Served || self is Failed
    }
}

/// What is asked after an answer: what was read is decoded, the command that
/// gives is passed on, the response to it is encoded, and the bytes of that are
/// written.
pub open spec fn request_after<E>(event: ConnectionEvent<E>) -> ConnectionRequest<E> {
    match event {
        ConnectionEvent::Accepted => ConnectionRequest::Fill,
        ConnectionEvent::Filled(Ok(read)) => ConnectionRequest::Decode(
            read.0@.take(read.1 as int),
        ),
        ConnectionEvent::Filled(Err(error)) => ConnectionRequest::Finish(Err(error)),
        ConnectionEvent::Decoded(Ok(command)) => ConnectionRequest::Forward(command),
        ConnectionEvent::Decoded(Err(error)) => ConnectionRequest::Finish(Err(error)),
        ConnectionEvent::Forwarded => ConnectionRequest::Await,
        ConnectionEvent::Answered(response) => ConnectionRequest::Encode(
            answer_to_give(response),
        ),
        ConnectionEvent::Encoded(Ok(bytes)) => ConnectionRequest::Write(bytes@),
        ConnectionEvent::Encoded(Err(error)) => ConnectionRequest::Finish(Err(error)),
        ConnectionEvent::Written(Ok(_)) => ConnectionRequest::Close,
        ConnectionEvent::Written(Err(error)) => ConnectionRequest::Finish(Err(error)),
        ConnectionEvent::Closed(result) => ConnectionRequest::Finish(result),
    }
}

impl Ipc {
    /// Serves a connection: returns how far that has come after an answer, and
    /// what is to be done next. The service begins as new, with the connection
    /// accepted.
    pub fn handle_connection<E>(phase: ConnectionPhase, event: ConnectionEvent<E>) -> (handled: (
        ConnectionPhase,
        ConnectionAction<E>,
    ))
        requires
            phase.expects(event),
        ensures
            handled.0 == phase.next(event),
            handled.1@ == request_after(event),
            event is Accepted ==> handled.0 is Reading && handled.1 is Fill,
            event matches ConnectionEvent::Filled(Ok(read)) ==> handled.0 is Decoding && (handled.1
                matches ConnectionAction::Decode(request) && request@ == read.0@.take(
                read.1 as int,
            )),
            event matches ConnectionEvent::Decoded(Ok(command)) ==> handled == (
                ConnectionPhase::Forwarding,
                ConnectionAction::<E>::Forward(command),
            ),
            event is Forwarded ==> handled.0 is Awaiting && handled.1 is Await,
            event matches ConnectionEvent::Answered(Some(response)) ==> handled == (
                ConnectionPhase::Encoding,
                ConnectionAction::<E>::Encode(response),
            ),
            event matches ConnectionEvent::Answered(None) ==> handled == (
                ConnectionPhase::Encoding,
                ConnectionAction::<E>::Encode(Response::Failure { message: None }),
            ),
            event matches ConnectionEvent::Encoded(Ok(bytes)) ==> handled == (
                ConnectionPhase::Writing,
                ConnectionAction::<E>::Write(bytes),
            ),
            event matches ConnectionEvent::Written(Ok(_)) ==> handled.0 is Closing
                && handled.1 is Close,
            event matches ConnectionEvent::Closed(Ok(_)) ==> handled.0 is Served && (handled.1
                matches ConnectionAction::Finish(result) && result is Ok),
            event matches ConnectionEvent::Filled(Err(error)) ==> handled == (
                ConnectionPhase::Failed,
                ConnectionAction::Finish(Err(error)),
            ),
            event matches ConnectionEvent::Decoded(Err(error)) ==> handled == (
                ConnectionPhase::Failed,
                ConnectionAction::Finish(Err(error)),
            ),
            event matches ConnectionEvent::Encoded(Err(error)) ==> handled == (
                ConnectionPhase::Failed,
                ConnectionAction::Finish(Err(error)),
            ),
            event matches ConnectionEvent::Written(Err(error)) ==> handled == (
                ConnectionPhase::Failed,
                ConnectionAction::Finish(Err(error)),
            ),
            event matches ConnectionEvent::Closed(Err(error)) ==> handled == (
                ConnectionPhase::Failed,
                ConnectionAction::Finish(Err(error)),
            ),
    {
        match event {
            ConnectionEvent::Accepted => (ConnectionPhase::Reading, ConnectionAction::Fill),
            ConnectionEvent::Filled(Ok((buffer, bytes))) => {
                let mut request = buffer;
                request.truncate(bytes);
                assert(request@ =~= buffer@.take(bytes as int));
                (ConnectionPhase::Decoding, ConnectionAction::Decode(request))
            },
            ConnectionEvent::Decoded(Ok(command)) => {
                (ConnectionPhase::Forwarding, ConnectionAction::Forward(command))
            },
            ConnectionEvent::Forwarded => (ConnectionPhase::Awaiting, ConnectionAction::Await),
            ConnectionEvent::Answered(response) => {
                let answer: Response = Self::response_or_failure(response);
                (ConnectionPhase::Encoding, ConnectionAction::Encode(answer))
            },
            ConnectionEvent::Encoded(Ok(bytes)) => {
                (ConnectionPhase::Writing, ConnectionAction::Write(bytes))
            },
            ConnectionEvent::Written(Ok(_)) => (ConnectionPhase::Closing, ConnectionAction::Close),
            ConnectionEvent::Closed(Ok(done)) => {
                (ConnectionPhase::Served, ConnectionAction::Finish(Ok(done)))
            },
            ConnectionEvent::Filled(Err(error)) => {
                (ConnectionPhase::Failed, ConnectionAction::Finish(Err(error)))
            },
            ConnectionEvent::Decoded(Err(error)) => {
                (ConnectionPhase::Failed, ConnectionAction::Finish(Err(error)))
            },
            ConnectionEvent::Encoded(Err(error)) => {
                (ConnectionPhase::Failed, ConnectionAction::Finish(Err(error)))
            },
            ConnectionEvent::Written(Err(error)) => {
                (ConnectionPhase::Failed, ConnectionAction::Finish(Err(error)))
            },
            ConnectionEvent::Closed(Err(error)) => {
                (ConnectionPhase::Failed, ConnectionAction::Finish(Err(error)))
            },
        }
    }

    /// Returns the part of the buffer that was read into.
    pub fn request(buffer: &Vec<u8>, bytes: usize) -> (request: &[u8])
        requires
            bytes <= buffer@.len(),
        ensures
            request@ == buffer@.take(bytes as int),
    {
        let request = &buffer.as_slice()[0..bytes];
        assert(request@ =~= buffer@.take(bytes as int));
        request
    }

    /// Returns the response, or that the command failed if none came.
    pub fn response_or_failure(response: Option<Response>) -> (answer: Response)
        ensures
            response matches Some(given) ==> answer == given,
            response is None ==> answer == (Response::Failure { message: None }),
            answer == answer_to_give(response),
    {
        match response {
            Some(response) => response,
            None => Response::Failure { message: None },
        }
    }
}

/// How far the service of a connection has come after a run of answers.
pub open spec fn connection_phase<E>(events: Seq<ConnectionEvent<E>>) -> ConnectionPhase
    decreases events.len(),
{
    if events.len() == 0 {
        ConnectionPhase::New
    } else {
        connection_phase(events.drop_last()).next(events.last())
    }
}

/// Whether every answer in a run is one to what was asked before it.
pub open spec fn answered_in_turn<E>(events: Seq<ConnectionEvent<E>>) -> bool
    decreases events.len(),
{
    events.len() > 0 ==> answered_in_turn(events.drop_last()) && connection_phase(
        events.drop_last(),
    ).expects(events.last())
}

/// Everything that is asked over a run of answers, first to last.
pub open spec fn requests_over<E>(events: Seq<ConnectionEvent<E>>) -> Seq<ConnectionRequest<E>> {
    events.map_values(|event: ConnectionEvent<E>| request_after(event))
}

/// The response that a command got is what its client is sent, whatever it is; and
/// only if there is none is the client told that the command failed, without a
/// reason.
pub proof fn law_responses_are_sent_unchanged<E>(response: Response)
    ensures
        ConnectionPhase::Awaiting.expects(ConnectionEvent::<E>::Answered(Some(response))),
        ConnectionPhase::Awaiting.expects(ConnectionEvent::<E>::Answered(None)),
        request_after(ConnectionEvent::<E>::Answered(Some(response)))
            == ConnectionRequest::<E>::Encode(response),
        request_after(ConnectionEvent::<E>::Answered(None)) == ConnectionRequest::<E>::Encode(
            Response::Failure { message: None },
        ),
        (ConnectionAction::<E>::Encode(response))@ == ConnectionRequest::<E>::Encode(response),
{
}

/// The bytes that were read, and none of the rest of the buffer, are what is
/// decoded; the command that they give is passed on as it is; and the bytes that a
/// response gives are written as they are.
pub proof fn law_data_is_passed_on_unchanged<E>(
    buffer: Vec<u8>,
    read: usize,
    command: Command,
    bytes: Vec<u8>,
)
    requires
        read <= buffer@.len(),
    ensures
        ConnectionPhase::Reading.expects(ConnectionEvent::<E>::Filled(Ok((buffer, read)))),
        request_after(ConnectionEvent::<E>::Filled(Ok((buffer, read))))
            matches ConnectionRequest::Decode(request) && request.len() == read && forall|i: int|
            0 <= i < read ==> #[trigger] request[i] == buffer@[i],
        ConnectionPhase::Decoding.expects(ConnectionEvent::<E>::Decoded(Ok(command))),
        request_after(ConnectionEvent::<E>::Decoded(Ok(command)))
            == ConnectionRequest::<E>::Forward(command),
        ConnectionPhase::Encoding.expects(ConnectionEvent::<E>::Encoded(Ok(bytes))),
        request_after(ConnectionEvent::<E>::Encoded(Ok(bytes))) == ConnectionRequest::<E>::Write(
            bytes@,
        ),
        (ConnectionAction::<E>::Forward(command))@ == ConnectionRequest::<E>::Forward(command),
        (ConnectionAction::<E>::Write(bytes))@ == ConnectionRequest::<E>::Write(bytes@),
        (ConnectionAction::<E>::Decode(bytes))@ == ConnectionRequest::<E>::Decode(bytes@),
{
}

/// Everything that is asked of a connection on which these bytes are read, which
/// stand for this command, and on which these are written, which stand for this
/// response.
pub open spec fn requests_when_served<E>(
    read: Seq<u8>,
    command: Command,
    response: Response,
    written: Seq<u8>,
) -> Seq<ConnectionRequest<E>> {
    seq![
        ConnectionRequest::Fill,
        ConnectionRequest::Decode(read),
        ConnectionRequest::Forward(command),
        ConnectionRequest::Await,
        ConnectionRequest::Encode(response),
        ConnectionRequest::Write(written),
        ConnectionRequest::Close,
        ConnectionRequest::Finish(Ok(())),
    ]
}

/// A connection that is served takes eight answers, none of them a failure. The
/// command that was decoded, and it alone, is passed on, once; then the next
/// response is taken, and it, or that the command failed if there is none, is
/// encoded; the bytes which that gives, and they alone, are written, once; and
/// the connection is closed after them.
pub proof fn law_served_connections<E>(events: Seq<ConnectionEvent<E>>)
    requires
        answered_in_turn(events),
        connection_phase(events) is Served,
    ensures
        events.len() == 8,
        events[1] matches ConnectionEvent::Filled(Ok(read)) && events[2]
            matches ConnectionEvent::Decoded(Ok(command)) && events[4]
            matches ConnectionEvent::Answered(response) && events[5]
            matches ConnectionEvent::Encoded(Ok(bytes)) && requests_over(events)
            == requests_when_served::<E>(
            read.0@.take(read.1 as int),
            command,
            match response {
                Some(response) => response,
                None => Response::Failure { message: None },
            },
            bytes@,
        ) && requests_over(events)[2] == ConnectionRequest::<E>::Forward(command)
            && requests_over(events)[4] == ConnectionRequest::<E>::Encode(
            match response {
                Some(response) => response,
                None => Response::Failure { message: None },
            },
        ) && requests_over(events)[5] == ConnectionRequest::<E>::Write(bytes@),
        requests_over(events).len() == 8,
        forall|i: int|
            0 <= i < 8 ==> {
                &&& (#[trigger] requests_over(events)[i]) is Fill <==> i == 0
                &&& requests_over(events)[i] is Decode <==> i == 1
                &&& requests_over(events)[i] is Forward <==> i == 2
                &&& requests_over(events)[i] is Await <==> i == 3
                &&& requests_over(events)[i] is Encode <==> i == 4
                &&& requests_over(events)[i] is Write <==> i == 5
                &&& requests_over(events)[i] is Close <==> i == 6
                &&& requests_over(events)[i] is Finish <==> i == 7
            },
{
    lemma_run_shape(events, 8);
    assert(events.take(8) =~= events);
    assert forall|n: int| 0 <= n < 8 implies connection_phase(#[trigger] events.take(n)).order()
        == n && connection_phase(events.take(n)).expects(events[n]) by {
        lemma_run_shape(events, n);
        lemma_run_shape(events, n + 1);
    }
    assert(events.take(0).len() == 0 && events.take(1).len() == 1 && events.take(2).len() == 2
        && events.take(3).len() == 3 && events.take(4).len() == 4 && events.take(5).len() == 5
        && events.take(6).len() == 6 && events.take(7).len() == 7);
    lemma_no_failure_before(events, 2);
    lemma_no_failure_before(events, 3);
    lemma_no_failure_before(events, 6);
    lemma_no_failure_before(events, 7);
    lemma_no_failure_before(events, 8);
    let read = events[1]->Filled_0->Ok_0;
    let command = events[2]->Decoded_0->Ok_0;
    let response = events[4]->Answered_0;
    let bytes = events[5]->Encoded_0->Ok_0;
    assert(events[7]->Closed_0->Ok_0 == ());
    assert(requests_over(events) =~= requests_when_served::<E>(
        read.0@.take(read.1 as int),
        command,
        answer_to_give(response),
        bytes@,
    ));
}

/// A connection that fails does so at the first answer that is a failure, and
/// the reason is the one given there. Nothing is asked after that.
pub proof fn law_failed_connections<E>(events: Seq<ConnectionEvent<E>>)
    requires
        answered_in_turn(events),
        connection_phase(events) is Failed,
    ensures
        events.len() > 0,
        !(connection_phase(events.drop_last()) is Failed),
        requests_over(events).last() matches ConnectionRequest::Finish(Err(error)) && match
            events.last() {
            ConnectionEvent::Filled(filled) => filled == Err::<(Vec<u8>, usize), E>(error),
            ConnectionEvent::Decoded(decoded) => decoded == Err::<Command, E>(error),
            ConnectionEvent::Encoded(encoded) => encoded == Err::<Vec<u8>, E>(error),
            ConnectionEvent::Written(written) => written == Err::<(), E>(error),
            ConnectionEvent::Closed(closed) => closed == Err::<(), E>(error),
            _ => false,
        },
        forall|event: ConnectionEvent<E>| !#[trigger] connection_phase(events).expects(event),
{
}

/// In a run that has not failed, the first `n` answers lead to the phase with
/// that number.
proof fn lemma_run_shape<E>(events: Seq<ConnectionEvent<E>>, n: int)
    requires
        answered_in_turn(events),
        !(connection_phase(events) is Failed),
        0 <= n,
    ensures
        connection_phase(events).order() == events.len(),
        n <= events.len() ==> answered_in_turn(events.take(n)) && connection_phase(
            events.take(n),
        ).order() == n,
        n < events.len() ==> connection_phase(events.take(n)).expects(events[n]),
    decreases events.len(),
{
    if events.len() > 0 {
        let rest = events.drop_last();
        lemma_run_shape(rest, n);
        if n < events.len() {
            assert(rest.take(n) =~= events.take(n));
        }
        if n == events.len() - 1 {
            assert(events.take(n) =~= rest);
        }
    }
    if n == events.len() {
        assert(events.take(n) =~= events);
    }
}

/// In a run that has not failed, the answer before the phase with number `n` is
/// no failure.
proof fn lemma_no_failure_before<E>(events: Seq<ConnectionEvent<E>>, n: int)
    requires
        answered_in_turn(events),
        !(connection_phase(events) is Failed),
        0 < n <= events.len(),
    ensures
        connection_phase(events.take(n - 1)).next(events[n - 1]).order() == n,
{
    lemma_run_shape(events, n);
    assert(events.take(n).drop_last() =~= events.take(n - 1));
    assert(events.take(n).last() == events[n - 1]);
}

/// The commands that were passed on and whose responses have not been taken,
/// first to last. The responses come in the order of the commands, one for each,
/// so the next one that is taken is that to the first of these.
pub open spec fn outstanding<E>(requests: Seq<ConnectionRequest<E>>) -> Seq<Command>
    decreases requests.len(),
{
    if requests.len() == 0 {
        seq![]
    } else {
        let before = outstanding(requests.drop_last());
        match requests.last() {
            ConnectionRequest::Forward(command) => before.push(command),
            ConnectionRequest::Await => before.skip(1),
            _ => before,
        }
    }
}

/// Everything that is asked over a number of connections, one after the other.
pub open spec fn requests_of_all<E>(connections: Seq<Seq<ConnectionEvent<E>>>) -> Seq<
    ConnectionRequest<E>,
>
    decreases connections.len(),
{
    if connections.len() == 0 {
        seq![]
    } else {
        requests_of_all(connections.drop_last()) + requests_over(connections.last())
    }
}

/// Each command has one response, and its client gets that one: however many
/// connections were served before, and whatever became of them, when a response
/// is about to be taken the one command that waits for one is that of this very
/// connection; and at all other times none does.
pub proof fn law_clients_get_their_own_response<E>(connections: Seq<Seq<ConnectionEvent<E>>>)
    requires
        connections.len() > 0,
        forall|i: int| 0 <= i < connections.len() ==> answered_in_turn(#[trigger] connections[i]),
        forall|i: int|
            0 <= i < connections.len() - 1 ==> connection_phase(#[trigger] connections[i]).over(),
    ensures
        ({
            let waiting = outstanding(requests_of_all(connections));
            let current = connections.last();
            if connection_phase(current) is Forwarding {
                &&& current.last() matches ConnectionEvent::Decoded(Ok(command)) && waiting
                    == seq![command]
                &&& forall|event: ConnectionEvent<E>| #[trigger]
                    connection_phase(current).expects(event) ==> request_after(event)
                        == ConnectionRequest::<E>::Await
            } else {
                waiting == Seq::<Command>::empty()
            }
        }),
    decreases connections.len(),
{
    let earlier = connections.drop_last();
    let current = connections.last();
    assert(answered_in_turn(connections[connections.len() - 1]));
    assert(outstanding(requests_of_all(earlier)) =~= Seq::<Command>::empty()) by {
        if earlier.len() > 0 {
            assert forall|i: int| 0 <= i < earlier.len() implies answered_in_turn(
                #[trigger] earlier[i],
            ) && connection_phase(earlier[i]).over() by {
                assert(earlier[i] == connections[i]);
            }
            law_clients_get_their_own_response(earlier);
            assert(connection_phase(earlier[earlier.len() - 1]).over());
        }
    }
    lemma_outstanding(requests_of_all(earlier), current);
}

proof fn lemma_outstanding<E>(
    earlier: Seq<ConnectionRequest<E>>,
    events: Seq<ConnectionEvent<E>>,
)
    requires
        answered_in_turn(events),
        outstanding(earlier) == Seq::<Command>::empty(),
    ensures
        ({
            let waiting = outstanding(earlier + requests_over(events));
            if connection_phase(events) is Forwarding {
                events.last() matches ConnectionEvent::Decoded(Ok(command)) && waiting
                    == seq![command]
            } else {
                waiting == Seq::<Command>::empty()
            }
        }),
    decreases events.len(),
{
    let all = earlier + requests_over(events);
    if events.len() == 0 {
        assert(all =~= earlier);
    } else {
        let rest = events.drop_last();
        lemma_outstanding(earlier, rest);
        assert(all.drop_last() =~= earlier + requests_over(rest));
        assert(all.last() == request_after(events.last()));
        let before = outstanding(all.drop_last());
        if connection_phase(rest) is Forwarding {
            assert(before.skip(1) =~= Seq::<Command>::empty());
        } else if connection_phase(events) is Forwarding {
            let command = events.last()->Decoded_0->Ok_0;
            assert(before.push(command) =~= seq![command]);
        }
    }
}

} // verus!
