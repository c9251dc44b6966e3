//! Options that every module has.

use vstd::prelude::*;

verus! {

/// How a module appears and disappears.
#[derive(Clone, Copy, Debug, PartialEq, Eq, Structural)]
pub enum TransitionType {
    NoTransition,
    Crossfade,
    SlideStart,
    SlideEnd,
}

/// How a bar lies on the screen.
#[derive(Clone, Copy, Debug, PartialEq, Eq, Structural)]
pub enum Orientation {
    Horizontal,
    Vertical,
    /// One that the toolkit knows and this program does not.
    Unknown(i32),
}

/// The transitions that the toolkit offers and that are made use of.
#[derive(Clone, Copy, Debug, PartialEq, Eq, Structural)]
pub enum RevealerTransitionType {
    NoTransition,
    Crossfade,
    SlideLeft,
    SlideUp,
    SlideRight,
    SlideDown,
}

/// The toolkit's transition for one of ours, in a bar that lies in a certain
/// way.
pub open spec fn revealer_transition(
    transition: TransitionType,
    orientation: Orientation,
) -> RevealerTransitionType {
    match transition {
        TransitionType::NoTransition => RevealerTransitionType::NoTransition,
        TransitionType::Crossfade => RevealerTransitionType::Crossfade,
        TransitionType::SlideStart => match orientation {
            Orientation::Horizontal => RevealerTransitionType::SlideLeft,
            Orientation::Vertical => RevealerTransitionType::SlideUp,
            Orientation::Unknown(_) => RevealerTransitionType::NoTransition,
        },
        TransitionType::SlideEnd => match orientation {
            Orientation::Horizontal => RevealerTransitionType::SlideRight,
            Orientation::Vertical => RevealerTransitionType::SlideDown,
            Orientation::Unknown(_) => RevealerTransitionType::NoTransition,
        },
    }
}

/// A module fades exactly if it is to fade. It slides exactly if it is to slide and
/// the bar lies in a known way: along the bar, back to its start or on to its end.
/// In all other cases it has no transition.
pub proof fn law_modules_slide_along_the_bar(transition: TransitionType, orientation: Orientation)
    ensures
        ({
            let result = revealer_transition(transition, orientation);
            &&& result is Crossfade <==> transition is Crossfade
            &&& result is SlideLeft <==> transition is SlideStart && orientation is Horizontal
            &&& result is SlideUp <==> transition is SlideStart && orientation is Vertical
            &&& result is SlideRight <==> transition is SlideEnd && orientation is Horizontal
            &&& result is SlideDown <==> transition is SlideEnd && orientation is Vertical
            &&& result is NoTransition <==> transition is NoTransition || (orientation is Unknown
                && !(transition is Crossfade))
        }),
{
}

impl TransitionType {
    /// Returns the toolkit's transition, for a bar that lies in a certain way.
    pub fn to_revealer_transition_type(&self, orientation: Orientation) -> (transition:
        RevealerTransitionType)
        ensures
            transition == revealer_transition(*self, orientation),
            transition is Crossfade <==> *self is Crossfade,
            transition is SlideLeft <==> *self is SlideStart && orientation is Horizontal,
            transition is SlideUp <==> *self is SlideStart && orientation is Vertical,
            transition is SlideRight <==> *self is SlideEnd && orientation is Horizontal,
            transition is SlideDown <==> *self is SlideEnd && orientation is Vertical,
    {
        match (*self, orientation) {
            (TransitionType::SlideStart, Orientation::Horizontal) => {
                RevealerTransitionType::SlideLeft
            },
            (TransitionType::SlideStart, Orientation::Vertical) => RevealerTransitionType::SlideUp,
            (TransitionType::SlideEnd, Orientation::Horizontal) => {
                RevealerTransitionType::SlideRight
            },
            (TransitionType::SlideEnd, Orientation::Vertical) => RevealerTransitionType::SlideDown,
            (TransitionType::Crossfade, _) => RevealerTransitionType::Crossfade,
            _ => RevealerTransitionType::NoTransition,
        }
    }
}

/// The options that every module has. `I` is how a script is written down in the
/// configuration.
#[derive(Debug, Clone)]
pub struct CommonConfig<I> {
    pub show_if: Option<I>,
    pub transition_type: Option<TransitionType>,
    pub transition_duration: Option<u32>,
    pub on_click_left: Option<I>,
    pub on_click_right: Option<I>,
    pub on_click_middle: Option<I>,
    pub on_scroll_up: Option<I>,
    pub on_scroll_down: Option<I>,
    pub on_mouse_enter: Option<I>,
    pub on_mouse_exit: Option<I>,
    pub tooltip: Option<String>,
}

/// When a module is shown.
#[derive(Debug)]
pub enum ShowIf<I> {
    /// At all times.
    Always,
    /// While this script succeeds.
    Script(I),
}

/// The scripts that run on a click.
#[derive(Debug)]
pub struct ClickScripts<S> {
    pub left: Option<S>,
    pub middle: Option<S>,
    pub right: Option<S>,
}

/// The scripts that run when the wheel is turned.
#[derive(Debug)]
pub struct ScrollScripts<S> {
    pub up: Option<S>,
    pub down: Option<S>,
}

/// The scripts that run when the pointer comes and goes.
#[derive(Debug)]
pub struct HoverScripts<S> {
    pub enter: Option<S>,
    pub leave: Option<S>,
}

/// The ways in which the pointer can cross the edge of a widget.
#[derive(Clone, Copy, Debug, PartialEq, Eq, Structural)]
pub enum Crossing {
    Enter,
    Leave,
}

/// What is done about an event that reaches a widget.
#[derive(Clone, Copy, Debug, PartialEq, Eq)]
pub struct Reaction<S> {
    /// The script that runs, once.
    pub script: Option<S>,
    /// Whether the event is kept from whoever else it may concern.
    pub inhibit: bool,
}

/// The directions in which the toolkit reports a wheel to be turned.
#[derive(Clone, Copy, Debug, PartialEq, Eq, Structural)]
pub enum ScrollDirection {
    Up,
    Down,
    Left,
    Right,
    Smooth,
    /// One that the toolkit knows and this program does not.
    Unknown(i32),
}

/// The script that a button of the mouse runs. The buttons are numbered from the
/// left one, beginning with one.
pub open spec fn click_script<S>(scripts: ClickScripts<S>, button: u32) -> Option<S> {
    if button == 1 {
        scripts.left
    } else if button == 2 {
        scripts.middle
    } else if button == 3 {
        scripts.right
    } else {
        None
    }
}

impl<S> ClickScripts<S> {
    /// Returns the script that a button of the mouse runs.
    pub fn on_click(&self, button: u32) -> (script: Option<&S>)
        ensures
            match script {
                Some(script) => click_script(*self, button) == Some(*script),
                None => click_script(*self, button) is None,
            },
            script matches Some(script) ==> (button == 1 && self.left == Some(*script)) || (button
                == 2 && self.middle == Some(*script)) || (button == 3 && self.right == Some(
                *script,
            )),
            script is None ==> (button == 1 ==> self.left is None) && (button == 2
                ==> self.middle is None) && (button == 3 ==> self.right is None),
    {
        match button {
            1 => self.left.as_ref(),
            2 => self.middle.as_ref(),
            3 => self.right.as_ref(),
            _ => None,
        }
    }
}

/// What is done about the wheel being turned: a script may run, and the event is
/// passed on.
pub open spec fn scroll_reaction<S>(
    scripts: ScrollScripts<S>,
    direction: ScrollDirection,
) -> Reaction<S> {
    Reaction {
        script: match direction {
            ScrollDirection::Up => scripts.up,
            ScrollDirection::Down => scripts.down,
            _ => None,
        },
        inhibit: false,
    }
}

impl<S> ScrollScripts<S> {
    /// Returns what is done about the wheel being turned.
    pub fn on_scroll(&self, direction: ScrollDirection) -> (reaction: Reaction<&S>)
        ensures
            refers_to(reaction, scroll_reaction(*self, direction)),
            !reaction.inhibit,
            reaction.script matches Some(script) ==> (direction is Up && self.up == Some(*script))
                || (direction is Down && self.down == Some(*script)),
            reaction.script is None ==> (direction is Up ==> self.up is None) && (direction is Down
                ==> self.down is None),
    {
        let script: Option<&S> = match direction {
            ScrollDirection::Up => self.up.as_ref(),
            ScrollDirection::Down => self.down.as_ref(),
            _ => None,
        };
        Reaction { script, inhibit: false }
    }
}

/// What is done about the pointer coming or going: a script may run, and the
/// event is passed on.
pub open spec fn hover_reaction<S>(scripts: HoverScripts<S>, crossing: Crossing) -> Reaction<S> {
    Reaction {
        script: match crossing {
            Crossing::Enter => scripts.enter,
            Crossing::Leave => scripts.leave,
        },
        inhibit: false,
    }
}

impl<S> HoverScripts<S> {
    /// Returns what is done about the pointer coming or going.
    pub fn on_hover(&self, crossing: Crossing) -> (reaction: Reaction<&S>)
        ensures
            refers_to(reaction, hover_reaction(*self, crossing)),
            !reaction.inhibit,
            reaction.script matches Some(script) ==> (crossing is Enter && self.enter == Some(
                *script,
            )) || (crossing is Leave && self.leave == Some(*script)),
            reaction.script is None ==> (crossing is Enter ==> self.enter is None) && (
            crossing is Leave ==> self.leave is None),
    {
        let script: Option<&S> = match crossing {
            Crossing::Enter => self.enter.as_ref(),
            Crossing::Leave => self.leave.as_ref(),
        };
        Reaction { script, inhibit: false }
    }
}

/// Whether a reaction that refers to a script is the given one.
pub open spec fn refers_to<S>(reaction: Reaction<&S>, given: Reaction<S>) -> bool {
    &&& reaction.inhibit == given.inhibit
    &&& match reaction.script {
        Some(script) => given.script == Some(*script),
        None => given.script is None,
    }
}

/// What is to be connected to a module's widget.
#[derive(Debug)]
pub struct Installation<I> {
    pub show: ShowIf<I>,
    pub clicks: ClickScripts<I>,
    pub scrolls: ScrollScripts<I>,
    pub hovers: HoverScripts<I>,
    pub tooltip: Option<String>,
}

/// When a module with the option is shown.
pub open spec fn shown_if<I>(show_if: Option<I>) -> ShowIf<I> {
    match show_if {
        Some(script) => ShowIf::Script(script),
        None => ShowIf::Always,
    }
}

/// What is to be connected to the widget of a module with the options.
pub open spec fn installation_of<I>(config: CommonConfig<I>) -> Installation<I> {
    Installation {
        show: shown_if(config.show_if),
        clicks: ClickScripts {
            left: config.on_click_left,
            middle: config.on_click_middle,
            right: config.on_click_right,
        },
        scrolls: ScrollScripts { up: config.on_scroll_up, down: config.on_scroll_down },
        hovers: HoverScripts { enter: config.on_mouse_enter, leave: config.on_mouse_exit },
        tooltip: config.tooltip,
    }
}

impl<I> CommonConfig<I> {
    /// Returns what is to be connected to a module's widget.
    pub fn install(self) -> (installation: Installation<I>)
        ensures
            installation == installation_of(self),
            self.show_if matches Some(script) ==> installation.show == ShowIf::Script(script),
            self.show_if is None ==> installation.show is Always,
            installation.clicks.left == self.on_click_left,
            installation.clicks.middle == self.on_click_middle,
            installation.clicks.right == self.on_click_right,
            installation.scrolls.up == self.on_scroll_up,
            installation.scrolls.down == self.on_scroll_down,
            installation.hovers.enter == self.on_mouse_enter,
            installation.hovers.leave == self.on_mouse_exit,
            installation.tooltip == self.tooltip,
    {
        let mut config = self;
        let show = config.install_show_if();
        Installation {
            show,
            clicks: ClickScripts {
                left: config.on_click_left,
                middle: config.on_click_middle,
                right: config.on_click_right,
            },
            scrolls: ScrollScripts { up: config.on_scroll_up, down: config.on_scroll_down },
            hovers: HoverScripts { enter: config.on_mouse_enter, leave: config.on_mouse_exit },
            tooltip: config.tooltip,
        }
    }

    /// Takes out when the module is shown.
    pub fn install_show_if(&mut self) -> (show: ShowIf<I>)
        ensures
            show == shown_if(old(self).show_if),
            old(self).show_if matches Some(script) ==> show == ShowIf::Script(script),
            old(self).show_if is None ==> show is Always,
            *final(self) == (CommonConfig { show_if: None, ..*old(self) }),
    {
        match self.show_if.take() {
            Some(script) => ShowIf::Script(script),
            None => ShowIf::Always,
        }
    }
}

/// Every event that reaches the widget of a module runs the script of its own
/// option, if there is one, and no other; and turning the wheel or moving the
/// pointer never keeps the event from others.
pub proof fn law_events_run_their_scripts<I>(
    config: CommonConfig<I>,
    button: u32,
    direction: ScrollDirection,
    crossing: Crossing,
)
    ensures
        ({
            let installation = installation_of(config);
            let clicked = click_script(installation.clicks, button);
            let scrolled = scroll_reaction(installation.scrolls, direction);
            let hovered = hover_reaction(installation.hovers, crossing);
            &&& button == 1 ==> clicked == config.on_click_left
            &&& button == 2 ==> clicked == config.on_click_middle
            &&& button == 3 ==> clicked == config.on_click_right
            &&& !(1 <= button <= 3) ==> clicked is None
            &&& direction is Up ==> scrolled.script == config.on_scroll_up
            &&& direction is Down ==> scrolled.script == config.on_scroll_down
            &&& !(direction is Up) && !(direction is Down) ==> scrolled.script is None
            &&& crossing is Enter ==> hovered.script == config.on_mouse_enter
            &&& crossing is Leave ==> hovered.script == config.on_mouse_exit
            &&& !scrolled.inhibit
            &&& !hovered.inhibit
            &&& config.show_if matches Some(script) ==> installation.show == ShowIf::Script(script)
            &&& config.show_if is None ==> installation.show is Always
            &&& installation.tooltip == config.tooltip
        }),
{
}

/// A change to what is seen of a module.
#[derive(Clone, Copy, Debug, PartialEq, Eq, Structural)]
pub enum VisibilityAction {
    /// Show the widget itself.
    ShowWidget,
    /// Show the container and all that is in it.
    Show,
    /// Have the container revealed, or concealed, by a transition.
    Reveal(bool),
    /// Hide the container.
    Hide,
}

/// What changes when it is known when a module is shown: one that is always
/// shown is shown at once.
pub fn on_installed<I>(show: &ShowIf<I>) -> (actions: Vec<VisibilityAction>)
    ensures
        actions@ == match show {
            ShowIf::Always => seq![VisibilityAction::ShowWidget],
            ShowIf::Script(_) => seq![],
        },
{
    let mut actions: Vec<VisibilityAction> = Vec::new();
    match show {
        ShowIf::Always => {
            actions.push(VisibilityAction::ShowWidget);
        },
        ShowIf::Script(_) => {},
    }
    assert(actions@ =~= match show {
        ShowIf::Always => seq![VisibilityAction::ShowWidget],
        ShowIf::Script(_) => seq![],
    });
    actions
}

/// What changes when a script has run, by whether it succeeded.
pub open spec fn actions_on_result(success: bool) -> Seq<VisibilityAction> {
    if success {
        seq![VisibilityAction::Show, VisibilityAction::Reveal(true)]
    } else {
        seq![VisibilityAction::Reveal(false)]
    }
}

/// Returns what changes when a script has run, by whether it succeeded. The
/// container is shown before it is revealed, and not hidden before it is
/// concealed.
pub fn on_script_result(success: bool) -> (actions: Vec<VisibilityAction>)
    ensures
        actions@ == actions_on_result(success),
        success ==> actions@ == seq![VisibilityAction::Show, VisibilityAction::Reveal(true)],
        !success ==> actions@ == seq![VisibilityAction::Reveal(false)],
{
    let mut actions: Vec<VisibilityAction> = Vec::new();
    if success {
        actions.push(VisibilityAction::Show);
    }
    actions.push(VisibilityAction::Reveal(success));
    assert(actions@ =~= actions_on_result(success));
    actions
}

/// What changes when a transition is over, by what it was for.
pub open spec fn actions_on_revealed(reveals_child: bool) -> Seq<VisibilityAction> {
    if reveals_child {
        seq![]
    } else {
        seq![VisibilityAction::Hide]
    }
}

/// Returns what changes when a transition is over, by what it was for.
pub fn on_child_revealed(reveals_child: bool) -> (actions: Vec<VisibilityAction>)
    ensures
        actions@ == actions_on_revealed(reveals_child),
        reveals_child ==> actions@.len() == 0,
        !reveals_child ==> actions@ == seq![VisibilityAction::Hide],
{
    let mut actions: Vec<VisibilityAction> = Vec::new();
    if !reveals_child {
        actions.push(VisibilityAction::Hide);
    }
    assert(actions@ =~= actions_on_revealed(reveals_child));
    actions
}

/// What changes, in order, as a script reports one result after the other.
pub open spec fn actions_on_results(results: Seq<bool>) -> Seq<VisibilityAction>
    decreases results.len(),
{
    if results.len() == 0 {
        seq![]
    } else {
        actions_on_results(results.drop_last()) + actions_on_result(results.last())
    }
}

/// Where in these changes those of the result at position `i` begin.
pub open spec fn actions_before(results: Seq<bool>, i: int) -> int {
    actions_on_results(results.take(i)).len() as int
}

/// A script that shows a module has it revealed or concealed by each of its
/// results, in their order. A success, and nothing else, has it shown right
/// before. No result hides it: that is done only when a transition is over that
/// was to conceal it.
pub proof fn law_polling_reveals_in_order(results: Seq<bool>, i: int)
    requires
        0 <= i < results.len(),
    ensures
        ({
            let actions = actions_on_results(results);
            let begin = actions_before(results, i);
            let end = actions_before(results, i + 1);
            &&& 0 <= begin < end <= actions.len()
            &&& actions_before(results, 0) == 0
            &&& actions_before(results, results.len() as int) == actions.len()
            &&& actions.subrange(begin, end) == if results[i] {
                seq![VisibilityAction::Show, VisibilityAction::Reveal(true)]
            } else {
                seq![VisibilityAction::Reveal(false)]
            }
        }),
        !actions_on_results(results).contains(VisibilityAction::Hide),
        forall|reveals_child: bool| #[trigger]
            actions_on_revealed(reveals_child).contains(VisibilityAction::Hide) == !reveals_child,
    decreases results.len(),
{
    let rest = results.drop_last();
    let last = results.len() - 1;
    let actions = actions_on_results(results);
    assert(results.take(results.len() as int) =~= results);
    assert(results.take(last) =~= rest);
    assert(results.take(0) =~= Seq::empty());
    if i < last {
        law_polling_reveals_in_order(rest, i);
        assert(rest.take(i) =~= results.take(i));
        assert(rest.take(i + 1) =~= results.take(i + 1));
        let begin = actions_before(results, i);
        let end = actions_before(results, i + 1);
        assert(actions.subrange(begin, end) =~= actions_on_results(rest).subrange(begin, end));
    } else {
        assert(actions.subrange(actions_before(results, i), actions.len() as int)
            =~= actions_on_result(results.last()));
    }
    lemma_results_do_not_hide(results);
    assert(actions_on_revealed(false)[0] == VisibilityAction::Hide);
}

proof fn lemma_results_do_not_hide(results: Seq<bool>)
    ensures
        !actions_on_results(results).contains(VisibilityAction::Hide),
    decreases results.len(),
{
    if results.len() > 0 {
        lemma_results_do_not_hide(results.drop_last());
        let rest = actions_on_results(results.drop_last());
        let actions = actions_on_results(results);
        if actions.contains(VisibilityAction::Hide) {
            let j = choose|j: int| 0 <= j < actions.len() && actions[j] == VisibilityAction::Hide;
            if j < rest.len() {
                assert(rest[j] == VisibilityAction::Hide);
            } else {
                assert(actions_on_result(results.last())[j - rest.len()]
                    == VisibilityAction::Hide);
            }
        }
    }
}

/// What is seen of a module: whether its container is shown, and whether it is
/// revealed or to be.
pub ghost struct Appearance {
    pub shown: bool,
    pub revealed: bool,
}

/// What is seen of a module once the actions are done.
pub open spec fn appearance_after(before: Appearance, actions: Seq<VisibilityAction>) -> Appearance
    decreases actions.len(),
{
    if actions.len() == 0 {
        before
    } else {
        let last = appearance_after(before, actions.drop_last());
        match actions.last() {
            VisibilityAction::ShowWidget => last,
            VisibilityAction::Show => Appearance { shown: true, ..last },
            VisibilityAction::Reveal(revealed) => Appearance { revealed, ..last },
            VisibilityAction::Hide => Appearance { shown: false, ..last },
        }
    }
}

/// Once a script's result is in, a module is not revealed while it is hidden;
/// and once the result has taken its full effect, the module is shown exactly if
/// the script succeeded.
pub proof fn law_appearance_follows_script(before: Appearance, success: bool)
    ensures
        ({
            let during = appearance_after(before, actions_on_result(success));
            let after = appearance_after(during, actions_on_revealed(during.revealed));
            &&& during.revealed ==> during.shown
            &&& before.shown ==> during.shown
            &&& after.revealed == success
            &&& after.shown == success
        }),
{
    reveal_with_fuel(appearance_after, 3);
    let actions = actions_on_result(success);
    if success {
        assert(actions.drop_last() =~= seq![VisibilityAction::Show]);
    }
    assert(actions.drop_last().drop_last() =~= Seq::empty() || actions.drop_last().len() == 0);
}

} // verus!
