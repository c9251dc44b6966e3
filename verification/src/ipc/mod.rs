//! Commands that other processes send to a running bar, and their answers.

pub mod server;

use vstd::prelude::*;

verus! {

/// What a bar can be told to do, or asked.
#[derive(Debug)]
pub enum Command {
    /// Open the toolkit's inspector.
    Inspect,
    /// Read the configuration again and rebuild all bars.
    Reload,
    /// Give a variable a value.
    SetVar { key: String, value: String },
    /// Ask for the value of a variable.
    Get { key: String },
    /// Load another style sheet.
    LoadCss { path: String },
    /// Show the popup of a module, or hide it if it is shown.
    TogglePopup { bar_name: String, name: String },
    /// Show the popup of a module.
    OpenPopup { bar_name: String, name: String },
    /// Hide whatever popup a bar shows.
    ClosePopup { bar_name: String },
    /// Ask whether anyone is there.
    Ping,
    /// Show or hide a bar.
    SetVisible { bar_name: String, visible: bool },
    /// Ask whether a bar is shown.
    GetVisible { bar_name: String },
}

/// The answer to a command.
#[derive(Debug)]
pub enum Response {
    /// The command was carried out.
    Success,
    /// The command was carried out, and this is the value asked for.
    OkValue { value: String },
    /// The command was not carried out.
    Failure { message: Option<String> },
}

/// What an answer says.
pub ghost enum Answer {
    Success,
    Value(Seq<char>),
    Failure(Option<Seq<char>>),
}

impl View for Response {
    type V = Answer;

    open spec fn view(&self) -> Answer {
        match self {
            Response::Success => Answer::Success,
            Response::OkValue { value } => Answer::Value(value@),
            Response::Failure { message: Some(message) } => Answer::Failure(Some(message@)),
            Response::Failure { message: None } => Answer::Failure(None),
        }
    }
}

/// What an answer says is what it holds: that the command was carried out, the
/// very value, or that it was not, with the very reason if there is one.
pub proof fn law_answers_say_what_they_hold(response: Response)
    ensures
        response is Success <==> response@ is Success,
        response is OkValue <==> response@ is Value,
        response is Failure <==> response@ is Failure,
        response matches Response::OkValue { value } ==> response@ == Answer::Value(value@),
        response matches Response::Failure { message: Some(reason) } ==> response@
            == Answer::Failure(Some(reason@)),
        response matches Response::Failure { message: None } ==> response@ == Answer::Failure(None),
{
}

/// The answer that a command was not carried out, for the given reason.
pub open spec fn refusal(message: &str) -> Answer {
    Answer::Failure(Some(message@))
}

impl Response {
    /// Makes the answer that a command was not carried out, for the given reason.
    pub fn error(message: &str) -> (response: Response)
        ensures
            response@ == refusal(message),
            response matches Response::Failure { message: Some(reason) } && reason@ == message@,
    {
        Response::Failure { message: Some(message.to_owned()) }
    }
}

/// The server that takes commands.
pub struct Ipc;

} // verus!
