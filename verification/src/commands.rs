//! The decisions of the interactive loop: what one input line asks
//! for, and whether a confirmation is affirmative.  Reading the line,
//! printing, and acting on the decision stay with the embedding
//! application.

use vstd::prelude::*;
use vstd::string::StrSliceExecFns;
use vstd::string::StringExecFns;
use crate::config::{model_of_name, ChatModel};
use crate::text::{
    lower_of, lowercase, starts_with_spec, str_eq, str_starts_with, strip_prefix_all,
    strip_prefix_all_str, trim_spec, trim_str,
};

verus! {

/// What one input line asks the interactive loop to do.
#[derive(Debug)]
pub enum CliAction {
    /// End the session.
    Exit,
    /// Toggle streaming replies.
    ToggleStream,
    /// Clear the screen.
    ClearScreen,
    /// Start a new conversation.
    NewConversation,
    /// Show the conversation history.
    ShowContext,
    /// Show the command help.
    Help,
    /// List the models on offer.
    ListModels,
    /// Switch to the named model.
    SetModel(ChatModel),
    /// A model switch named no known model.
    InvalidModel(String),
    /// An unknown slash command.
    Unknown,
    /// Generate a shell command from the description.
    ShellTask(String),
    /// A blank line: nothing to do.
    Empty,
    /// An ordinary prompt for the assistant.
    Chat(String),
}

/// Mathematical model of a parsed action.
pub enum CliActionView {
    Exit,
    ToggleStream,
    ClearScreen,
    NewConversation,
    ShowContext,
    Help,
    ListModels,
    SetModel(ChatModel),
    InvalidModel(Seq<char>),
    Unknown,
    ShellTask(Seq<char>),
    Empty,
    Chat(Seq<char>),
}

impl View for CliAction {
    type V = CliActionView;

    open spec fn view(&self) -> CliActionView {
        match self {
            CliAction::Exit => CliActionView::Exit,
            CliAction::ToggleStream => CliActionView::ToggleStream,
            CliAction::ClearScreen => CliActionView::ClearScreen,
            CliAction::NewConversation => CliActionView::NewConversation,
            CliAction::ShowContext => CliActionView::ShowContext,
            CliAction::Help => CliActionView::Help,
            CliAction::ListModels => CliActionView::ListModels,
            CliAction::SetModel(m) => CliActionView::SetModel(*m),
            CliAction::InvalidModel(s) => CliActionView::InvalidModel(s@),
            CliAction::Unknown => CliActionView::Unknown,
            CliAction::ShellTask(s) => CliActionView::ShellTask(s@),
            CliAction::Empty => CliActionView::Empty,
            CliAction::Chat(s) => CliActionView::Chat(s@),
        }
    }
}

/// The action a trimmed input line denotes, arm by arm: the exact
/// commands first, then a model switch, then unknown slash commands,
/// then shell tasks, then blank lines, and an ordinary prompt last.
pub open spec fn command_of(t: Seq<char>) -> CliActionView {
    if t == "exit"@ || t == "quit"@ || t == "/exit"@ || t == "/quit"@ || t == "q"@ {
        CliActionView::Exit
    } else if t == "/stream"@ {
        CliActionView::ToggleStream
    } else if t == "/clear"@ {
        CliActionView::ClearScreen
    } else if t == "/new"@ {
        CliActionView::NewConversation
    } else if t == "/context"@ {
        CliActionView::ShowContext
    } else if t == "/help"@ {
        CliActionView::Help
    } else if t == "/model"@ {
        CliActionView::ListModels
    } else if starts_with_spec(t, "/model"@) {
        let name = trim_spec(strip_prefix_all(t, "/model "@));
        match model_of_name(name) {
            Some(m) => CliActionView::SetModel(m),
            None => CliActionView::InvalidModel(name),
        }
    } else if starts_with_spec(t, "/"@) {
        CliActionView::Unknown
    } else if starts_with_spec(t, "!"@) {
        CliActionView::ShellTask(trim_spec(strip_prefix_all(t, "!"@)))
    } else if t.len() == 0 {
        CliActionView::Empty
    } else {
        CliActionView::Chat(t)
    }
}

/// Parses one raw input line into the action it asks for, after
/// trimming surrounding white space.
pub fn parse_command(line: &str) -> (action: CliAction)
    ensures
        action@ == command_of(trim_spec(line@)),
{
    let t = trim_str(line);
    if str_eq(t, "exit") || str_eq(t, "quit") || str_eq(t, "/exit") || str_eq(t, "/quit")
        || str_eq(t, "q") {
        CliAction::Exit
    } else if str_eq(t, "/stream") {
        CliAction::ToggleStream
    } else if str_eq(t, "/clear") {
        CliAction::ClearScreen
    } else if str_eq(t, "/new") {
        CliAction::NewConversation
    } else if str_eq(t, "/context") {
        CliAction::ShowContext
    } else if str_eq(t, "/help") {
        CliAction::Help
    } else if str_eq(t, "/model") {
        CliAction::ListModels
    } else if str_starts_with(t, "/model") {
        proof {
            reveal_strlit("/model ");
        }
        let name = trim_str(strip_prefix_all_str(t, "/model "));
        match ChatModel::from_name(name) {
            Some(m) => CliAction::SetModel(m),
            None => CliAction::InvalidModel(String::from_str(name)),
        }
    } else if str_starts_with(t, "/") {
        CliAction::Unknown
    } else if str_starts_with(t, "!") {
        proof {
            reveal_strlit("!");
        }
        let task = trim_str(strip_prefix_all_str(t, "!"));
        CliAction::ShellTask(String::from_str(task))
    } else if t.unicode_len() == 0 {
        CliAction::Empty
    } else {
        CliAction::Chat(String::from_str(t))
    }
}

/// Whether a confirmation input, trimmed and lowercased, is an
/// affirmative answer.
pub fn confirms_execution(input: &str) -> (r: bool)
    ensures
        r == ({
            let t = lower_of(trim_spec(input@));
            t == "y"@ || t == "yes"@
        }),
{
    let t = trim_str(input);
    let low = lowercase(t);
    str_eq(low.as_str(), "y") || str_eq(low.as_str(), "yes")
}

} // verus!
