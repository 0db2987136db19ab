//! The keyboard shortcuts and the commands they run.

use vstd::prelude::*;
use crate::display::Filter;

verus! {

broadcast use vstd::string::group_string_axioms;

/// What a shortcut asks for.
#[derive(Debug, Clone, Copy, PartialEq, Eq, Structural)]
pub enum Command {
    OpenGithub,
    Refresh,
    AddComment,
    CloseItem,
    EditToken,
    MoveDown,
    MoveUp,
    ShowOpen,
    ShowMerged,
    ShowClosed,
    ShowStale,
    SignIn,
}

/// The key bindings, key first.
pub open spec fn bindings() -> Seq<(Seq<char>, Command)> {
    seq![
        ("enter"@, Command::OpenGithub),
        ("r"@, Command::Refresh),
        ("c"@, Command::AddComment),
        ("x"@, Command::CloseItem),
        ("t"@, Command::EditToken),
        ("j"@, Command::MoveDown),
        ("down"@, Command::MoveDown),
        ("k"@, Command::MoveUp),
        ("up"@, Command::MoveUp),
        ("1"@, Command::ShowOpen),
        ("2"@, Command::ShowMerged),
        ("3"@, Command::ShowClosed),
        ("4"@, Command::ShowStale),
        ("s"@, Command::SignIn),
    ]
}

/// The key bindings to register.
pub fn key_bindings() -> (r: Vec<(&'static str, Command)>)
    ensures
        r@.map_values(|b: (&'static str, Command)| (b.0@, b.1)) == bindings(),
{
    let r: Vec<(&'static str, Command)> = vec![
        ("enter", Command::OpenGithub),
        ("r", Command::Refresh),
        ("c", Command::AddComment),
        ("x", Command::CloseItem),
        ("t", Command::EditToken),
        ("j", Command::MoveDown),
        ("down", Command::MoveDown),
        ("k", Command::MoveUp),
        ("up", Command::MoveUp),
        ("1", Command::ShowOpen),
        ("2", Command::ShowMerged),
        ("3", Command::ShowClosed),
        ("4", Command::ShowStale),
        ("s", Command::SignIn),
    ];
    assert(r@.map_values(|b: (&'static str, Command)| (b.0@, b.1)) =~= bindings());
    r
}

/// While the prompt is open, keystrokes belong to it: no shortcut runs.
pub fn command_applies(overlay_open: bool) -> (r: bool)
    ensures
        r == !overlay_open,
{
    !overlay_open
}

/// The rows a move command moves the selection by.
pub fn move_delta(command: Command) -> (r: Option<isize>)
    ensures
        r == (match command {
            Command::MoveDown => Some(1isize),
            Command::MoveUp => Some(-1isize),
            _ => None,
        }),
{
    match command {
        Command::MoveDown => Some(1),
        Command::MoveUp => Some(-1),
        _ => None,
    }
}

/// The filter a filter command shows.
pub fn filter_of(command: Command) -> (r: Option<Filter>)
    ensures
        r == (match command {
            Command::ShowOpen => Some(Filter::Open),
            Command::ShowMerged => Some(Filter::Merged),
            Command::ShowClosed => Some(Filter::Closed),
            Command::ShowStale => Some(Filter::Stale),
            _ => None,
        }),
{
    match command {
        Command::ShowOpen => Some(Filter::Open),
        Command::ShowMerged => Some(Filter::Merged),
        Command::ShowClosed => Some(Filter::Closed),
        Command::ShowStale => Some(Filter::Stale),
        _ => None,
    }
}

} // verus!
