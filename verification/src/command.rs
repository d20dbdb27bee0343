//! The unprivileged front-end's command set.
//!
//! A line is split at white space: its first word names the command, the
//! words after it, put together again with single spaces, are its argument.
//! `time` without an argument shows the time in [`DEFAULT_TIME_FORMAT`].
//! Reading a line never does anything; it yields the action for the caller to
//! take. Only `settime` with a date that parses leads to the helper being
//! started, with the timestamp in decimal as its one argument.

use crate::clock::{naive_datetime, parse_string_to_datetime_local, DATE_FORMAT};
use crate::codes::Code;
use crate::decimal::{decimal_text, format_i64};
use crate::text::{join_from, joined, same_text, split_words, words};
use vstd::prelude::*;
use vstd::string::*;

verus! {

/// Where the privileged helper is installed.
pub const SET_TIME_PATH: &'static str = "/usr/bin/set_time";

/// The pattern in which `time` shows the time when the line names none. It
/// is the pattern that `settime` reads, so that what `time` prints can be
/// typed back.
pub const DEFAULT_TIME_FORMAT: &'static str = "%d/%m/%Y %H:%M";

/// The summary that `help` prints.
pub const HELP_TEXT: &'static str =
    "\ttime [format]   -- print the current time, use strftime format\n\tsettime [time]  -- set the current time, use DD/MM/YYYY HH:mm format\n\thelp            -- print this message\n\texit            -- exit the program";

/// What is printed for a command that does not exist.
pub const NOT_FOUND_TEXT: &'static str = "\tcommand not found, try help";

/// What follows the user's input when it is not a date.
pub const INVALID_FORMAT_TEXT: &'static str = " : invalid format";

/// A line of input, read.
#[derive(Debug, PartialEq, Eq)]
pub enum Command {
    /// Nothing but white space.
    Blank,
    /// `time`, with the pattern to render the time in: the words that follow
    /// it, or the default pattern where none follows.
    Time { format: String },
    /// `settime`, with the date as typed.
    SetTime { date: String },
    Help,
    Exit,
    /// Any other first word.
    Unknown,
}

/// What a [`Command`] holds, as plain character sequences.
pub enum CommandView {
    Blank,
    Time { format: Seq<char> },
    SetTime { date: Seq<char> },
    Help,
    Exit,
    Unknown,
}

impl View for Command {
    type V = CommandView;

    open spec fn view(&self) -> CommandView {
        match self {
            Command::Blank => CommandView::Blank,
            Command::Time { format } => CommandView::Time { format: format@ },
            Command::SetTime { date } => CommandView::SetTime { date: date@ },
            Command::Help => CommandView::Help,
            Command::Exit => CommandView::Exit,
            Command::Unknown => CommandView::Unknown,
        }
    }
}

/// The command that a line writes.
pub open spec fn command_of(line: Seq<char>) -> CommandView {
    let all = words(line);
    if all.len() == 0 {
        CommandView::Blank
    } else if all[0] == "time"@ {
        if all.len() == 1 {
            CommandView::Time { format: DEFAULT_TIME_FORMAT@ }
        } else {
            CommandView::Time { format: joined(all.skip(1)) }
        }
    } else if all[0] == "settime"@ {
        CommandView::SetTime { date: joined(all.skip(1)) }
    } else if all[0] == "help"@ {
        CommandView::Help
    } else if all[0] == "exit"@ {
        CommandView::Exit
    } else {
        CommandView::Unknown
    }
}

/// Reads one line of input.
pub fn parse_command(line: &str) -> (command: Command)
    ensures
        command@ == command_of(line@),
{
    let all = split_words(line);
    if all.len() == 0 {
        return Command::Blank;
    }
    let name = all[0].as_str();
    if same_text(name, "time") {
        if all.len() == 1 {
            Command::Time { format: DEFAULT_TIME_FORMAT.to_owned() }
        } else {
            Command::Time { format: join_from(&all, 1) }
        }
    } else if same_text(name, "settime") {
        Command::SetTime { date: join_from(&all, 1) }
    } else if same_text(name, "help") {
        Command::Help
    } else if same_text(name, "exit") {
        Command::Exit
    } else {
        Command::Unknown
    }
}

/// What the caller is to do after a line was read.
#[derive(Debug, PartialEq, Eq)]
pub enum Action {
    /// Go on with the next line.
    Nothing,
    /// Read the clock, render it under `format` and print the text.
    ShowTime { format: String },
    /// Start the program at `path` with `argument` as its one argument and
    /// wait for it to end.
    Spawn { path: String, argument: String },
    /// Print `text` on a line of its own.
    Print { text: String },
    /// End the process with this exit code.
    Exit { code: i32 },
}

/// What an [`Action`] holds, as plain character sequences.
pub enum ActionView {
    Nothing,
    ShowTime { format: Seq<char> },
    Spawn { path: Seq<char>, argument: Seq<char> },
    Print { text: Seq<char> },
    Exit { code: i32 },
}

impl View for Action {
    type V = ActionView;

    open spec fn view(&self) -> ActionView {
        match self {
            Action::Nothing => ActionView::Nothing,
            Action::ShowTime { format } => ActionView::ShowTime { format: format@ },
            Action::Spawn { path, argument } => ActionView::Spawn {
                path: path@,
                argument: argument@,
            },
            Action::Print { text } => ActionView::Print { text: text@ },
            Action::Exit { code } => ActionView::Exit { code: *code },
        }
    }
}

/// The action that starts the helper with a timestamp.
pub open spec fn spawn_with(timestamp: i64) -> ActionView {
    ActionView::Spawn { path: SET_TIME_PATH@, argument: decimal_text(timestamp as int) }
}

/// The action that tells the user that `input` is not a date.
pub open spec fn refuse_date(input: Seq<char>) -> ActionView {
    ActionView::Print { text: input + INVALID_FORMAT_TEXT@ }
}

/// Whether `action` starts the helper with a timestamp that the date `input`
/// stands for: the input reads as a date and time under [`DATE_FORMAT`], and
/// the timestamp lies less than a day from that date and time read as UTC.
pub open spec fn spawns_for(action: ActionView, input: Seq<char>) -> bool {
    exists|timestamp: i64|
        action == #[trigger] spawn_with(timestamp) && (naive_datetime(input, DATE_FORMAT@) matches Some(
            civil,
        ) && civil.0 - 86_400 < timestamp < civil.0 + 86_400)
}

/// What `settime` leads to once the date was read: the helper is started with
/// the timestamp, written in decimal, or the user is told that the input is
/// not a date.
pub fn set_time_action(input: &str, parsed: Result<i64, i32>) -> (action: Action)
    ensures
        action@ == match parsed {
            Ok(timestamp) => spawn_with(timestamp),
            Err(_) => refuse_date(input@),
        },
{
    match parsed {
        Ok(timestamp) => Action::Spawn {
            path: SET_TIME_PATH.to_owned(),
            argument: format_i64(timestamp),
        },
        Err(_) => {
            let mut text = input.to_owned();
            text.append(INVALID_FORMAT_TEXT);
            Action::Print { text }
        },
    }
}

/// `settime`: reads `input` as a local date and time in [`DATE_FORMAT`].
///
/// The helper is started only with a timestamp that the date led to, and never
/// where the input does not parse; in every other case the user is told that
/// the input is not a date.
pub fn set_time(input: &str) -> (action: Action)
    ensures
        action@ == refuse_date(input@) || spawns_for(action@, input@),
        naive_datetime(input@, DATE_FORMAT@) is None ==> action@ == refuse_date(input@),
        action@ is Spawn ==> spawns_for(action@, input@),
{
    let parsed = parse_string_to_datetime_local(input, DATE_FORMAT);
    let action = set_time_action(input, parsed);
    proof {
        if let Ok(timestamp) = parsed {
            assert(action@ == spawn_with(timestamp));
        }
    }
    action
}

/// `help`: the summary of the commands.
pub fn help() -> (action: Action)
    ensures
        action@ == (ActionView::Print { text: HELP_TEXT@ }),
{
    Action::Print { text: HELP_TEXT.to_owned() }
}

/// Reads one line and says what is to be done.
///
/// A blank line is passed over. `time` asks for the time to be shown, in the
/// pattern that follows it or else in [`DEFAULT_TIME_FORMAT`]; `help` and any
/// unknown command print a text, `exit` ends the process with success. Only
/// `settime` can start the helper.
pub fn handle_commands(line: &str) -> (action: Action)
    ensures
        match command_of(line@) {
            CommandView::Blank => action@ == ActionView::Nothing,
            CommandView::Time { format } => action@ == (ActionView::ShowTime { format }),
            CommandView::SetTime { date } => {
                &&& action@ == refuse_date(date) || spawns_for(action@, date)
                &&& naive_datetime(date, DATE_FORMAT@) is None ==> action@ == refuse_date(date)
                &&& action@ is Spawn ==> spawns_for(action@, date)
            },
            CommandView::Help => action@ == (ActionView::Print { text: HELP_TEXT@ }),
            CommandView::Exit => action@ == (ActionView::Exit { code: Code::SUCESS }),
            CommandView::Unknown => action@ == (ActionView::Print { text: NOT_FOUND_TEXT@ }),
        },
        action@ is Spawn ==> command_of(line@) is SetTime,
{
    match parse_command(line) {
        Command::Blank => Action::Nothing,
        Command::Time { format } => Action::ShowTime { format },
        Command::SetTime { date } => set_time(date.as_str()),
        Command::Help => help(),
        Command::Exit => Action::Exit { code: Code::SUCESS },
        Command::Unknown => Action::Print { text: NOT_FOUND_TEXT.to_owned() },
    }
}

} // verus!
