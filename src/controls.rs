//! Commands typed on the console during an interactive session.

use vstd::prelude::*;
use crate::engine::ControlCommand;
use crate::text::{ascii_ci_eq, ascii_ci_matches, trim, trimmed};

verus! {

/// What one console line asks for.
#[derive(Debug, Clone, Copy, PartialEq, Eq, Structural)]
pub enum ConsoleInput {
    Command(ControlCommand),
    /// An empty line: nothing to do.
    Blank,
    /// Not a known command.
    Unknown,
}

/// The meaning of a console line, ignoring surrounding whitespace and ASCII case.
pub open spec fn console_input_of(line: Seq<char>) -> ConsoleInput {
    let t = trimmed(line);
    if ascii_ci_eq(t, "pause"@) {
        ConsoleInput::Command(ControlCommand::UserPause)
    } else if ascii_ci_eq(t, "resume"@) {
        ConsoleInput::Command(ControlCommand::UserResume)
    } else if ascii_ci_eq(t, "stop"@) || ascii_ci_eq(t, "quit"@) || ascii_ci_eq(t, "exit"@) {
        ConsoleInput::Command(ControlCommand::Stop)
    } else if t.len() == 0 {
        ConsoleInput::Blank
    } else {
        ConsoleInput::Unknown
    }
}

/// Reads `pause`, `resume`, or `stop` (also `quit`, `exit`).
pub fn parse_console_line(line: &str) -> (r: ConsoleInput)
    ensures
        r == console_input_of(line@),
{
    let t = trim(line);
    if ascii_ci_matches(t, "pause") {
        ConsoleInput::Command(ControlCommand::UserPause)
    } else if ascii_ci_matches(t, "resume") {
        ConsoleInput::Command(ControlCommand::UserResume)
    } else if ascii_ci_matches(t, "stop") || ascii_ci_matches(t, "quit") || ascii_ci_matches(
        t,
        "exit",
    ) {
        ConsoleInput::Command(ControlCommand::Stop)
    } else if t.unicode_len() == 0 {
        ConsoleInput::Blank
    } else {
        ConsoleInput::Unknown
    }
}

} // verus!
