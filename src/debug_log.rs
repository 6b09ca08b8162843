use vstd::prelude::*;
use vstd::string::StringExecFns;

verus! {

/// The severity of one message.
#[derive(Copy, Clone, Debug, PartialEq, Eq, Structural)]
pub enum LogState {
    Error,
    Warning,
    Debug,
    Verbose,
}

/// The level chosen by the user: which severities are shown.
#[derive(Copy, Clone, Debug, PartialEq, Eq, Structural)]
pub enum LogLevel {
    Error,
    Warning,
    Debug,
    Verbose,
}

/// Whether a message of severity `state` is shown at level `level`:
/// errors always, warnings unless only errors are asked for, debug
/// messages at the debug and verbose levels, verbose ones at the verbose level.
pub open spec fn shown_at(state: LogState, level: LogLevel) -> bool {
    match state {
        LogState::Error => true,
        LogState::Warning => level != LogLevel::Error,
        LogState::Debug => level == LogLevel::Debug || level == LogLevel::Verbose,
        LogState::Verbose => level == LogLevel::Verbose,
    }
}

/// The label that stands before a message of the given severity.
pub open spec fn label_of(state: LogState) -> Seq<char> {
    match state {
        LogState::Error => "Error: "@,
        LogState::Warning => "Warning: "@,
        LogState::Debug => "Debug: "@,
        LogState::Verbose => "Verbose: "@,
    }
}

/// The line to print for `msg` of severity `state` at level `level`, or
/// `None` where the level hides it.
pub fn log(msg: &str, state: LogState, level: LogLevel) -> (r: Option<String>)
    ensures
        r is Some <==> shown_at(state, level),
        r is Some ==> r->0@ == label_of(state) + msg@,
{
    let shown = match state {
        LogState::Error => true,
        LogState::Warning => level != LogLevel::Error,
        LogState::Debug => level == LogLevel::Debug || level == LogLevel::Verbose,
        LogState::Verbose => level == LogLevel::Verbose,
    };
    if !shown {
        return None;
    }
    let label = match state {
        LogState::Error => "Error: ",
        LogState::Warning => "Warning: ",
        LogState::Debug => "Debug: ",
        LogState::Verbose => "Verbose: ",
    };
    let mut line = String::from_str(label);
    line.append(msg);
    Some(line)
}

} // verus!
