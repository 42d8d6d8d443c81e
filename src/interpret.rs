use vstd::prelude::*;

use crate::text::same_text;

verus! {

/// The verdict of the interpretation service on one turn.
#[derive(Debug, PartialEq, Eq, Structural, Clone, Copy)]
pub enum Command {
    Wait,
    Finish,
    Pause,
    Operator,
    Noop,
}

/// The command that the text `s` names; any text but the four known names
/// is `Noop`.
pub open spec fn command_of(s: Seq<char>) -> Command {
    if s == "Wait"@ {
        Command::Wait
    } else if s == "Finish"@ {
        Command::Finish
    } else if s == "Pause"@ {
        Command::Pause
    } else if s == "Operator"@ {
        Command::Operator
    } else {
        Command::Noop
    }
}

impl<'a> From<&'a str> for Command {
    fn from(value: &'a str) -> (r: Command) {
        if same_text(value, "Wait") {
            Command::Wait
        } else if same_text(value, "Finish") {
            Command::Finish
        } else if same_text(value, "Pause") {
            Command::Pause
        } else if same_text(value, "Operator") {
            Command::Operator
        } else {
            Command::Noop
        }
    }
}

impl<'a> vstd::std_specs::convert::FromSpecImpl<&'a str> for Command {
    open spec fn obeys_from_spec() -> bool {
        true
    }

    open spec fn from_spec(v: &'a str) -> Command {
        command_of(v@)
    }
}

} // verus!
