//! Command surface: parsing one line of shell input into a command, and
//! the checks behind `start` — whether a program can be started and with
//! what starter. Stop, restart and status stand on the supervisor directly.

use vstd::prelude::*;
use crate::registry::reg_contains;
use crate::registry::reg_lookup;
use crate::starter::Starter;
use crate::starter::spec_starter_init;
use crate::strutil::spec_split_ws;
use crate::strutil::split_ws;
use crate::strutil::str_eq;
use crate::supervisor::Supervisor;
use crate::table::table_contains;

verus! {

/// The verbs that need a program name.
#[derive(Clone, Copy, Debug, PartialEq, Eq, Structural)]
pub enum VerbKind {
    Start,
    Stop,
    Restart,
}

/// One parsed line of shell input.
#[derive(Debug)]
pub enum Command {
    /// Blank input: ignored.
    Empty,
    /// `exit` or `quit`.
    Exit,
    /// `status`.
    Status,
    /// `start <name>`.
    Start { name: String },
    /// `stop <name>`.
    Stop { name: String },
    /// `restart <name>`.
    Restart { name: String },
    /// A verb that needs a name came without one.
    MissingArg { verb: VerbKind },
    /// Anything else.
    Unknown,
}

/// Mathematical image of a `Command`.
#[verifier::ext_equal]
pub enum CommandView {
    Empty,
    Exit,
    Status,
    Start { name: Seq<char> },
    Stop { name: Seq<char> },
    Restart { name: Seq<char> },
    MissingArg { verb: VerbKind },
    Unknown,
}

impl View for Command {
    type V = CommandView;

    open spec fn view(&self) -> CommandView {
        match self {
            Command::Empty => CommandView::Empty,
            Command::Exit => CommandView::Exit,
            Command::Status => CommandView::Status,
            Command::Start { name } => CommandView::Start { name: name@ },
            Command::Stop { name } => CommandView::Stop { name: name@ },
            Command::Restart { name } => CommandView::Restart { name: name@ },
            Command::MissingArg { verb } => CommandView::MissingArg { verb: *verb },
            Command::Unknown => CommandView::Unknown,
        }
    }
}

/// What one line of input means: the first whitespace token is the verb,
/// the second, where required, the program name; more tokens are ignored.
pub open spec fn spec_parse_command(line: Seq<char>) -> CommandView {
    let toks = spec_split_ws(line);
    if toks.len() == 0 {
        CommandView::Empty
    } else if toks[0] == "exit"@ || toks[0] == "quit"@ {
        CommandView::Exit
    } else if toks[0] == "status"@ {
        CommandView::Status
    } else if toks[0] == "start"@ {
        if toks.len() < 2 {
            CommandView::MissingArg { verb: VerbKind::Start }
        } else {
            CommandView::Start { name: toks[1] }
        }
    } else if toks[0] == "stop"@ {
        if toks.len() < 2 {
            CommandView::MissingArg { verb: VerbKind::Stop }
        } else {
            CommandView::Stop { name: toks[1] }
        }
    } else if toks[0] == "restart"@ {
        if toks.len() < 2 {
            CommandView::MissingArg { verb: VerbKind::Restart }
        } else {
            CommandView::Restart { name: toks[1] }
        }
    } else {
        CommandView::Unknown
    }
}

/// Parses one line of shell input.
pub fn parse_command(line: &str) -> (cmd: Command)
    ensures
        cmd@ == spec_parse_command(line@),
{
    let tokens = split_ws(line);
    if tokens.len() == 0 {
        return Command::Empty;
    }
    let verb = &tokens[0];
    proof {
        assert(verb@ == spec_split_ws(line@)[0]);
    }
    if str_eq(verb.as_str(), "exit") || str_eq(verb.as_str(), "quit") {
        Command::Exit
    } else if str_eq(verb.as_str(), "status") {
        Command::Status
    } else if str_eq(verb.as_str(), "start") {
        if tokens.len() < 2 {
            Command::MissingArg { verb: VerbKind::Start }
        } else {
            Command::Start { name: tokens[1].clone() }
        }
    } else if str_eq(verb.as_str(), "stop") {
        if tokens.len() < 2 {
            Command::MissingArg { verb: VerbKind::Stop }
        } else {
            Command::Stop { name: tokens[1].clone() }
        }
    } else if str_eq(verb.as_str(), "restart") {
        if tokens.len() < 2 {
            Command::MissingArg { verb: VerbKind::Restart }
        } else {
            Command::Restart { name: tokens[1].clone() }
        }
    } else {
        Command::Unknown
    }
}

/// The answer to `start <name>`.
#[derive(Debug)]
pub enum StartCheck {
    /// The table already lists the name.
    AlreadyRunning,
    /// The registry does not know the name.
    NotFound,
    /// The program may start: the starter to run.
    Ready { starter: Starter },
}

impl Supervisor {
    /// The check behind `start <name>`: refused while the name has an
    /// entry, unknown names are reported, and otherwise the fresh starter
    /// for the installed definition is handed out. The caller runs it and
    /// installs the result.
    pub fn start_command(&self, name: &str) -> (r: StartCheck)
        requires
            self.wf(),
        ensures
            table_contains(self.table@, name@) ==> r is AlreadyRunning,
            !table_contains(self.table@, name@) && !reg_contains(self.registry@, name@) ==> r
                is NotFound,
            !table_contains(self.table@, name@) && reg_contains(self.registry@, name@) ==> (
            r matches StartCheck::Ready { starter } && starter@ == spec_starter_init(
                name@,
                reg_lookup(self.registry@, name@),
            ) && starter.wf()),
    {
        if self.table.contains_name(name) {
            return StartCheck::AlreadyRunning;
        }
        match self.registry.get(name) {
            Some(def) => {
                let owned = name.to_owned();
                StartCheck::Ready { starter: Starter::new(&owned, def) }
            },
            None => StartCheck::NotFound,
        }
    }
}

} // verus!
