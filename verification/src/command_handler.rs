//! Command resolution and dispatch: a command name resolves to one
//! handler, constructed fresh per invocation, and each handler decides one
//! action from the argument list and the values read from the process
//! surroundings. Resolution never fails: an unknown name degrades to the
//! not-found handler. Carrying an action out — printing, terminating,
//! changing directory, spawning — is the caller's part.

use vstd::prelude::*;

use crate::parse::int_literal_val;
use crate::parse::is_int_literal;
use crate::parse::parse_i32;
use crate::report::command_not_found_line;
use crate::report::echo_line;
use crate::report::join_spaced;
use crate::report::not_found_report;
use crate::report::type_line;
use crate::report::type_report;
use crate::text::str_eq;

verus! {

/// One unit of behavior, bound to a resolved command: the five builtins,
/// an external command found on the search path, or the not-found
/// sentinel. Constructed per invocation, invoked once, discarded.
#[derive(Debug)]
pub enum Handler {
    Echo,
    Exit,
    Type,
    Pwd,
    ChangeDirectory,
    Executable { command: String },
    NotFound { command: String },
}

/// The plain values read from the process surroundings before a command's
/// decision is taken. The caller fills in what the command at hand needs;
/// the rest may stay `None`.
#[derive(Debug)]
pub struct Env {
    /// The full path a search of the path resolved for the name the
    /// command asks about, when one was searched for and found.
    pub search: Option<String>,
    /// The home directory variable's value, when it is set.
    pub home: Option<String>,
    /// The current working directory's display form, when the
    /// surroundings could report it.
    pub cwd: Option<String>,
}

/// What the shell must do for one command: print one line, terminate the
/// process with a code, change the working directory, spawn an external
/// process and wait for it, or abort on an unrecoverable condition.
#[derive(Debug)]
pub enum Action {
    Print { line: String },
    ExitProcess { code: i32 },
    ChangeDir { path: String },
    Spawn { command: String, args: Vec<String> },
    Abort,
}

/// Which handler a command name resolves to. `found` says whether a
/// search of the path turned the name up; it matters only for non-builtin
/// names.
pub open spec fn resolves_to(name: Seq<char>, found: bool, h: Handler) -> bool {
    if name == "echo"@ {
        h is Echo
    } else if name == "exit"@ {
        h is Exit
    } else if name == "type"@ {
        h is Type
    } else if name == "pwd"@ {
        h is Pwd
    } else if name == "cd"@ {
        h is ChangeDirectory
    } else if found {
        h matches Handler::Executable { command } && command@ == name
    } else {
        h matches Handler::NotFound { command } && command@ == name
    }
}

/// Resolves a command name to its handler, in priority order: the five
/// builtin names first, then an external command when the search path
/// holds the name, and the not-found sentinel otherwise. Never fails.
pub fn create_command_handler(command: &str, found: bool) -> (h: Handler)
    ensures
        resolves_to(command@, found, h),
{
    if str_eq(command, "echo") {
        Handler::Echo
    } else if str_eq(command, "exit") {
        Handler::Exit
    } else if str_eq(command, "type") {
        Handler::Type
    } else if str_eq(command, "pwd") {
        Handler::Pwd
    } else if str_eq(command, "cd") {
        Handler::ChangeDirectory
    } else if found {
        Handler::Executable { command: String::from_str(command) }
    } else {
        Handler::NotFound { command: String::from_str(command) }
    }
}

/// The decision each handler takes: which action follows from the
/// handler, the argument views, and the surroundings. `Abort` stands for
/// the unrecoverable conditions: a missing or malformed exit code, a
/// missing argument, a home directory asked for but unset, a working
/// directory the surroundings could not report.
pub open spec fn plan_spec(h: Handler, args: Seq<Seq<char>>, env: Env, r: Action) -> bool {
    match h {
        Handler::Echo => r matches Action::Print { line } && line@ == join_spaced(args),
        Handler::Exit => match r {
            Action::ExitProcess { code } => args.len() >= 1 && is_int_literal(args[0])
                && int_literal_val(args[0]) == code as int,
            Action::Abort => args.len() == 0 || !(is_int_literal(args[0]) && i32::MIN
                <= int_literal_val(args[0]) <= i32::MAX),
            _ => false,
        },
        Handler::Type => match r {
            Action::Print { line } => args.len() >= 1 && line@ == type_report(
                args[0],
                env.search.deep_view(),
            ),
            Action::Abort => args.len() == 0,
            _ => false,
        },
        Handler::Pwd => match r {
            Action::Print { line } => env.cwd matches Some(cwd) && line@ == cwd@,
            Action::Abort => env.cwd is None,
            _ => false,
        },
        Handler::ChangeDirectory => match r {
            Action::ChangeDir { path } => args.len() >= 1 && (if args[0] == "~"@ {
                env.home matches Some(home) && path@ == home@
            } else {
                path@ == args[0]
            }),
            Action::Abort => args.len() == 0 || (args[0] == "~"@ && env.home is None),
            _ => false,
        },
        Handler::Executable { command } => r matches Action::Spawn { command: c, args: a }
            && c@ == command@ && a.deep_view() == args,
        Handler::NotFound { command } => r matches Action::Print { line } && line@
            == not_found_report(command@),
    }
}

/// Takes the one decision of a handler's invocation. The caller then
/// carries the action out and, for a directory change or a spawn that the
/// surroundings refuse, reports with `cd_error_line` or
/// `command_not_found_line`.
pub fn plan(h: Handler, args: Vec<String>, env: Env) -> (r: Action)
    ensures
        plan_spec(h, args.deep_view(), env, r),
{
    match h {
        Handler::Echo => Action::Print { line: echo_line(&args) },
        Handler::Exit => {
            if args.len() == 0 {
                Action::Abort
            } else {
                proof {
                    assert(args.deep_view()[0] == args@[0]@);
                }
                match parse_i32(args[0].as_str()) {
                    Some(code) => Action::ExitProcess { code },
                    None => Action::Abort,
                }
            }
        },
        Handler::Type => {
            if args.len() == 0 {
                Action::Abort
            } else {
                proof {
                    assert(args.deep_view()[0] == args@[0]@);
                }
                Action::Print { line: type_line(args[0].as_str(), &env.search) }
            }
        },
        Handler::Pwd => {
            match env.cwd {
                Some(cwd) => Action::Print { line: cwd },
                None => Action::Abort,
            }
        },
        Handler::ChangeDirectory => {
            if args.len() == 0 {
                Action::Abort
            } else {
                proof {
                    assert(args.deep_view()[0] == args@[0]@);
                }
                if str_eq(args[0].as_str(), "~") {
                    match env.home {
                        Some(home) => Action::ChangeDir { path: home },
                        None => Action::Abort,
                    }
                } else {
                    Action::ChangeDir { path: args[0].clone() }
                }
            }
        },
        Handler::Executable { command } => Action::Spawn { command, args },
        Handler::NotFound { command } => Action::Print {
            line: command_not_found_line(command.as_str()),
        },
    }
}

} // verus!
