//! Running commands, and what is left behind when the daemon itself crashes.

use vstd::prelude::*;

use crate::app::{effects_of, Effect, EffectModel};
use crate::config_file::{below, path_below};
use crate::log::LogLevel;
use crate::text::{join, opt_text, texts};

verus! {

/// The program that runs a command, and its arguments: a shell that is given the command.
pub fn shell_command(command: &str) -> (r: Vec<String>)
    ensures
        texts(r@) == seq!["sh"@, "-c"@, command@],
{
    let mut words: Vec<String> = Vec::new();
    words.push("sh".to_string());
    words.push("-c".to_string());
    words.push(command.to_string());
    assert(texts(words@) =~= seq!["sh"@, "-c"@, command@]);
    words
}

/// The line that announces a command.
pub fn exec_command(command: &str, level: LogLevel) -> (r: Effect)
    ensures
        r@ == (EffectModel::Log {
            current: level,
            level: LogLevel::Debug,
            message: "exec: "@ + command@,
        }),
{
    Effect::Log { current: level, level: LogLevel::Debug, message: join("exec: ", command) }
}

/// What is to be done about a command that was to be started.
#[derive(Clone, Copy, Debug, PartialEq, Eq, Structural)]
pub enum ChildPlan {
    /// Nothing: it did not start.
    Nothing,
    /// Wait for its end, and log how it ended.
    AwaitAndLog,
    /// Leave it to the reaper.
    HandToReaper,
    /// Wait for its end.
    Await,
}

/// What is to be done about a command that failed to start with `error`, or started.
pub open spec fn child_plan(error: Option<Seq<char>>, wait: bool, reaper: bool) -> ChildPlan {
    if error is Some {
        ChildPlan::Nothing
    } else if wait {
        ChildPlan::AwaitAndLog
    } else if reaper {
        ChildPlan::HandToReaper
    } else {
        ChildPlan::Await
    }
}

/// Says what is to be done about a command that failed to start with `error`, or started,
/// when there is a reaper or not, and what is to be logged.
pub fn exec_started(error: &Option<String>, wait: bool, reaper: bool, level: LogLevel) -> (r: (
    Vec<Effect>,
    ChildPlan,
))
    ensures
        r.1 == child_plan(opt_text(*error), wait, reaper),
        effects_of(r.0@) == match opt_text(*error) {
            Some(error) => seq![
                EffectModel::Log {
                    current: level,
                    level: LogLevel::Error,
                    message: "failed to execute command: "@ + error,
                },
            ],
            None => seq![],
        },
{
    let mut effects: Vec<Effect> = Vec::new();
    let plan = if let Some(error) = error {
        effects.push(
            Effect::Log {
                current: level,
                level: LogLevel::Error,
                message: join("failed to execute command: ", error.as_str()),
            },
        );
        ChildPlan::Nothing
    } else if wait {
        ChildPlan::AwaitAndLog
    } else if reaper {
        ChildPlan::HandToReaper
    } else {
        ChildPlan::Await
    };
    assert(effects_of(effects@) =~= match opt_text(*error) {
        Some(error) => seq![
            EffectModel::Log {
                current: level,
                level: LogLevel::Error,
                message: "failed to execute command: "@ + error,
            },
        ],
        None => seq![],
    });
    (effects, plan)
}

/// The line about how a command ended, or why that is not known.
pub fn exec_ended(result: &Result<String, String>, level: LogLevel) -> (r: Effect)
    ensures
        r@ == match *result {
            Ok(status) => EffectModel::Log {
                current: level,
                level: LogLevel::Debug,
                message: "process exited: "@ + status@,
            },
            Err(error) => EffectModel::Log {
                current: level,
                level: LogLevel::Error,
                message: "failed to wait for command: "@ + error@,
            },
        },
{
    match result {
        Ok(status) => Effect::Log {
            current: level,
            level: LogLevel::Debug,
            message: join("process exited: ", status.as_str()),
        },
        Err(error) => Effect::Log {
            current: level,
            level: LogLevel::Error,
            message: join("failed to wait for command: ", error.as_str()),
        },
    }
}

/// The directory for the crash log, when the environment names this home directory.
pub open spec fn crash_directory(home: Option<Seq<char>>) -> Seq<char> {
    match home {
        Some(dir) => below(dir, ".local/share/dozed"@),
        None => "/tmp"@,
    }
}

/// The directory for the crash log, when the environment names this home directory.
pub fn crash_dir(home: &Option<String>) -> (r: String)
    ensures
        r@ == crash_directory(opt_text(*home)),
{
    match home {
        Some(dir) => path_below(dir.as_str(), ".local/share/dozed"),
        None => "/tmp".to_string(),
    }
}

/// The path of the crash log in the directory `dir`.
pub fn crash_log(dir: &str) -> (r: String)
    ensures
        r@ == below(dir@, "crash.log"@),
{
    path_below(dir, "crash.log")
}

/// The entry in the crash log about a panic.
pub fn crash_entry(timestamp: &str, message: &str, backtrace: &str) -> (r: String)
    ensures
        r@ == "["@ + timestamp@ + "] PANIC: "@ + message@ + "\n"@ + backtrace@ + "\n\n"@,
{
    let mut entry = join("[", timestamp);
    entry.append("] PANIC: ");
    entry.append(message);
    entry.append("\n");
    entry.append(backtrace);
    entry.append("\n\n");
    entry
}

/// A command that has started is always seen to its end by someone: by the daemon, which logs
/// how it ended, where commands are waited for, and otherwise by the reaper, or by the daemon
/// where there is none. One that has not started is not waited for.
pub proof fn law_started_command_is_seen_to(error: Seq<char>, wait: bool, reaper: bool)
    ensures
        child_plan(Some(error), wait, reaper) == ChildPlan::Nothing,
        child_plan(None, true, reaper) == ChildPlan::AwaitAndLog,
        child_plan(None, false, true) == ChildPlan::HandToReaper,
        child_plan(None, false, false) == ChildPlan::Await,
{
}

/// The crash log is in the home directory, where there is one.
pub proof fn law_crash_log_is_at_home(home: Seq<char>)
    ensures
        home.len() > 0 && home.last() != '/' ==> crash_directory(Some(home)) == home
            + "/.local/share/dozed"@,
        crash_directory(None) == "/tmp"@,
{
    reveal_strlit("/");
    reveal_strlit(".local/share/dozed");
    reveal_strlit("/.local/share/dozed");
    assert("/"@ + ".local/share/dozed"@ =~= "/.local/share/dozed"@);
    assert(home + "/"@ + ".local/share/dozed"@ =~= home + ("/"@ + ".local/share/dozed"@));
}

} // verus!
