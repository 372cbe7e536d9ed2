//! The settings, written out for the user to look at.

use vstd::prelude::*;

use crate::config::{fullscreen_policy_name, policy_name, Config, ConfigModel, TimeoutModel};
use crate::events::milliseconds;
use crate::number::{decimal, write_u64};
use crate::text::{join, opt_text, texts};

verus! {

/// A text as `{:?}` writes it: quoted, and escaped where it needs to be.
pub uninterp spec fn debug_text(text: Seq<char>) -> Seq<char>;

/// Writes a text with `{:?}`, which calls the `Debug` impl of `str`. The result depends on
/// the text alone. How a text is escaped is not stated.
#[verifier::external_body]
fn quote(text: &str) -> (r: String)
    ensures
        r@ == debug_text(text@),
{
    format!("{text:?}")
}

/// The seconds of a timeout. One that never fires has none.
pub open spec fn shown_seconds(timeout_ms: int) -> int {
    if timeout_ms < 0 {
        0
    } else {
        timeout_ms / 1000
    }
}

/// The line about a timeout, when its commands are written like this.
pub open spec fn timeout_text(seconds: int, idle: Seq<char>, resume: Option<Seq<char>>) -> Seq<
    char,
> {
    "timeout "@ + decimal(seconds as nat) + " "@ + idle + match resume {
        Some(resume) => " resume "@ + resume,
        None => seq![],
    }
}

/// The line about a timeout, when its commands are written like this.
pub fn timeout_line(seconds: u32, idle: &str, resume: Option<&str>) -> (r: String)
    ensures
        r@ == timeout_text(
            seconds as int,
            idle@,
            match resume {
                Some(resume) => Some(resume@),
                None => None,
            },
        ),
{
    let mut line = join("timeout ", write_u64(seconds as u64).as_str());
    line.append(" ");
    line.append(idle);
    if let Some(resume) = resume {
        line.append(" resume ");
        line.append(resume);
    }
    assert(resume is None ==> line@ + seq![] =~= line@);
    assert(resume is Some ==> line@ =~= "timeout "@ + decimal(seconds as nat) + " "@ + idle@ + (
    " resume "@ + resume->0@));
    line
}

/// The line about a command, when it is written like this.
pub open spec fn command_text(word: Seq<char>, command: Seq<char>) -> Seq<char> {
    word + " "@ + command
}

/// The line about a command, when it is written like this.
pub fn command_line(word: &str, command: &str) -> (r: String)
    ensures
        r@ == command_text(word@, command@),
{
    let mut line = join(word, " ");
    line.append(command);
    line
}

/// The lines about one timeout: none where it has no idle command.
pub open spec fn timeout_report(t: TimeoutModel) -> Seq<Seq<char>> {
    match t.idle_cmd {
        Some(idle) => seq![
            timeout_text(
                shown_seconds(t.timeout_ms),
                debug_text(idle),
                match t.resume_cmd {
                    Some(resume) => Some(debug_text(resume)),
                    None => None,
                },
            ),
        ],
        None => seq![],
    }
}

/// The lines about the first `n` timeouts.
pub open spec fn timeouts_report(timeouts: Seq<TimeoutModel>, n: nat) -> Seq<Seq<char>>
    decreases n,
{
    if n == 0 {
        seq![]
    } else {
        timeouts_report(timeouts, (n - 1) as nat) + timeout_report(timeouts[n - 1])
    }
}

/// The line about the command for an event, where there is one.
pub open spec fn command_report(word: Seq<char>, command: Option<Seq<char>>) -> Seq<Seq<char>> {
    match command {
        Some(command) => seq![command_text(word, debug_text(command))],
        None => seq![],
    }
}

/// The lines that say what `config` holds: the policy, the timeouts in order, and the
/// commands.
pub open spec fn report(config: ConfigModel) -> Seq<Seq<char>> {
    seq!["fullscreen-policy "@ + policy_name(config.fullscreen_policy)] + timeouts_report(
        config.timeouts,
        config.timeouts.len(),
    ) + command_report("before-sleep"@, config.before_sleep_cmd) + command_report(
        "after-resume"@,
        config.after_resume_cmd,
    ) + command_report("lock"@, config.lock_cmd) + command_report("unlock"@, config.unlock_cmd)
}

/// Adds the line about a command to `lines`, where there is one.
fn add_command(lines: &mut Vec<String>, word: &str, command: &Option<String>)
    ensures
        texts(final(lines)@) == texts(old(lines)@) + command_report(word@, opt_text(*command)),
{
    if let Some(command) = command {
        lines.push(command_line(word, quote(command.as_str()).as_str()));
    }
    assert(texts(lines@) =~= texts(old(lines)@) + command_report(word@, opt_text(*command)));
}

/// Writes out the settings, line by line.
pub fn print_events(config: &Config) -> (r: Vec<String>)
    ensures
        texts(r@) == report(config@),
{
    let mut lines: Vec<String> = Vec::new();
    lines.push(join("fullscreen-policy ", fullscreen_policy_name(config.fullscreen_policy)));
    let ghost first = texts(lines@);
    assert(first =~= seq!["fullscreen-policy "@ + policy_name(config.fullscreen_policy)]);
    let mut i: usize = 0;
    assert(first + timeouts_report(config@.timeouts, 0) =~= first);
    while i < config.timeouts.len()
        invariant
            i <= config.timeouts@.len(),
            texts(lines@) == first + timeouts_report(config@.timeouts, i as nat),
        decreases config.timeouts@.len() - i,
    {
        let ghost before = lines@;
        let timeout = &config.timeouts[i];
        assert(config@.timeouts[i as int] == timeout@);
        let seconds: u32 = if timeout.timeout_ms < 0 {
            0
        } else {
            (timeout.timeout_ms / 1000) as u32
        };
        if let Some(idle) = &timeout.idle_cmd {
            let quoted = quote(idle.as_str());
            let line = match &timeout.resume_cmd {
                Some(resume) => {
                    let after = quote(resume.as_str());
                    timeout_line(seconds, quoted.as_str(), Some(after.as_str()))
                },
                None => timeout_line(seconds, quoted.as_str(), None),
            };
            lines.push(line);
        }
        i += 1;
        assert(texts(lines@) =~= texts(before) + timeout_report(timeout@));
    }
    add_command(&mut lines, "before-sleep", &config.before_sleep_cmd);
    add_command(&mut lines, "after-resume", &config.after_resume_cmd);
    add_command(&mut lines, "lock", &config.lock_cmd);
    add_command(&mut lines, "unlock", &config.unlock_cmd);
    lines
}

/// The seconds that are shown for a timeout are those that it was read with.
pub proof fn law_seconds_are_shown_as_read(seconds: int)
    requires
        seconds >= 0,
    ensures
        shown_seconds(milliseconds(seconds)) == seconds,
{
}

} // verus!
