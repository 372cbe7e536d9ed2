//! What is printed of the settings can be read again, where `{:?}` changes nothing in a
//! command but the double quotes and the backslashes.

use vstd::prelude::*;

use crate::args::{args_in_range, command_line, law_command_line_is_sound};
use crate::config::{empty_config, ConfigModel, FullscreenPolicy, TimeoutModel};
use crate::events::{
    command_event, directive_fits, events_in_range, milliseconds, read_directive, read_events,
    timeout_as_read, with_directive, Directive, Reading,
};
use crate::number::{decimal, law_decimal_reads_back, law_signed_decimal_reads_back};
use crate::report::{
    command_report, command_text, debug_text, report, shown_seconds, timeout_report, timeout_text,
    timeouts_report,
};
use crate::words::{
    bare, law_bare_word_is_read_back, law_guarded_text_is_read_back, lemma_blank_ends_a_word,
    line_words, quoted, split,
};

verus! {

/// The words of the line about a timeout.
pub open spec fn timeout_words(seconds: int, idle: Seq<char>, resume: Option<Seq<char>>) -> Seq<
    Seq<char>,
> {
    seq!["timeout"@, decimal(seconds as nat), idle] + match resume {
        Some(resume) => seq!["resume"@, resume],
        None => seq![],
    }
}

/// A quoted text at the end of a line is the last word of it.
proof fn lemma_quoted_word_at_the_end(text: Seq<char>)
    requires
        text.len() > 0,
    ensures
        line_words(quoted(text)) == Ok::<Seq<Seq<char>>, char>(seq![text]),
{
    law_guarded_text_is_read_back(text, seq![]);
    assert(quoted(text) + Seq::<char>::empty() == quoted(text));
    assert(split(seq![], text, None) == Ok::<Seq<Seq<char>>, char>(seq![text]));
}

/// The idle command of a timeout, and behind it the resume command, where there is one.
proof fn lemma_commands_of_a_timeout(idle: Seq<char>, resume: Option<Seq<char>>)
    requires
        idle.len() > 0,
        resume is Some ==> resume->0.len() > 0,
    ensures
        line_words(
            quoted(idle) + match resume {
                Some(resume) => " resume "@ + quoted(resume),
                None => seq![],
            },
        ) == Ok::<Seq<Seq<char>>, char>(
            seq![idle] + match resume {
                Some(resume) => seq!["resume"@, resume],
                None => seq![],
            },
        ),
{
    match resume {
        Some(resume) => {
            reveal_strlit("resume");
            reveal_strlit(" resume ");
            let last = quoted(resume);
            let rest = "resume"@ + seq![' '] + last;
            assert(" resume "@ + last =~= seq![' '] + rest);
            lemma_quoted_word_at_the_end(resume);
            law_bare_word_is_read_back("resume"@, last);
            lemma_blank_ends_a_word(idle, rest);
            law_guarded_text_is_read_back(idle, seq![' '] + rest);
            assert(seq!["resume"@] + seq![resume] =~= seq!["resume"@, resume]);
        },
        None => {
            lemma_quoted_word_at_the_end(idle);
            assert(quoted(idle) + Seq::<char>::empty() =~= quoted(idle));
            assert(seq![idle] + Seq::<Seq<char>>::empty() =~= seq![idle]);
        },
    }
}

/// The line about a timeout, with its commands between double quotes, is split into its
/// words again.
proof fn lemma_timeout_line_is_split(seconds: int, idle: Seq<char>, resume: Option<Seq<char>>)
    requires
        0 <= seconds,
        idle.len() > 0,
        resume is Some ==> resume->0.len() > 0,
    ensures
        line_words(
            timeout_text(
                seconds,
                quoted(idle),
                match resume {
                    Some(resume) => Some(quoted(resume)),
                    None => None,
                },
            ),
        ) == Ok::<Seq<Seq<char>>, char>(timeout_words(seconds, idle, resume)),
{
    reveal_strlit("timeout");
    reveal_strlit("timeout ");
    reveal_strlit(" ");
    let digits = decimal(seconds as nat);
    law_decimal_reads_back(seconds as nat);
    let commands = quoted(idle) + match resume {
        Some(resume) => " resume "@ + quoted(resume),
        None => seq![],
    };
    lemma_commands_of_a_timeout(idle, resume);
    let rest = digits + seq![' '] + commands;
    assert(bare(digits));
    law_bare_word_is_read_back(digits, commands);
    assert(bare("timeout"@));
    law_bare_word_is_read_back("timeout"@, rest);
    let written = match resume {
        Some(resume) => Some(quoted(resume)),
        None => None,
    };
    assert(timeout_text(seconds, quoted(idle), written) =~= "timeout"@ + seq![' '] + rest);
    let tail = seq![idle] + match resume {
        Some(resume) => seq!["resume"@, resume],
        None => seq![],
    };
    assert(seq!["timeout"@] + (seq![digits] + tail) =~= timeout_words(seconds, idle, resume));
}

/// The line about a timeout, with its commands between double quotes and a backslash in
/// front of each double quote and of each backslash in them, is split and read into the
/// same timeout.
pub proof fn law_timeout_line_is_read_back(
    config: ConfigModel,
    seconds: int,
    idle: Seq<char>,
    resume: Option<Seq<char>>,
)
    requires
        0 <= seconds,
        seconds * 1000 <= i32::MAX,
        idle.len() > 0,
        resume is Some ==> resume->0.len() > 0,
    ensures
        line_words(
            timeout_text(
                seconds,
                quoted(idle),
                match resume {
                    Some(resume) => Some(quoted(resume)),
                    None => None,
                },
            ),
        ) == Ok::<Seq<Seq<char>>, char>(timeout_words(seconds, idle, resume)),
        events_in_range(timeout_words(seconds, idle, resume)),
        read_events(config, timeout_words(seconds, idle, resume)) == (Reading {
            config: with_directive(config, Directive::Timeout { seconds, idle, resume }),
            error: None,
        }),
{
    lemma_timeout_line_is_split(seconds, idle, resume);
    law_signed_decimal_reads_back(seconds);
    let words = timeout_words(seconds, idle, resume);
    let directive = Directive::Timeout { seconds, idle, resume };
    assert(words[0] == "timeout"@);
    assert(words[1] == decimal(seconds as nat));
    assert(words[2] == idle);
    if let Some(resume) = resume {
        assert(words[3] == "resume"@);
        assert(words[4] == resume);
    }
    assert(read_directive(words) == Ok::<(Directive, int), Seq<char>>(
        (directive, words.len() as int),
    ));
    lemma_one_event(config, words, directive);
}

/// Words that are one event.
proof fn lemma_one_event(config: ConfigModel, words: Seq<Seq<char>>, directive: Directive)
    requires
        words.len() > 0,
        read_directive(words) == Ok::<(Directive, int), Seq<char>>(
            (directive, words.len() as int),
        ),
    ensures
        read_events(config, words) == (Reading {
            config: with_directive(config, directive),
            error: None,
        }),
        events_in_range(words) == directive_fits(directive),
{
    let none = words.skip(words.len() as int);
    assert(none.len() == 0);
    assert(events_in_range(none));
    assert(read_events(with_directive(config, directive), none).error is None);
}

/// The line about the command for an event, with the command between double quotes and a
/// backslash in front of each double quote and of each backslash in it, is split and read
/// into the same command for the same event.
pub proof fn law_command_line_is_read_back(
    config: ConfigModel,
    word: Seq<char>,
    command: Seq<char>,
)
    requires
        command_event(word, command) is Some,
        command.len() > 0,
    ensures
        line_words(command_text(word, quoted(command))) == Ok::<Seq<Seq<char>>, char>(
            seq![word, command],
        ),
        events_in_range(seq![word, command]),
        read_events(config, seq![word, command]) == (Reading {
            config: with_directive(config, command_event(word, command)->0),
            error: None,
        }),
{
    reveal_strlit(" ");
    reveal_strlit("timeout");
    reveal_strlit("before-sleep");
    reveal_strlit("after-resume");
    reveal_strlit("lock");
    reveal_strlit("unlock");
    assert(bare(word) && word.len() > 0);
    assert("timeout"@[0] == 't');
    assert(word[0] != 't');
    lemma_quoted_word_at_the_end(command);
    law_bare_word_is_read_back(word, quoted(command));
    assert(command_text(word, quoted(command)) =~= word + seq![' '] + quoted(command));
    let words = seq![word, command];
    assert(seq![word] + seq![command] =~= words);
    lemma_one_event(config, words, command_event(word, command)->0);
}

/// What lines make of `config`, when each is split into words and these are read as events.
/// There is nothing where a line cannot be split or read, or a timeout is out of range.
pub open spec fn read_again(config: ConfigModel, lines: Seq<Seq<char>>) -> Option<ConfigModel>
    decreases lines.len(),
{
    if lines.len() == 0 {
        Some(config)
    } else {
        match (read_again(config, lines.drop_last()), line_words(lines.last())) {
            (Some(earlier), Ok(words)) => if events_in_range(words) && read_events(
                earlier,
                words,
            ).error is None {
                Some(read_events(earlier, words).config)
            } else {
                None
            },
            _ => None,
        }
    }
}

/// Whether `p` holds of every command in `config`.
pub open spec fn every_command(config: ConfigModel, p: spec_fn(Seq<char>) -> bool) -> bool {
    &&& forall|i: int|
        0 <= i < config.timeouts.len() ==> {
            &&& (#[trigger] config.timeouts[i]).idle_cmd is Some ==> p(
                config.timeouts[i].idle_cmd->0,
            )
            &&& config.timeouts[i].resume_cmd is Some ==> p(config.timeouts[i].resume_cmd->0)
        }
    &&& config.before_sleep_cmd is Some ==> p(config.before_sleep_cmd->0)
    &&& config.after_resume_cmd is Some ==> p(config.after_resume_cmd->0)
    &&& config.lock_cmd is Some ==> p(config.lock_cmd->0)
    &&& config.unlock_cmd is Some ==> p(config.unlock_cmd->0)
}

/// One more line that is read.
proof fn lemma_one_more_line(
    config: ConfigModel,
    lines: Seq<Seq<char>>,
    line: Seq<char>,
    words: Seq<Seq<char>>,
    earlier: ConfigModel,
    after: ConfigModel,
)
    requires
        read_again(config, lines) == Some(earlier),
        line_words(line) == Ok::<Seq<Seq<char>>, char>(words),
        events_in_range(words),
        read_events(earlier, words) == (Reading { config: after, error: None }),
    ensures
        read_again(config, lines + seq![line]) == Some(after),
{
    let all = lines + seq![line];
    assert(all.drop_last() == lines);
    assert(all.last() == line);
}

/// The lines about timeouts are read into these timeouts.
proof fn lemma_timeouts_are_read_again(timeouts: Seq<TimeoutModel>, n: nat)
    requires
        n <= timeouts.len(),
        forall|i: int| 0 <= i < timeouts.len() ==> timeout_as_read(#[trigger] timeouts[i]),
        forall|i: int|
            0 <= i < timeouts.len() ==> {
                &&& (#[trigger] timeouts[i]).idle_cmd->0.len() > 0
                &&& debug_text(timeouts[i].idle_cmd->0) == quoted(timeouts[i].idle_cmd->0)
                &&& timeouts[i].resume_cmd is Some ==> timeouts[i].resume_cmd->0.len() > 0
                    && debug_text(timeouts[i].resume_cmd->0) == quoted(timeouts[i].resume_cmd->0)
            },
    ensures
        read_again(empty_config(), timeouts_report(timeouts, n)) == Some(
            ConfigModel { timeouts: timeouts.take(n as int), ..empty_config() },
        ),
    decreases n,
{
    if n == 0 {
        assert(timeouts.take(0) =~= seq![]);
    } else {
        let m = (n - 1) as nat;
        lemma_timeouts_are_read_again(timeouts, m);
        let t = timeouts[n - 1];
        assert(timeout_as_read(t));
        let seconds = shown_seconds(t.timeout_ms);
        assert(milliseconds(seconds) == t.timeout_ms);
        let idle = t.idle_cmd->0;
        let earlier = ConfigModel { timeouts: timeouts.take(m as int), ..empty_config() };
        law_timeout_line_is_read_back(earlier, seconds, idle, t.resume_cmd);
        let line = timeout_report(t)[0];
        let after = ConfigModel { timeouts: timeouts.take(n as int), ..empty_config() };
        assert(after.timeouts =~= earlier.timeouts.push(t));
        lemma_one_more_line(
            empty_config(),
            timeouts_report(timeouts, m),
            line,
            timeout_words(seconds, idle, t.resume_cmd),
            earlier,
            after,
        );
        assert(timeout_report(t) =~= seq![line]);
    }
}

/// The line about a command, where there is one, is read into this command.
proof fn lemma_command_is_read_again(
    lines: Seq<Seq<char>>,
    word: Seq<char>,
    command: Option<Seq<char>>,
    earlier: ConfigModel,
)
    requires
        read_again(empty_config(), lines) == Some(earlier),
        command is Some ==> {
            &&& command_event(word, command->0) is Some
            &&& command->0.len() > 0
            &&& debug_text(command->0) == quoted(command->0)
        },
    ensures
        read_again(empty_config(), lines + command_report(word, command)) == Some(
            match command {
                Some(command) => with_directive(earlier, command_event(word, command)->0),
                None => earlier,
            },
        ),
{
    match command {
        Some(command) => {
            law_command_line_is_read_back(earlier, word, command);
            lemma_one_more_line(
                empty_config(),
                lines,
                command_text(word, quoted(command)),
                seq![word, command],
                earlier,
                with_directive(earlier, command_event(word, command)->0),
            );
        },
        None => {
            assert(lines + command_report(word, command) =~= lines);
        },
    }
}

/// The settings that a report is read into: the timeouts and the commands, and nothing else.
pub open spec fn events_of(config: ConfigModel) -> ConfigModel {
    ConfigModel {
        timeouts: config.timeouts,
        before_sleep_cmd: config.before_sleep_cmd,
        after_resume_cmd: config.after_resume_cmd,
        lock_cmd: config.lock_cmd,
        unlock_cmd: config.unlock_cmd,
        ..empty_config()
    }
}

/// A report is read back: behind its first line, which is about the policy, each line is
/// split and read without an error, and all of them together make up the same timeouts and
/// the same commands.
///
/// That is so where `{:?}` writes the commands between double quotes, with a backslash in
/// front of each double quote and of each backslash, and changes nothing else in them.
pub proof fn law_report_is_read_back(config: ConfigModel)
    requires
        forall|i: int|
            0 <= i < config.timeouts.len() ==> timeout_as_read(#[trigger] config.timeouts[i]),
        every_command(config, |command: Seq<char>| command.len() > 0),
    ensures
        every_command(config, |command: Seq<char>| debug_text(command) == quoted(command))
            ==> read_again(empty_config(), report(config).skip(1)) == Some(events_of(config)),
{
    let filled = |command: Seq<char>| command.len() > 0;
    let plain = |command: Seq<char>| debug_text(command) == quoted(command);
    if every_command(config, plain) {
        reveal_strlit("before-sleep");
        reveal_strlit("after-resume");
        reveal_strlit("lock");
        reveal_strlit("unlock");
        let n = config.timeouts.len();
        assert forall|i: int| 0 <= i < n implies {
            &&& (#[trigger] config.timeouts[i]).idle_cmd->0.len() > 0
            &&& debug_text(config.timeouts[i].idle_cmd->0) == quoted(
                config.timeouts[i].idle_cmd->0,
            )
            &&& config.timeouts[i].resume_cmd is Some ==> config.timeouts[i].resume_cmd->0.len()
                > 0 && debug_text(config.timeouts[i].resume_cmd->0) == quoted(
                config.timeouts[i].resume_cmd->0,
            )
        } by {
            let t = config.timeouts[i];
            assert(timeout_as_read(t));
            assert(filled(t.idle_cmd->0) && plain(t.idle_cmd->0));
            assert(t.resume_cmd is Some ==> filled(t.resume_cmd->0) && plain(t.resume_cmd->0));
        }
        lemma_timeouts_are_read_again(config.timeouts, n);
        assert(config.timeouts.take(n as int) =~= config.timeouts);
        let lines = timeouts_report(config.timeouts, n);
        let read = ConfigModel { timeouts: config.timeouts, ..empty_config() };
        lemma_command_is_read_again(lines, "before-sleep"@, config.before_sleep_cmd, read);
        let lines = lines + command_report("before-sleep"@, config.before_sleep_cmd);
        let read = ConfigModel { before_sleep_cmd: config.before_sleep_cmd, ..read };
        assert("after-resume"@[0] != "before-sleep"@[0]);
        lemma_command_is_read_again(lines, "after-resume"@, config.after_resume_cmd, read);
        let lines = lines + command_report("after-resume"@, config.after_resume_cmd);
        let read = ConfigModel { after_resume_cmd: config.after_resume_cmd, ..read };
        assert("lock"@.len() != "unlock"@.len());
        lemma_command_is_read_again(lines, "lock"@, config.lock_cmd, read);
        let lines = lines + command_report("lock"@, config.lock_cmd);
        let read = ConfigModel { lock_cmd: config.lock_cmd, ..read };
        lemma_command_is_read_again(lines, "unlock"@, config.unlock_cmd, read);
        let lines = lines + command_report("unlock"@, config.unlock_cmd);
        assert(report(config).skip(1) =~= lines);
    }
}

/// What is printed of the settings of a command line is read back into the same timeouts and
/// the same commands, as [`law_report_is_read_back`] says.
pub proof fn law_printed_command_line_is_read_back(argv: Seq<Seq<char>>)
    requires
        args_in_range(argv),
    ensures
        match command_line(argv) {
            Ok(config) => every_command(config, |command: Seq<char>| command.len() > 0)
                && every_command(
                config,
                |command: Seq<char>| debug_text(command) == quoted(command),
            ) ==> read_again(empty_config(), report(config).skip(1)) == Some(events_of(config)),
            Err(_) => true,
        },
{
    law_command_line_is_sound(argv);
    if let Ok(config) = command_line(argv) {
        if every_command(config, |command: Seq<char>| command.len() > 0) {
            law_report_is_read_back(config);
        }
    }
}

/// The line about a hook, where it has a command.
pub open spec fn hook_line(word: Seq<char>, command: Option<Seq<char>>) -> Seq<Seq<char>> {
    match command {
        Some(command) => seq![word + seq![' '] + debug_text(command)],
        None => seq![],
    }
}

/// The settings without any command but those of the timeouts.
pub open spec fn without_hooks(config: ConfigModel) -> ConfigModel {
    ConfigModel {
        before_sleep_cmd: None,
        after_resume_cmd: None,
        lock_cmd: None,
        unlock_cmd: None,
        ..config
    }
}

proof fn lemma_report_of_front(ts: Seq<TimeoutModel>, t: TimeoutModel, n: nat)
    requires
        n <= ts.len(),
    ensures
        timeouts_report(ts.push(t), n) == timeouts_report(ts, n),
    decreases n,
{
    if n > 0 {
        lemma_report_of_front(ts, t, (n - 1) as nat);
        assert(ts.push(t)[n - 1] == ts[n - 1]);
    }
}

/// A report begins with the policy. Behind it each timeout has its line, in order: one more
/// timeout adds one more line, with its whole seconds, or none where it never fires, and its
/// commands as `{:?}` writes them; one without an idle command adds nothing. Behind the
/// timeouts each other command has its line. Nothing else in the settings makes a difference.
pub proof fn law_report_says_everything_in_order(
    config: ConfigModel,
    t: TimeoutModel,
    idle: Seq<char>,
    resume: Seq<char>,
)
    ensures
        report(config) == report(without_hooks(config)) + hook_line(
            "before-sleep"@,
            config.before_sleep_cmd,
        ) + hook_line("after-resume"@, config.after_resume_cmd) + hook_line(
            "lock"@,
            config.lock_cmd,
        ) + hook_line("unlock"@, config.unlock_cmd),
        config.timeouts.len() == 0 ==> report(without_hooks(config)) == seq![
            if config.fullscreen_policy == FullscreenPolicy::Suppress {
                "fullscreen-policy "@ + "suppress"@
            } else {
                "fullscreen-policy "@ + "ignore"@
            },
        ],
        ({
            let before = without_hooks(config);
            let after = ConfigModel { timeouts: config.timeouts.push(t), ..before };
            let seconds = if t.timeout_ms < 0 {
                0
            } else {
                t.timeout_ms / 1000
            };
            let start = "timeout "@ + decimal(seconds as nat) + seq![' '] + debug_text(idle);
            &&& t.idle_cmd is None ==> report(after) == report(before)
            &&& t.idle_cmd == Some(idle) && t.resume_cmd is None ==> report(after) == report(
                before,
            ).push(start)
            &&& t.idle_cmd == Some(idle) && t.resume_cmd == Some(resume) ==> report(after)
                == report(before).push(start + " resume "@ + debug_text(resume))
        }),
{
    reveal_strlit(" ");
    assert(" "@ =~= seq![' ']);
    let before = without_hooks(config);
    let after = ConfigModel { timeouts: config.timeouts.push(t), ..before };
    let n = config.timeouts.len();
    lemma_report_of_front(config.timeouts, t, n);
    assert(after.timeouts[n as int] == t);
    let first = report(before).take(1);
    assert(report(before) =~= first + timeouts_report(config.timeouts, n));
    assert(report(config) =~= report(before) + hook_line(
        "before-sleep"@,
        config.before_sleep_cmd,
    ) + hook_line("after-resume"@, config.after_resume_cmd) + hook_line("lock"@, config.lock_cmd)
        + hook_line("unlock"@, config.unlock_cmd));
    assert(report(after) =~= first + timeouts_report(after.timeouts, n + 1));
    assert(report(after) =~= report(before) + timeout_report(t));
    if n == 0 {
        assert(report(before) =~= first);
    }
    if t.idle_cmd is None {
        assert(report(after) =~= report(before));
    } else if t.idle_cmd == Some(idle) {
        let seconds = if t.timeout_ms < 0 {
            0
        } else {
            t.timeout_ms / 1000
        };
        let start = "timeout "@ + decimal(seconds as nat) + seq![' '] + debug_text(idle);
        if t.resume_cmd is None {
            assert(timeout_report(t)[0] =~= start);
            assert(report(after) =~= report(before).push(start));
        } else if t.resume_cmd == Some(resume) {
            assert(timeout_report(t)[0] =~= start + " resume "@ + debug_text(resume));
            assert(report(after) =~= report(before).push(
                start + " resume "@ + debug_text(resume),
            ));
        }
    }
}

} // verus!
