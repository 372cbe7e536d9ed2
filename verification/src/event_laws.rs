//! What each event and each option says, wherever it stands.

use vstd::prelude::*;

use crate::args::{args_in_range, command_line, scan, Scan};
use crate::config::{ConfigModel, FullscreenPolicy, TimeoutModel};
use crate::events::{events_in_range, read_directive, read_events, Reading};
use crate::number::spelled_i32;

verus! {

/// The words that begin events differ.
proof fn lemma_event_words_differ()
    ensures
        "timeout"@ != "before-sleep"@,
        "timeout"@ != "after-resume"@,
        "timeout"@ != "lock"@,
        "timeout"@ != "unlock"@,
        "before-sleep"@ != "after-resume"@,
        "before-sleep"@ != "lock"@,
        "before-sleep"@ != "unlock"@,
        "after-resume"@ != "lock"@,
        "after-resume"@ != "unlock"@,
        "lock"@ != "unlock"@,
{
    reveal_strlit("timeout");
    reveal_strlit("before-sleep");
    reveal_strlit("after-resume");
    reveal_strlit("lock");
    reveal_strlit("unlock");
    assert("timeout"@[0] == 't');
    assert("before-sleep"@[0] == 'b');
    assert("after-resume"@[0] == 'a');
    assert("lock"@[0] == 'l');
    assert("unlock"@[0] == 'u');
}

/// Where nothing is said, nothing changes.
pub proof fn law_no_events(config: ConfigModel)
    ensures
        read_events(config, seq![]) == (Reading { config, error: None }),
        events_in_range(seq![]),
{
}

/// A timeout that is read: so many seconds, or never where there are none, and two commands.
pub open spec fn read_timeout(n: int, idle: Seq<char>, resume: Option<Seq<char>>) -> TimeoutModel {
    TimeoutModel {
        timeout_ms: if n > 0 {
            n * 1000
        } else {
            -1
        },
        registered_timeout_ms: -1,
        idle_cmd: Some(idle),
        resume_cmd: resume,
        resume_pending: false,
        suppressed_by_fullscreen: false,
        notification: None,
    }
}

/// A timeout is added behind those that there are, with its seconds and its command, and what
/// follows is read as if it stood alone. A word `resume` with a command behind it gives the
/// timeout that command too.
pub proof fn law_timeout_is_added(
    config: ConfigModel,
    number: Seq<char>,
    n: int,
    idle: Seq<char>,
    resume: Seq<char>,
    rest: Seq<Seq<char>>,
)
    requires
        spelled_i32(number) == Some(n),
        n >= 0,
    ensures
        rest.len() < 2 || rest[0] != "resume"@ ==> {
            let args = seq!["timeout"@, number, idle] + rest;
            let next = ConfigModel {
                timeouts: config.timeouts.push(read_timeout(n, idle, None)),
                ..config
            };
            &&& read_events(config, args) == read_events(next, rest)
            &&& events_in_range(args) <==> n <= 2147483 && events_in_range(rest)
        },
        ({
            let args = seq!["timeout"@, number, idle, "resume"@, resume] + rest;
            let next = ConfigModel {
                timeouts: config.timeouts.push(read_timeout(n, idle, Some(resume))),
                ..config
            };
            &&& read_events(config, args) == read_events(next, rest)
            &&& events_in_range(args) <==> n <= 2147483 && events_in_range(rest)
        }),
{
    let short = seq!["timeout"@, number, idle] + rest;
    assert(short.skip(3) =~= rest);
    assert(short[0] == "timeout"@ && short[1] == number && short[2] == idle);
    assert(rest.len() > 0 ==> short[3] == rest[0]);
    let long = seq!["timeout"@, number, idle, "resume"@, resume] + rest;
    assert(long.skip(5) =~= rest);
    assert(long[0] == "timeout"@ && long[1] == number && long[2] == idle);
    assert(long[3] == "resume"@ && long[4] == resume);
}

/// Each of the other events takes a command, which takes the place of an earlier one for the
/// same event and leaves everything else as it was.
pub proof fn law_command_is_set(config: ConfigModel, command: Seq<char>, rest: Seq<Seq<char>>)
    ensures
        read_events(config, seq!["before-sleep"@, command] + rest) == read_events(
            ConfigModel { before_sleep_cmd: Some(command), ..config },
            rest,
        ),
        read_events(config, seq!["after-resume"@, command] + rest) == read_events(
            ConfigModel { after_resume_cmd: Some(command), ..config },
            rest,
        ),
        read_events(config, seq!["lock"@, command] + rest) == read_events(
            ConfigModel { lock_cmd: Some(command), ..config },
            rest,
        ),
        read_events(config, seq!["unlock"@, command] + rest) == read_events(
            ConfigModel { unlock_cmd: Some(command), ..config },
            rest,
        ),
        events_in_range(seq!["before-sleep"@, command] + rest) == events_in_range(rest),
        events_in_range(seq!["after-resume"@, command] + rest) == events_in_range(rest),
        events_in_range(seq!["lock"@, command] + rest) == events_in_range(rest),
        events_in_range(seq!["unlock"@, command] + rest) == events_in_range(rest),
{
    lemma_event_words_differ();
    assert((seq!["before-sleep"@, command] + rest).skip(2) =~= rest);
    assert((seq!["after-resume"@, command] + rest).skip(2) =~= rest);
    assert((seq!["lock"@, command] + rest).skip(2) =~= rest);
    assert((seq!["unlock"@, command] + rest).skip(2) =~= rest);
}

/// Where too few words are left for an event, it is refused, and the message says what it
/// takes.
pub proof fn law_short_event_is_refused(config: ConfigModel, args: Seq<Seq<char>>)
    requires
        args.len() > 0,
    ensures
        args[0] == "timeout"@ && args.len() < 3 ==> read_events(config, args) == (Reading {
            config,
            error: Some("timeout requires <seconds> <command>"@),
        }),
        args == seq!["before-sleep"@] ==> read_events(config, args) == (Reading {
            config,
            error: Some("before-sleep requires <command>"@),
        }),
        args == seq!["after-resume"@] ==> read_events(config, args) == (Reading {
            config,
            error: Some("after-resume requires <command>"@),
        }),
        args == seq!["lock"@] ==> read_events(config, args) == (Reading {
            config,
            error: Some("lock requires <command>"@),
        }),
        args == seq!["unlock"@] ==> read_events(config, args) == (Reading {
            config,
            error: Some("unlock requires <command>"@),
        }),
        args[0] == "timeout"@ && args.len() < 3 ==> events_in_range(args),
        args.len() == 1 ==> events_in_range(args),
{
    lemma_event_words_differ();
    reveal_strlit("before-sleep");
    reveal_strlit("after-resume");
    reveal_strlit("lock");
    reveal_strlit("unlock");
    reveal_strlit(" requires <command>");
    reveal_strlit("before-sleep requires <command>");
    reveal_strlit("after-resume requires <command>");
    reveal_strlit("lock requires <command>");
    reveal_strlit("unlock requires <command>");
    assert("before-sleep"@ + " requires <command>"@ =~= "before-sleep requires <command>"@);
    assert("after-resume"@ + " requires <command>"@ =~= "after-resume requires <command>"@);
    assert("lock"@ + " requires <command>"@ =~= "lock requires <command>"@);
    assert("unlock"@ + " requires <command>"@ =~= "unlock requires <command>"@);
    assert(args.len() == 1 ==> read_directive(args) is Err);
}

/// A timeout is refused where its number spells no seconds, and so is every word that begins
/// no event. Nothing changes, and the message names the word.
pub proof fn law_wrong_event_is_refused(config: ConfigModel, args: Seq<Seq<char>>)
    requires
        args.len() > 0,
    ensures
        args[0] == "timeout"@ && args.len() >= 3 && (spelled_i32(args[1]) is None || spelled_i32(
            args[1],
        )->0 < 0) ==> read_events(config, args) == (Reading {
            config,
            error: Some("invalid timeout value '"@ + args[1] + "', expected seconds"@),
        }) && events_in_range(args),
        args[0] != "timeout"@ && args[0] != "before-sleep"@ && args[0] != "after-resume"@
            && args[0] != "lock"@ && args[0] != "unlock"@ ==> read_events(config, args) == (
        Reading { config, error: Some("unsupported command: "@ + args[0]) }) && events_in_range(
            args,
        ),
{
    reveal_strlit("invalid ");
    reveal_strlit("timeout");
    reveal_strlit(" value '");
    reveal_strlit("invalid timeout value '");
    assert("invalid "@ + "timeout"@ + " value '"@ =~= "invalid timeout value '"@);
}

/// The options differ.
proof fn lemma_option_lengths()
    ensures
        "-h"@.len() == 2 && "-h"@[0] == '-' && "-h"@[1] == 'h',
        "-d"@.len() == 2 && "-d"@[0] == '-' && "-d"@[1] == 'd',
        "-w"@.len() == 2 && "-w"@[0] == '-' && "-w"@[1] == 'w',
        "-C"@.len() == 2 && "-C"@[0] == '-' && "-C"@[1] == 'C',
        "-S"@.len() == 2 && "-S"@[0] == '-' && "-S"@[1] == 'S',
        "--help"@.len() == 6 && "--help"@[0] == '-',
        "--dry-run"@.len() == 9 && "--dry-run"@[0] == '-',
        "--no-config"@.len() == 11 && "--no-config"@[0] == '-',
        "--print-events"@.len() == 14 && "--print-events"@[0] == '-',
        "--validate-config"@.len() == 17 && "--validate-config"@[0] == '-',
        "--ignore-fullscreen"@.len() == 19 && "--ignore-fullscreen"@[0] == '-'
            && "--ignore-fullscreen"@[2] == 'i',
        "--fullscreen-policy"@.len() == 19 && "--fullscreen-policy"@[0] == '-'
            && "--fullscreen-policy"@[2] == 'f',
        "--fullscreen-policy="@.len() == 20 && "--fullscreen-policy="@[0] == '-',
        "suppress"@ != "ignore"@,
{
    reveal_strlit("-h");
    reveal_strlit("-d");
    reveal_strlit("-w");
    reveal_strlit("-C");
    reveal_strlit("-S");
    reveal_strlit("--help");
    reveal_strlit("--dry-run");
    reveal_strlit("--no-config");
    reveal_strlit("--print-events");
    reveal_strlit("--validate-config");
    reveal_strlit("--ignore-fullscreen");
    reveal_strlit("--fullscreen-policy");
    reveal_strlit("--fullscreen-policy=");
    reveal_strlit("suppress");
    reveal_strlit("ignore");
    assert("suppress"@.len() != "ignore"@.len());
}

/// Each option without a value, wherever it stands among the options, sets what it is for,
/// leaves everything else as it was, and the words behind it are read as they would be.
pub proof fn law_switch_sets_what_it_is_for(argv: Seq<Seq<char>>, i: int, config: ConfigModel)
    requires
        0 <= i < argv.len(),
    ensures
        argv[i] == "-d"@ ==> scan(argv, i, config) == scan(
            argv,
            i + 1,
            ConfigModel { debug: true, ..config },
        ),
        argv[i] == "-w"@ ==> scan(argv, i, config) == scan(
            argv,
            i + 1,
            ConfigModel { wait: true, ..config },
        ),
        argv[i] == "--no-config"@ ==> scan(argv, i, config) == scan(
            argv,
            i + 1,
            ConfigModel { no_config: true, ..config },
        ),
        argv[i] == "--dry-run"@ ==> scan(argv, i, config) == scan(
            argv,
            i + 1,
            ConfigModel { dry_run: true, print_events: true, validate_config: true, ..config },
        ),
        argv[i] == "--print-events"@ ==> scan(argv, i, config) == scan(
            argv,
            i + 1,
            ConfigModel { print_events: true, ..config },
        ),
        argv[i] == "--validate-config"@ ==> scan(argv, i, config) == scan(
            argv,
            i + 1,
            ConfigModel { validate_config: true, ..config },
        ),
        argv[i] == "--ignore-fullscreen"@ ==> scan(argv, i, config) == scan(
            argv,
            i + 1,
            ConfigModel { fullscreen_policy: FullscreenPolicy::Ignore, ..config },
        ),
{
    lemma_option_lengths();
}

/// Each option with a value takes the word behind it, whatever that is, and is refused where
/// there is none.
pub proof fn law_option_takes_its_value(argv: Seq<Seq<char>>, i: int, config: ConfigModel)
    requires
        0 <= i < argv.len(),
    ensures
        argv[i] == "-C"@ && i + 1 < argv.len() ==> scan(argv, i, config) == scan(
            argv,
            i + 2,
            ConfigModel { config_path: Some(argv[i + 1]), ..config },
        ),
        argv[i] == "-S"@ && i + 1 < argv.len() ==> scan(argv, i, config) == scan(
            argv,
            i + 2,
            ConfigModel { seat_name: Some(argv[i + 1]), ..config },
        ),
        argv[i] == "-C"@ && i + 1 == argv.len() ==> scan(argv, i, config) == Scan::Refused(
            "-C requires a path"@,
        ),
        argv[i] == "-S"@ && i + 1 == argv.len() ==> scan(argv, i, config) == Scan::Refused(
            "-S requires a seat name"@,
        ),
        argv[i] == "--fullscreen-policy"@ && i + 1 == argv.len() ==> scan(argv, i, config)
            == Scan::Refused("--fullscreen-policy requires suppress or ignore"@),
{
    lemma_option_lengths();
}

/// The fullscreen policy is the one that is named, in a word of its own or behind an equals
/// sign, and a name that is none is refused.
pub proof fn law_policy_is_the_one_named(
    argv: Seq<Seq<char>>,
    i: int,
    name: Seq<char>,
    config: ConfigModel,
)
    requires
        0 <= i < argv.len(),
        (argv[i] == "--fullscreen-policy"@ && i + 1 < argv.len() && argv[i + 1] == name)
            || argv[i] == "--fullscreen-policy="@ + name,
    ensures
        ({
            let next = if argv[i] == "--fullscreen-policy"@ {
                i + 2
            } else {
                i + 1
            };
            &&& name == "suppress"@ ==> scan(argv, i, config) == scan(
                argv,
                next,
                ConfigModel { fullscreen_policy: FullscreenPolicy::Suppress, ..config },
            )
            &&& name == "ignore"@ ==> scan(argv, i, config) == scan(
                argv,
                next,
                ConfigModel { fullscreen_policy: FullscreenPolicy::Ignore, ..config },
            )
            &&& name != "suppress"@ && name != "ignore"@ ==> scan(argv, i, config)
                == Scan::Refused(
                "invalid fullscreen policy '"@ + name + "', expected suppress or ignore"@,
            )
        }),
{
    lemma_option_lengths();
    let prefix = "--fullscreen-policy="@;
    if argv[i] != "--fullscreen-policy"@ {
        reveal_strlit("--fullscreen-policy=");
        assert(prefix =~= argv[i].subrange(0, 20));
        assert(argv[i].skip(20) =~= name);
        assert(argv[i][2] == prefix[2]);
        assert(argv[i][2] == 'f');
        assert(argv[i].len() >= 20);
    }
}

/// The word that asks for help ends the scan, and a word that looks like an option and is
/// none is refused and named. The first word that does not look like one begins the events:
/// it and all words behind it are events, whatever they look like.
pub proof fn law_other_words_end_the_scan(argv: Seq<Seq<char>>, i: int, config: ConfigModel)
    requires
        0 <= i,
    ensures
        i < argv.len() && (argv[i] == "-h"@ || argv[i] == "--help"@) ==> scan(argv, i, config)
            == Scan::Help(config),
        i < argv.len() && argv[i].len() > 0 && argv[i][0] == '-' && argv[i] != "-h"@ && argv[i]
            != "--help"@ && argv[i] != "-d"@ && argv[i] != "-w"@ && argv[i] != "-C"@ && argv[i]
            != "-S"@ && argv[i] != "--no-config"@ && argv[i] != "--dry-run"@ && argv[i]
            != "--print-events"@ && argv[i] != "--validate-config"@ && argv[i]
            != "--ignore-fullscreen"@ && argv[i] != "--fullscreen-policy"@
            && !"--fullscreen-policy="@.is_prefix_of(argv[i]) ==> scan(argv, i, config)
            == Scan::Refused("unknown option: "@ + argv[i]),
        i < argv.len() && (argv[i].len() == 0 || argv[i][0] != '-') ==> scan(argv, i, config)
            == Scan::Events(config, argv.skip(i)),
        i >= argv.len() ==> scan(argv, i, config) == Scan::Events(config, seq![]),
{
    lemma_option_lengths();
    let prefix = "--fullscreen-policy="@;
    if i < argv.len() && prefix.is_prefix_of(argv[i]) {
        assert(argv[i].len() >= 20);
        assert(prefix[0] == argv[i].subrange(0, 20)[0]);
    }
}

/// The settings before anything was said.
pub open spec fn nothing_said() -> ConfigModel {
    ConfigModel {
        help: false,
        wait: false,
        debug: false,
        no_config: false,
        dry_run: false,
        print_events: false,
        validate_config: false,
        fullscreen_policy: FullscreenPolicy::Suppress,
        seat_name: None,
        config_path: None,
        timeouts: seq![],
        before_sleep_cmd: None,
        after_resume_cmd: None,
        lock_cmd: None,
        unlock_cmd: None,
    }
}

/// A command line says what its options say, behind the name of the program, of settings
/// where nothing was said, and then what its events say. What is wrong with either is the
/// error, and help is asked for where the options do.
pub proof fn law_command_line_is_options_and_events(argv: Seq<Seq<char>>)
    ensures
        match scan(argv, 1, nothing_said()) {
            Scan::Help(config) => command_line(argv) == Ok::<ConfigModel, Seq<char>>(
                ConfigModel { help: true, ..config },
            ) && args_in_range(argv),
            Scan::Refused(message) => command_line(argv) == Err::<ConfigModel, Seq<char>>(message)
                && args_in_range(argv),
            Scan::Events(config, events) => {
                let reading = read_events(config, events);
                &&& reading.error is None ==> command_line(argv) == Ok::<ConfigModel, Seq<char>>(
                    reading.config,
                )
                &&& reading.error is Some ==> command_line(argv) == Err::<ConfigModel, Seq<char>>(
                    reading.error->0,
                )
                &&& args_in_range(argv) == events_in_range(events)
            },
        },
{
}

} // verus!
