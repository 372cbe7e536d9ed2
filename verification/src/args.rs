//! The command line: options, and behind them the events.

use vstd::prelude::*;
use vstd::slice::slice_subrange;

use crate::config::{
    bad_policy, empty_config, parse_fullscreen_policy, policy_named, Config, ConfigModel,
    FullscreenPolicy,
};
use crate::events::{
    events_fit, events_in_range, law_events_leave_the_rest_alone, law_timeouts_are_sound,
    parse_events, read_events, timeout_as_read,
};
use crate::text::{begins, behind, join, opt_text, same_text, starts_with_char, strip, texts};

verus! {

/// `config` after the option `word`, where that is one that takes no value.
pub open spec fn switched(config: ConfigModel, word: Seq<char>) -> Option<ConfigModel> {
    if word == "-d"@ {
        Some(ConfigModel { debug: true, ..config })
    } else if word == "-w"@ {
        Some(ConfigModel { wait: true, ..config })
    } else if word == "--no-config"@ {
        Some(ConfigModel { no_config: true, ..config })
    } else if word == "--dry-run"@ {
        Some(ConfigModel { dry_run: true, print_events: true, validate_config: true, ..config })
    } else if word == "--print-events"@ {
        Some(ConfigModel { print_events: true, ..config })
    } else if word == "--validate-config"@ {
        Some(ConfigModel { validate_config: true, ..config })
    } else if word == "--ignore-fullscreen"@ {
        Some(ConfigModel { fullscreen_policy: FullscreenPolicy::Ignore, ..config })
    } else {
        None
    }
}

/// What is missing behind the option `word`, where that is one that takes a value.
pub open spec fn missing_value(word: Seq<char>) -> Option<Seq<char>> {
    if word == "--fullscreen-policy"@ {
        Some("--fullscreen-policy requires suppress or ignore"@)
    } else if word == "-C"@ {
        Some("-C requires a path"@)
    } else if word == "-S"@ {
        Some("-S requires a seat name"@)
    } else {
        None
    }
}

/// `config` with the fullscreen policy of this name.
pub open spec fn with_policy(config: ConfigModel, name: Seq<char>) -> Result<
    ConfigModel,
    Seq<char>,
> {
    match policy_named(name) {
        Some(policy) => Ok(ConfigModel { fullscreen_policy: policy, ..config }),
        None => Err(bad_policy(name)),
    }
}

/// `config` after the option `word`, which takes the value `value`.
pub open spec fn valued(config: ConfigModel, word: Seq<char>, value: Seq<char>) -> Result<
    ConfigModel,
    Seq<char>,
> {
    if word == "--fullscreen-policy"@ {
        with_policy(config, value)
    } else if word == "-C"@ {
        Ok(ConfigModel { config_path: Some(value), ..config })
    } else {
        Ok(ConfigModel { seat_name: Some(value), ..config })
    }
}

/// What the options of a command line come to.
pub enum Scan {
    /// The help text was asked for.
    Help(ConfigModel),
    /// An option is wrong.
    Refused(Seq<char>),
    /// The settings, and the events behind the options.
    Events(ConfigModel, Seq<Seq<char>>),
}

/// What the options from `argv[i]` on make of `config`. The first word that is no option
/// and no value of one begins the events.
pub open spec fn scan(argv: Seq<Seq<char>>, i: int, config: ConfigModel) -> Scan
    decreases argv.len() - i,
{
    if i < 0 || i >= argv.len() {
        Scan::Events(config, seq![])
    } else if argv[i] == "-h"@ || argv[i] == "--help"@ {
        Scan::Help(config)
    } else if let Some(next) = switched(config, argv[i]) {
        scan(argv, i + 1, next)
    } else if let Some(message) = missing_value(argv[i]) {
        if i + 1 >= argv.len() {
            Scan::Refused(message)
        } else {
            match valued(config, argv[i], argv[i + 1]) {
                Ok(next) => scan(argv, i + 2, next),
                Err(message) => Scan::Refused(message),
            }
        }
    } else if let Some(name) = behind(argv[i], "--fullscreen-policy="@) {
        match with_policy(config, name) {
            Ok(next) => scan(argv, i + 1, next),
            Err(message) => Scan::Refused(message),
        }
    } else if begins(argv[i], '-') {
        Scan::Refused("unknown option: "@ + argv[i])
    } else {
        Scan::Events(config, argv.skip(i))
    }
}

/// The settings that the command line `argv` asks for, or what is wrong with it. Its
/// first word is the name of the program.
pub open spec fn command_line(argv: Seq<Seq<char>>) -> Result<ConfigModel, Seq<char>> {
    match scan(argv, 1, empty_config()) {
        Scan::Help(config) => Ok(ConfigModel { help: true, ..config }),
        Scan::Refused(message) => Err(message),
        Scan::Events(config, events) => match read_events(config, events).error {
            Some(message) => Err(message),
            None => Ok(read_events(config, events).config),
        },
    }
}

/// Whether the milliseconds of every timeout that is read from the command line `argv`
/// can be held.
pub open spec fn args_in_range(argv: Seq<Seq<char>>) -> bool {
    match scan(argv, 1, empty_config()) {
        Scan::Events(_, events) => events_in_range(events),
        _ => true,
    }
}

/// What the options of a command line have come to.
enum ScanEnd {
    Help(Config),
    Refused(String),
    /// The settings, and where the events begin.
    Events(Config, usize),
}

/// Takes the option `word` into `config`, if it is one that takes no value.
fn take_switch(config: &mut Config, word: &String) -> (r: bool)
    ensures
        match switched(old(config)@, word@) {
            Some(next) => r && final(config)@ == next,
            None => !r && final(config)@ == old(config)@,
        },
{
    if same_text(word, "-d") {
        config.debug = true;
    } else if same_text(word, "-w") {
        config.wait = true;
    } else if same_text(word, "--no-config") {
        config.no_config = true;
    } else if same_text(word, "--dry-run") {
        config.dry_run = true;
        config.print_events = true;
        config.validate_config = true;
    } else if same_text(word, "--print-events") {
        config.print_events = true;
    } else if same_text(word, "--validate-config") {
        config.validate_config = true;
    } else if same_text(word, "--ignore-fullscreen") {
        config.fullscreen_policy = FullscreenPolicy::Ignore;
    } else {
        return false;
    }
    true
}

/// Says what is missing behind the option `word`, if it is one that takes a value.
fn value_message(word: &String) -> (r: Option<String>)
    ensures
        opt_text(r) == missing_value(word@),
{
    if same_text(word, "--fullscreen-policy") {
        Some("--fullscreen-policy requires suppress or ignore".to_string())
    } else if same_text(word, "-C") {
        Some("-C requires a path".to_string())
    } else if same_text(word, "-S") {
        Some("-S requires a seat name".to_string())
    } else {
        None
    }
}

/// Takes the fullscreen policy of this name into `config`.
fn take_policy(config: &mut Config, name: &str) -> (r: Result<(), String>)
    ensures
        match (r, with_policy(old(config)@, name@)) {
            (Ok(()), Ok(next)) => final(config)@ == next,
            (Err(message), Err(expected)) => message@ == expected,
            _ => false,
        },
{
    match parse_fullscreen_policy(name) {
        Ok(policy) => {
            config.fullscreen_policy = policy;
            Ok(())
        },
        Err(message) => Err(message),
    }
}

/// Takes the option `word` with its value into `config`.
fn take_valued(config: &mut Config, word: &String, value: &String) -> (r: Result<(), String>)
    ensures
        match (r, valued(old(config)@, word@, value@)) {
            (Ok(()), Ok(next)) => final(config)@ == next,
            (Err(message), Err(expected)) => message@ == expected,
            _ => false,
        },
{
    if same_text(word, "--fullscreen-policy") {
        return take_policy(config, value.as_str());
    }
    if same_text(word, "-C") {
        config.config_path = Some(value.clone());
    } else {
        config.seat_name = Some(value.clone());
    }
    Ok(())
}

/// Reads the options of a command line.
fn scan_args(argv: &[String]) -> (r: ScanEnd)
    ensures
        match (r, scan(texts(argv@), 1, empty_config())) {
            (ScanEnd::Help(config), Scan::Help(expected)) => config@ == expected,
            (ScanEnd::Refused(message), Scan::Refused(expected)) => message@ == expected,
            (ScanEnd::Events(config, i), Scan::Events(expected, events)) => config@ == expected && i
                <= argv@.len() && events == texts(argv@).skip(i as int),
            _ => false,
        },
{
    let ghost all = texts(argv@);
    let mut config = Config::default();
    let mut i: usize = 1;
    while i < argv.len()
        invariant
            1 <= i,
            all == texts(argv@),
            scan(all, 1, empty_config()) == scan(all, i as int, config@),
        decreases argv@.len() - i,
    {
        assert(all[i as int] == argv@[i as int]@);
        let word = &argv[i];
        if same_text(word, "-h") || same_text(word, "--help") {
            return ScanEnd::Help(config);
        }
        if take_switch(&mut config, word) {
            i += 1;
            continue;
        }
        if let Some(message) = value_message(word) {
            if argv.len() - i < 2 {
                return ScanEnd::Refused(message);
            }
            assert(all[i + 1] == argv@[i + 1]@);
            match take_valued(&mut config, word, &argv[i + 1]) {
                Ok(()) => {},
                Err(message) => return ScanEnd::Refused(message),
            }
            i += 2;
            continue;
        }
        if let Some(name) = strip(word.as_str(), "--fullscreen-policy=") {
            match take_policy(&mut config, name.as_str()) {
                Ok(()) => {},
                Err(message) => return ScanEnd::Refused(message),
            }
            i += 1;
            continue;
        }
        if starts_with_char(word.as_str(), '-') {
            return ScanEnd::Refused(join("unknown option: ", word.as_str()));
        }
        return ScanEnd::Events(config, i);
    }
    assert(all.skip(all.len() as int) == Seq::<Seq<char>>::empty());
    ScanEnd::Events(config, argv.len())
}

/// Reads a command line, whose first word is the name of the program.
pub fn parse_args(argv: &[String]) -> (r: Result<Config, String>)
    requires
        args_in_range(texts(argv@)),
    ensures
        match r {
            Ok(config) => command_line(texts(argv@)) == Ok::<ConfigModel, Seq<char>>(config@),
            Err(message) => command_line(texts(argv@)) == Err::<ConfigModel, Seq<char>>(message@),
        },
{
    match scan_args(argv) {
        ScanEnd::Help(scanned) => {
            let mut config = scanned;
            config.help = true;
            Ok(config)
        },
        ScanEnd::Refused(message) => Err(message),
        ScanEnd::Events(scanned, i) => {
            let mut config = scanned;
            let events = slice_subrange(argv, i, argv.len());
            assert(texts(events@) == texts(argv@).skip(i as int));
            match parse_events(&mut config, events) {
                Ok(()) => Ok(config),
                Err(message) => Err(message),
            }
        },
    }
}

/// Whether the milliseconds of every timeout that is read from the command line `argv`
/// can be held.
pub fn args_fit(argv: &[String]) -> (r: bool)
    ensures
        r == args_in_range(texts(argv@)),
{
    match scan_args(argv) {
        ScanEnd::Events(_, i) => {
            let events = slice_subrange(argv, i, argv.len());
            assert(texts(events@) == texts(argv@).skip(i as int));
            events_fit(events)
        },
        _ => true,
    }
}

/// The help text, for a program that goes by `name`.
pub open spec fn help_text(name: Seq<char>) -> Seq<Seq<char>> {
    seq![
        "Usage: "@ + name + " [OPTIONS] [EVENTS...]"@,
        "  -h, --help                         this help menu"@,
        "  -C <path>                          path to config file"@,
        "  -d                                 debug output"@,
        "  -w                                 wait for command completion"@,
        "  -S <seat>                          pick the Wayland seat to watch"@,
        "      --no-config                    ignore config files"@,
        "      --dry-run                      validate and print events, then exit"@,
        "      --validate-config              validate config and arguments, then exit"@,
        "      --print-events                 print parsed events, then exit"@,
        "      --ignore-fullscreen            do not suppress idle in fullscreen apps"@,
        "      --fullscreen-policy <policy>   suppress or ignore"@,
    ]
}

/// The help text, line by line, for a program that goes by `name`.
pub fn print_help(name: &str) -> (r: Vec<String>)
    ensures
        texts(r@) == help_text(name@),
{
    let mut usage = join("Usage: ", name);
    usage.append(" [OPTIONS] [EVENTS...]");
    let mut lines: Vec<String> = Vec::new();
    lines.push(usage);
    lines.push("  -h, --help                         this help menu".to_string());
    lines.push("  -C <path>                          path to config file".to_string());
    lines.push("  -d                                 debug output".to_string());
    lines.push("  -w                                 wait for command completion".to_string());
    lines.push("  -S <seat>                          pick the Wayland seat to watch".to_string());
    lines.push("      --no-config                    ignore config files".to_string());
    lines.push(
        "      --dry-run                      validate and print events, then exit".to_string(),
    );
    lines.push(
        "      --validate-config              validate config and arguments, then exit".to_string(),
    );
    lines.push("      --print-events                 print parsed events, then exit".to_string());
    lines.push(
        "      --ignore-fullscreen            do not suppress idle in fullscreen apps".to_string(),
    );
    lines.push("      --fullscreen-policy <policy>   suppress or ignore".to_string());
    assert(texts(lines@) =~= help_text(name@));
    lines
}

/// Whether a dry run is one that prints and validates, and nothing was read into the
/// timeouts yet.
spec fn scanned_well(config: ConfigModel) -> bool {
    &&& config.dry_run ==> config.print_events && config.validate_config
    &&& !config.help
    &&& config.timeouts.len() == 0
}

proof fn lemma_scanned_well(argv: Seq<Seq<char>>, i: int, config: ConfigModel)
    requires
        scanned_well(config),
    ensures
        match scan(argv, i, config) {
            Scan::Help(after) => scanned_well(after),
            Scan::Refused(_) => true,
            Scan::Events(after, _) => scanned_well(after),
        },
    decreases argv.len() - i,
{
    if 0 <= i < argv.len() && !(argv[i] == "-h"@ || argv[i] == "--help"@) {
        if let Some(next) = switched(config, argv[i]) {
            lemma_scanned_well(argv, i + 1, next);
        } else if let Some(_) = missing_value(argv[i]) {
            if i + 1 < argv.len() {
                if let Ok(next) = valued(config, argv[i], argv[i + 1]) {
                    lemma_scanned_well(argv, i + 2, next);
                }
            }
        } else if let Some(name) = behind(argv[i], "--fullscreen-policy="@) {
            if let Ok(next) = with_policy(config, name) {
                lemma_scanned_well(argv, i + 1, next);
            }
        }
    }
}

/// A dry run prints the events and validates the settings.
pub proof fn law_dry_run_prints_and_validates(argv: Seq<Seq<char>>)
    ensures
        match command_line(argv) {
            Ok(config) => config.dry_run ==> config.print_events && config.validate_config,
            Err(_) => true,
        },
{
    lemma_scanned_well(argv, 1, empty_config());
    if let Scan::Events(config, events) = scan(argv, 1, empty_config()) {
        law_events_leave_the_rest_alone(config, events);
    }
}

/// Every timeout of a command line is sound.
pub proof fn law_command_line_is_sound(argv: Seq<Seq<char>>)
    requires
        args_in_range(argv),
    ensures
        match command_line(argv) {
            Ok(config) => forall|i: int|
                0 <= i < config.timeouts.len() ==> timeout_as_read(#[trigger] config.timeouts[i]),
            Err(_) => true,
        },
{
    lemma_scanned_well(argv, 1, empty_config());
    if let Scan::Events(config, events) = scan(argv, 1, empty_config()) {
        law_timeouts_are_sound(config, events);
    }
}

/// What is scanned depends on the words that are left alone.
proof fn lemma_scan_depends_on_the_rest(
    a: Seq<Seq<char>>,
    i: int,
    b: Seq<Seq<char>>,
    j: int,
    config: ConfigModel,
)
    requires
        0 <= i <= a.len(),
        0 <= j <= b.len(),
        a.skip(i) == b.skip(j),
    ensures
        scan(a, i, config) == scan(b, j, config),
    decreases a.len() - i,
{
    assert(a.skip(i).len() == a.len() - i);
    assert(b.skip(j).len() == b.len() - j);
    if i < a.len() {
        assert(a[i] == a.skip(i)[0]);
        assert(b[j] == b.skip(j)[0]);
        assert(a.skip(i + 1) == a.skip(i).skip(1));
        assert(b.skip(j + 1) == b.skip(j).skip(1));
        if !(a[i] == "-h"@ || a[i] == "--help"@) {
            if let Some(next) = switched(config, a[i]) {
                lemma_scan_depends_on_the_rest(a, i + 1, b, j + 1, next);
            } else if let Some(_) = missing_value(a[i]) {
                if i + 1 < a.len() {
                    assert(a[i + 1] == a.skip(i)[1]);
                    assert(b[j + 1] == b.skip(j)[1]);
                    assert(a.skip(i + 2) == a.skip(i).skip(2));
                    assert(b.skip(j + 2) == b.skip(j).skip(2));
                    if let Ok(next) = valued(config, a[i], a[i + 1]) {
                        lemma_scan_depends_on_the_rest(a, i + 2, b, j + 2, next);
                    }
                }
            } else if let Some(name) = behind(a[i], "--fullscreen-policy="@) {
                if let Ok(next) = with_policy(config, name) {
                    lemma_scan_depends_on_the_rest(a, i + 1, b, j + 1, next);
                }
            }
        }
    }
}

/// The fullscreen policy may be a word of its own, or stand behind an equals sign in the
/// same word: the rest of the command line being the same, it makes no difference.
pub proof fn law_policy_is_given_in_two_ways(
    apart: Seq<Seq<char>>,
    joined: Seq<Seq<char>>,
    i: int,
    name: Seq<char>,
    config: ConfigModel,
)
    requires
        0 <= i,
        i + 1 < apart.len(),
        i < joined.len(),
        apart[i] == "--fullscreen-policy"@,
        apart[i + 1] == name,
        joined[i] == "--fullscreen-policy="@ + name,
        apart.skip(i + 2) == joined.skip(i + 1),
    ensures
        scan(apart, i, config) == scan(joined, i, config),
{
    reveal_strlit("--fullscreen-policy");
    reveal_strlit("--fullscreen-policy=");
    reveal_strlit("-h");
    reveal_strlit("--help");
    reveal_strlit("-d");
    reveal_strlit("-w");
    reveal_strlit("--no-config");
    reveal_strlit("--dry-run");
    reveal_strlit("--print-events");
    reveal_strlit("--validate-config");
    reveal_strlit("--ignore-fullscreen");
    reveal_strlit("-C");
    reveal_strlit("-S");
    let prefix = "--fullscreen-policy="@;
    assert(prefix.len() == 20);
    assert(joined[i].len() >= 20);
    assert(joined[i].skip(20) == name);
    assert(prefix == joined[i].subrange(0, 20));
    assert(behind(joined[i], prefix) == Some(name));
    assert(missing_value(joined[i]) is None);
    assert(switched(config, joined[i]) is None);
    assert(apart[i].len() == 19);
    assert(apart[i][2] == 'f');
    assert("--ignore-fullscreen"@[2] == 'i');
    assert(switched(config, apart[i]) is None);
    if let Ok(next) = with_policy(config, name) {
        lemma_scan_depends_on_the_rest(apart, i + 2, joined, i + 1, next);
    }
}

/// The help text is the same for every program but for its first line, which names it.
pub proof fn law_help_names_the_program(name: Seq<char>, other: Seq<char>)
    ensures
        help_text(name).len() == 12,
        help_text(name)[0] == "Usage: "@ + name + " [OPTIONS] [EVENTS...]"@,
        help_text(name).skip(1) == help_text(other).skip(1),
        help_text(name)[1] == "  -h, --help                         this help menu"@,
        help_text(name)[2] == "  -C <path>                          path to config file"@,
        help_text(name)[3] == "  -d                                 debug output"@,
        help_text(name)[4] == "  -w                                 wait for command completion"@,
        help_text(name)[5] == "  -S <seat>                          pick the Wayland seat to watch"@,
        help_text(name)[6] == "      --no-config                    ignore config files"@,
        help_text(name)[7]
            == "      --dry-run                      validate and print events, then exit"@,
        help_text(name)[8]
            == "      --validate-config              validate config and arguments, then exit"@,
        help_text(name)[9] == "      --print-events                 print parsed events, then exit"@,
        help_text(name)[10]
            == "      --ignore-fullscreen            do not suppress idle in fullscreen apps"@,
        help_text(name)[11] == "      --fullscreen-policy <policy>   suppress or ignore"@,
{
    assert(help_text(name).skip(1) =~= help_text(other).skip(1));
}

} // verus!
