//! The config file: where it is looked for, and what its lines say.

use vstd::prelude::*;

use crate::config::{empty_config, Config, ConfigModel};
use crate::events::{
    events_in_range, law_events_in_two_parts, lemma_resume_begins_no_event, read_directive,
    read_events, take_events, with_directive, EventsEnd, Reading,
};
use crate::number::{decimal, write_u64};
use crate::text::{
    begins, chars_of, copy_text, join, opt_text, starts_with_char, texts, trim_between, trimmed,
};
use crate::words::{line_words, shell_words, unterminated};

verus! {

/// `base`, and below it `relative`.
pub open spec fn below(base: Seq<char>, relative: Seq<char>) -> Seq<char> {
    if base.len() == 0 || base.last() == '/' {
        base + relative
    } else {
        base + "/"@ + relative
    }
}

/// The path of `relative`, which does not begin with a slash, below the directory `base`.
pub fn path_below(base: &str, relative: &str) -> (r: String)
    ensures
        r@ == below(base@, relative@),
{
    let chars = chars_of(base);
    if chars.len() == 0 || chars[chars.len() - 1] == '/' {
        join(base, relative)
    } else {
        let mut path = join(base, "/");
        path.append(relative);
        path
    }
}

/// Where the config file is looked for, when the environment names these directories: first
/// in the user's, then in the system's.
pub open spec fn candidates(config_home: Option<Seq<char>>, home: Option<Seq<char>>) -> Seq<
    Seq<char>,
> {
    (match config_home {
        Some(dir) => if dir.len() > 0 {
            seq![below(dir, "dozed/config"@)]
        } else {
            seq![]
        },
        None => seq![],
    }) + (match home {
        Some(dir) => seq![below(dir, ".config/dozed/config"@), below(dir, ".dozed/config"@)],
        None => seq![],
    }) + seq!["/etc/dozed/config"@]
}

/// Where to look for the config file, when the environment names these directories.
pub fn config_candidates(config_home: &Option<String>, home: &Option<String>) -> (r: Vec<String>)
    ensures
        texts(r@) == candidates(opt_text(*config_home), opt_text(*home)),
{
    let mut paths: Vec<String> = Vec::new();
    if let Some(dir) = config_home {
        if !dir.as_str().is_empty() {
            paths.push(path_below(dir.as_str(), "dozed/config"));
        }
    }
    if let Some(dir) = home {
        paths.push(path_below(dir.as_str(), ".config/dozed/config"));
        paths.push(path_below(dir.as_str(), ".dozed/config"));
    }
    paths.push("/etc/dozed/config".to_string());
    assert(texts(paths@) =~= candidates(opt_text(*config_home), opt_text(*home)));
    paths
}

/// The first of `paths`, from `paths[i]` on, that is a file.
pub open spec fn first_file(paths: Seq<Seq<char>>, is_file: Seq<bool>, i: int) -> Option<Seq<char>>
    decreases paths.len() - i,
{
    if i < 0 || i >= paths.len() {
        None
    } else if is_file[i] {
        Some(paths[i])
    } else {
        first_file(paths, is_file, i + 1)
    }
}

/// The config file to read where none was named: the first of `paths` that is a file.
pub fn default_config_path(paths: &[String], is_file: &[bool]) -> (r: Option<String>)
    requires
        paths@.len() == is_file@.len(),
    ensures
        opt_text(r) == first_file(texts(paths@), is_file@, 0),
{
    let mut i: usize = 0;
    while i < paths.len()
        invariant
            i <= paths@.len() == is_file@.len(),
            first_file(texts(paths@), is_file@, 0) == first_file(
                texts(paths@),
                is_file@,
                i as int,
            ),
        decreases paths@.len() - i,
    {
        if is_file[i] {
            return Some(paths[i].clone());
        }
        i += 1;
    }
    None
}

/// The config file to read, where any is to be read: the one that was named, or else the
/// default.
pub open spec fn source_of(config: ConfigModel, default_path: Option<Seq<char>>) -> Option<
    Seq<char>,
> {
    if config.no_config {
        None
    } else if config.config_path is Some {
        config.config_path
    } else {
        default_path
    }
}

/// The config file to read, where any is to be read.
pub fn config_source(config: &Config, default_path: Option<String>) -> (r: Option<String>)
    ensures
        opt_text(r) == source_of(config@, opt_text(default_path)),
{
    if config.no_config {
        None
    } else if config.config_path.is_some() {
        copy_text(&config.config_path)
    } else {
        default_path
    }
}

/// The message about a config file that cannot be read.
pub fn read_failure(path: &str, error: &str) -> (r: String)
    ensures
        r@ == "failed to read config "@ + path@ + ": "@ + error@,
{
    let mut message = join("failed to read config ", path);
    message.append(": ");
    message.append(error);
    message
}

/// The lines of a text, without the newlines between them. What follows the last newline is
/// a line too.
pub open spec fn lines_of(content: Seq<char>) -> Seq<Seq<char>>
    decreases content.len(),
{
    if content.len() == 0 {
        seq![seq![]]
    } else {
        let front = lines_of(content.drop_last());
        if content.last() == '\n' {
            front.push(seq![])
        } else {
            front.update(front.len() - 1, front.last().push(content.last()))
        }
    }
}

/// The message about something wrong on a line of a file.
pub open spec fn located(path: Seq<char>, lineno: nat, message: Seq<char>) -> Seq<char> {
    path + ":"@ + decimal(lineno) + ": "@ + message
}

/// Whether a line says nothing: it is blank or a comment.
pub open spec fn says_nothing(line: Seq<char>) -> bool {
    trimmed(line).len() == 0 || begins(trimmed(line), '#')
}

/// What a line of the file at `path` makes of `config`.
pub open spec fn read_line(
    config: ConfigModel,
    path: Seq<char>,
    line: Seq<char>,
    lineno: nat,
) -> Reading {
    if says_nothing(line) {
        Reading { config, error: None }
    } else {
        match line_words(trimmed(line)) {
            Ok(words) => {
                let reading = read_events(config, words);
                match reading.error {
                    Some(message) => Reading {
                        config: reading.config,
                        error: Some(located(path, lineno, message)),
                    },
                    None => reading,
                }
            },
            Err(q) => Reading { config, error: Some(located(path, lineno, unterminated(q))) },
        }
    }
}

/// What the first `n` lines of the file at `path` make of `config`. Reading stops at the
/// first error.
pub open spec fn read_lines(
    config: ConfigModel,
    path: Seq<char>,
    lines: Seq<Seq<char>>,
    n: nat,
) -> Reading
    decreases n,
{
    if n == 0 {
        Reading { config, error: None }
    } else {
        let earlier = read_lines(config, path, lines, (n - 1) as nat);
        if earlier.error is Some {
            earlier
        } else {
            read_line(earlier.config, path, lines[n - 1], n)
        }
    }
}

/// What the file at `path` with this content makes of `config`.
pub open spec fn read_file(config: ConfigModel, path: Seq<char>, content: Seq<char>) -> Reading {
    read_lines(config, path, lines_of(content), lines_of(content).len())
}

/// Whether a line can be read without an error.
pub open spec fn line_is_good(line: Seq<char>) -> bool {
    read_line(empty_config(), seq![], line, 0).error is None
}

/// Whether the milliseconds of every timeout that is read from a line can be held.
pub open spec fn line_in_range(line: Seq<char>) -> bool {
    says_nothing(line) || match line_words(trimmed(line)) {
        Ok(words) => events_in_range(words),
        Err(_) => true,
    }
}

/// Whether the milliseconds of every timeout that is read from these lines can be held.
pub open spec fn lines_in_range(lines: Seq<Seq<char>>) -> bool {
    forall|i: int|
        0 <= i < lines.len() && (forall|k: int| 0 <= k < i ==> line_is_good(#[trigger] lines[k]))
            ==> line_in_range(#[trigger] lines[i])
}

/// Whether the milliseconds of every timeout that is read from a file with this content can
/// be held.
pub open spec fn file_in_range(content: Seq<char>) -> bool {
    lines_in_range(lines_of(content))
}

/// The lines of `content`.
fn file_lines(content: &str) -> (r: Vec<String>)
    ensures
        texts(r@) == lines_of(content@),
{
    let chars = chars_of(content);
    let mut lines: Vec<String> = Vec::new();
    let mut current = String::new();
    let mut i: usize = 0;
    assert(texts(lines@).push(current@) =~= lines_of(chars@.take(0)));
    while i < chars.len()
        invariant
            i <= chars@.len(),
            texts(lines@).push(current@) == lines_of(chars@.take(i as int)),
        decreases chars@.len() - i,
    {
        let c = chars[i];
        let ghost done = texts(lines@);
        let ghost part = current@;
        let ghost read = chars@.take(i + 1);
        assert(read.drop_last() == chars@.take(i as int));
        assert(read.last() == c);
        if c == '\n' {
            lines.push(current);
            current = String::new();
            assert(texts(lines@) =~= done.push(part));
        } else {
            current.push(c);
            assert(done.push(part).update(done.len() as int, part.push(c)) =~= done.push(
                part.push(c),
            ));
        }
        i += 1;
    }
    assert(chars@.take(i as int) == chars@);
    let ghost done = texts(lines@);
    let ghost part = current@;
    lines.push(current);
    assert(texts(lines@) =~= done.push(part));
    lines
}

/// Whether an event is wrong does not depend on the settings that were read before it.
proof fn lemma_error_depends_on_words_alone(
    a: ConfigModel,
    b: ConfigModel,
    args: Seq<Seq<char>>,
)
    ensures
        read_events(a, args).error == read_events(b, args).error,
    decreases args.len(),
{
    if args.len() > 0 {
        if let Ok((directive, n)) = read_directive(args) {
            lemma_error_depends_on_words_alone(
                with_directive(a, directive),
                with_directive(b, directive),
                args.skip(n),
            );
        }
    }
}

/// A line is good whatever the settings, the path and the number of the line are.
pub(crate) proof fn lemma_good_line_is_read(
    config: ConfigModel,
    path: Seq<char>,
    line: Seq<char>,
    lineno: nat,
)
    ensures
        line_is_good(line) <==> read_line(config, path, line, lineno).error is None,
{
    if let Ok(words) = line_words(trimmed(line)) {
        lemma_error_depends_on_words_alone(empty_config(), config, words);
    }
}

/// How reading a line has ended.
enum LineEnd {
    Done,
    Refused(String),
    OutOfRange,
}

/// Reads a line of the file at `path` into `config`.
fn take_line(config: &mut Config, path: &str, line: &str, lineno: u64) -> (r: LineEnd)
    ensures
        match r {
            LineEnd::Done => line_in_range(line@) && read_line(
                old(config)@,
                path@,
                line@,
                lineno as nat,
            ) == (Reading { config: final(config)@, error: None }),
            LineEnd::Refused(message) => line_in_range(line@) && read_line(
                old(config)@,
                path@,
                line@,
                lineno as nat,
            ) == (Reading { config: final(config)@, error: Some(message@) }),
            LineEnd::OutOfRange => !line_in_range(line@),
        },
{
    let chars = chars_of(line);
    let text = trim_between(&chars, 0, chars.len());
    assert(chars@.subrange(0, chars@.len() as int) == line@);
    if text.as_str().is_empty() || starts_with_char(text.as_str(), '#') {
        return LineEnd::Done;
    }
    let reason = match shell_words(text.as_str()) {
        Ok(words) => match take_events(config, words.as_slice()) {
            EventsEnd::Done => return LineEnd::Done,
            EventsEnd::Refused(message) => message,
            EventsEnd::OutOfRange => return LineEnd::OutOfRange,
        },
        Err(message) => message,
    };
    let mut message = join(path, ":");
    message.append(write_u64(lineno).as_str());
    message.append(": ");
    message.append(reason.as_str());
    LineEnd::Refused(message)
}

/// Reads the lines of the file at `path` into `config`.
fn take_lines(config: &mut Config, path: &str, lines: &Vec<String>) -> (r: LineEnd)
    ensures
        match r {
            LineEnd::Done => lines_in_range(texts(lines@)) && read_lines(
                old(config)@,
                path@,
                texts(lines@),
                lines@.len(),
            ) == (Reading { config: final(config)@, error: None }),
            LineEnd::Refused(message) => lines_in_range(texts(lines@)) && read_lines(
                old(config)@,
                path@,
                texts(lines@),
                lines@.len(),
            ) == (Reading { config: final(config)@, error: Some(message@) }),
            LineEnd::OutOfRange => !lines_in_range(texts(lines@)),
        },
{
    let ghost all = texts(lines@);
    let mut i: usize = 0;
    while i < lines.len()
        invariant
            i <= lines@.len(),
            all == texts(lines@),
            read_lines(old(config)@, path@, all, i as nat) == (Reading {
                config: config@,
                error: None,
            }),
            forall|k: int|
                0 <= k < i ==> line_is_good(#[trigger] all[k]) && line_in_range(all[k]),
        decreases lines@.len() - i,
    {
        let ghost before = config@;
        assert(all[i as int] == lines@[i as int]@);
        let end = take_line(config, path, lines[i].as_str(), i as u64 + 1);
        proof {
            lemma_good_line_is_read(before, path@, all[i as int], (i + 1) as nat);
        }
        match end {
            LineEnd::Done => {},
            LineEnd::Refused(message) => {
                proof {
                    lemma_reading_stops(old(config)@, path@, all, (i + 1) as nat, all.len());
                    assert(!line_is_good(all[i as int]));
                    assert(line_in_range(all[i as int]));
                }
                return LineEnd::Refused(message);
            },
            LineEnd::OutOfRange => {
                assert(!line_in_range(all[i as int]));
                return LineEnd::OutOfRange;
            },
        }
        i += 1;
    }
    LineEnd::Done
}

/// Once a line is wrong, the lines behind it are not read.
proof fn lemma_reading_stops(
    config: ConfigModel,
    path: Seq<char>,
    lines: Seq<Seq<char>>,
    n: nat,
    m: nat,
)
    requires
        n <= m,
        read_lines(config, path, lines, n).error is Some,
    ensures
        read_lines(config, path, lines, m) == read_lines(config, path, lines, n),
    decreases m,
{
    if n < m {
        lemma_reading_stops(config, path, lines, n, (m - 1) as nat);
    }
}

/// Reads the file at `path` with this content into `config`.
pub fn load_config(config: &mut Config, path: &str, content: &str) -> (r: Result<(), String>)
    requires
        file_in_range(content@),
    ensures
        match r {
            Ok(()) => read_file(old(config)@, path@, content@) == (Reading {
                config: final(config)@,
                error: None,
            }),
            Err(message) => read_file(old(config)@, path@, content@) == (Reading {
                config: final(config)@,
                error: Some(message@),
            }),
        },
{
    let lines = file_lines(content);
    assert(texts(lines@).len() == lines@.len());
    match take_lines(config, path, &lines) {
        LineEnd::Refused(message) => Err(message),
        _ => Ok(()),
    }
}

/// Whether the milliseconds of every timeout that is read from a file with this content can
/// be held.
pub fn config_fits(content: &str) -> (r: bool)
    ensures
        r == file_in_range(content@),
{
    let mut scratch = Config::default();
    let lines = file_lines(content);
    match take_lines(&mut scratch, "", &lines) {
        LineEnd::OutOfRange => false,
        _ => true,
    }
}

/// The words of a line that can be read.
pub open spec fn words_of_line(line: Seq<char>) -> Seq<Seq<char>> {
    if says_nothing(line) {
        seq![]
    } else {
        match line_words(trimmed(line)) {
            Ok(words) => words,
            Err(_) => seq![],
        }
    }
}

/// The words of the first `n` lines, one line behind the other.
pub open spec fn words_of_lines(lines: Seq<Seq<char>>, n: nat) -> Seq<Seq<char>>
    decreases n,
{
    if n == 0 {
        seq![]
    } else {
        words_of_lines(lines, (n - 1) as nat) + words_of_line(lines[n - 1])
    }
}

/// A config file whose lines can all be read says what a command line with all its words
/// would say.
pub proof fn law_file_reads_as_one_command_line(
    config: ConfigModel,
    path: Seq<char>,
    lines: Seq<Seq<char>>,
    n: nat,
)
    requires
        n <= lines.len(),
        forall|i: int| 0 <= i < n ==> line_is_good(#[trigger] lines[i]),
    ensures
        read_lines(config, path, lines, n) == read_events(config, words_of_lines(lines, n)),
        read_lines(config, path, lines, n).error is None,
    decreases n,
{
    if n > 0 {
        let m = (n - 1) as nat;
        let line = lines[n - 1];
        let earlier = read_lines(config, path, lines, m);
        law_file_reads_as_one_command_line(config, path, lines, m);
        assert(line_is_good(line));
        lemma_good_line_is_read(earlier.config, path, line, n);
        assert(read_line(earlier.config, path, line, n) == read_events(
            earlier.config,
            words_of_line(line),
        ));
        if words_of_line(line).len() > 0 {
            lemma_resume_begins_no_event(earlier.config, words_of_line(line));
        }
        law_events_in_two_parts(config, words_of_lines(lines, m), words_of_line(line));
    }
}

/// A file is refused at the first line that cannot be read, and the message names the file
/// and that line.
pub proof fn law_first_bad_line_is_named(
    config: ConfigModel,
    path: Seq<char>,
    lines: Seq<Seq<char>>,
    n: nat,
)
    requires
        0 < n <= lines.len(),
        forall|i: int| 0 <= i < n - 1 ==> line_is_good(#[trigger] lines[i]),
        !line_is_good(lines[n - 1]),
    ensures
        exists|message: Seq<char>|
            read_lines(config, path, lines, lines.len()).error == Some(
                #[trigger] located(path, n, message),
            ),
{
    let m = (n - 1) as nat;
    let line = lines[n - 1];
    law_file_reads_as_one_command_line(config, path, lines, m);
    let earlier = read_lines(config, path, lines, m);
    lemma_good_line_is_read(earlier.config, path, line, n);
    lemma_reading_stops(config, path, lines, n, lines.len());
    let message = match line_words(trimmed(line)) {
        Ok(words) => read_events(earlier.config, words).error->0,
        Err(q) => unterminated(q),
    };
    assert(read_line(earlier.config, path, line, n).error == Some(located(path, n, message)));
}

} // verus!
