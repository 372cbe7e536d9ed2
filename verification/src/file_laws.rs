//! Where the config file is, and what its content says line by line.

use vstd::prelude::*;

use crate::config::ConfigModel;
use crate::config_file::{
    below, candidates, file_in_range, first_file, lemma_good_line_is_read, line_in_range,
    line_is_good, lines_in_range, lines_of, read_file, read_line, read_lines, source_of,
};
use crate::events::{events_in_range, read_events, Reading};
use crate::number::decimal;
use crate::text::{trim_back, trim_front, trimmed, white_space};
use crate::text_laws::{blank, lemma_trimmed_behind, lemma_trimmed_in_front};
use crate::word_laws::{law_comment_hides_the_rest, law_white_space_ends_a_word};
use crate::words::line_words;

verus! {

/// A path below a directory has one slash between the two, whether the directory is written
/// with a slash at its end or not. Below no directory it stands alone.
pub proof fn law_paths_are_joined_by_a_slash(base: Seq<char>, relative: Seq<char>)
    requires
        base.len() == 0 || base.last() != '/',
    ensures
        base.len() > 0 ==> below(base, relative) == base + seq!['/'] + relative,
        base.len() > 0 ==> below(base.push('/'), relative) == below(base, relative),
        base.len() == 0 ==> below(base, relative) == relative,
{
    reveal_strlit("/");
    assert("/"@ =~= seq!['/']);
    assert(base.push('/') + relative =~= base + seq!['/'] + relative);
    assert(base.len() == 0 ==> base + relative =~= relative);
}

/// The config file is looked for in the directory for configuration, where that is named and
/// not empty, then in the two places in the home directory, where that is named, and last in
/// the system's.
pub proof fn law_config_file_is_looked_for_in_order(dir: Seq<char>, home: Seq<char>)
    requires
        dir.len() > 0,
    ensures
        candidates(Some(dir), Some(home)) == seq![
            below(dir, "dozed/config"@),
            below(home, ".config/dozed/config"@),
            below(home, ".dozed/config"@),
            "/etc/dozed/config"@,
        ],
        candidates(Some(dir), None) == seq![below(dir, "dozed/config"@), "/etc/dozed/config"@],
        candidates(None, Some(home)) == seq![
            below(home, ".config/dozed/config"@),
            below(home, ".dozed/config"@),
            "/etc/dozed/config"@,
        ],
        candidates(None, None) == seq!["/etc/dozed/config"@],
        candidates(Some(seq![]), Some(home)) == candidates(None, Some(home)),
        candidates(Some(seq![]), None) == candidates(None, None),
{
    assert(candidates(Some(dir), Some(home)) =~= seq![
        below(dir, "dozed/config"@),
        below(home, ".config/dozed/config"@),
        below(home, ".dozed/config"@),
        "/etc/dozed/config"@,
    ]);
    assert(candidates(Some(dir), None) =~= seq![
        below(dir, "dozed/config"@),
        "/etc/dozed/config"@,
    ]);
    assert(candidates(None, Some(home)) =~= seq![
        below(home, ".config/dozed/config"@),
        below(home, ".dozed/config"@),
        "/etc/dozed/config"@,
    ]);
    assert(candidates(None, None) =~= seq!["/etc/dozed/config"@]);
    assert(candidates(Some(seq![]), Some(home)) =~= candidates(None, Some(home)));
    assert(candidates(Some(seq![]), None) =~= candidates(None, None));
}

/// Paths that are no files are passed over.
proof fn lemma_passed_over(paths: Seq<Seq<char>>, is_file: Seq<bool>, i: int, j: int)
    requires
        0 <= i <= j <= paths.len(),
        forall|k: int| i <= k < j ==> !#[trigger] is_file[k],
    ensures
        first_file(paths, is_file, i) == first_file(paths, is_file, j),
    decreases j - i,
{
    if i < j {
        assert(!is_file[i]);
        lemma_passed_over(paths, is_file, i + 1, j);
    }
}

/// The default config file is the first of the paths that is a file; where none is, there is
/// no such file.
pub proof fn law_first_file_is_the_default(paths: Seq<Seq<char>>, is_file: Seq<bool>, i: int)
    requires
        paths.len() == is_file.len(),
        0 <= i <= paths.len(),
        forall|k: int| 0 <= k < i ==> !#[trigger] is_file[k],
    ensures
        i < paths.len() && is_file[i] ==> first_file(paths, is_file, 0) == Some(paths[i]),
        i == paths.len() ==> first_file(paths, is_file, 0) is None,
{
    lemma_passed_over(paths, is_file, 0, i);
}

/// No config file is read where none is to be; else the one that was named is, and where none
/// was named the default.
pub proof fn law_named_file_comes_first(config: ConfigModel, default_path: Option<Seq<char>>)
    ensures
        config.no_config ==> source_of(config, default_path) is None,
        !config.no_config && config.config_path is Some ==> source_of(config, default_path)
            == config.config_path,
        !config.no_config && config.config_path is None ==> source_of(config, default_path)
            == default_path,
{
}

/// A newline ends a line and begins another; text without one is a single line.
pub proof fn law_newlines_part_lines(a: Seq<char>, b: Seq<char>)
    ensures
        !a.contains('\n') ==> lines_of(a) == seq![a],
        lines_of(a).len() > 0,
        lines_of(a + seq!['\n'] + b) == lines_of(a) + lines_of(b),
    decreases a.len() + b.len(),
{
    if a.len() == 0 {
        assert(a =~= seq![]);
        assert(lines_of(a) =~= seq![a]);
    } else {
        let front = a.drop_last();
        law_newlines_part_lines(front, seq![]);
        if !a.contains('\n') {
            assert(a[a.len() - 1] != '\n');
            assert forall|c: char| front.contains(c) implies a.contains(c) by {
                let k = choose|k: int| 0 <= k < front.len() && front[k] == c;
                assert(a[k] == c);
            }
            assert(front.push(a.last()) =~= a);
            assert(lines_of(a) =~= seq![a]);
        }
    }
    let all = a + seq!['\n'] + b;
    if b.len() == 0 {
        assert(all.drop_last() =~= a);
        assert(all.last() == '\n');
        assert(lines_of(b) =~= seq![seq![]]);
        assert(lines_of(all) =~= lines_of(a) + lines_of(b));
    } else {
        let front = b.drop_last();
        law_newlines_part_lines(a, front);
        law_newlines_part_lines(front, seq![]);
        assert(all.drop_last() =~= a + seq!['\n'] + front);
        assert(all.last() == b.last());
        assert(lines_of(all) =~= lines_of(a) + lines_of(b));
    }
}

/// White space in front of a line, or behind it, makes no difference.
pub proof fn law_blanks_around_a_line_do_not_count(
    config: ConfigModel,
    path: Seq<char>,
    a: Seq<char>,
    line: Seq<char>,
    b: Seq<char>,
    lineno: nat,
)
    requires
        blank(a),
        blank(b),
    ensures
        read_line(config, path, a + line + b, lineno) == read_line(config, path, line, lineno),
        line_in_range(a + line + b) == line_in_range(line),
{
    assert(a + line + b =~= a + (line + b));
    lemma_trimmed_in_front(a, line + b);
    lemma_trimmed_tail(line, b);
}

/// White space behind a text is trimmed off, whatever the text is.
proof fn lemma_trimmed_tail(line: Seq<char>, b: Seq<char>)
    requires
        blank(b),
    ensures
        trim_back(trim_front(line + b)) == trim_back(trim_front(line)),
    decreases line.len(),
{
    if line.len() == 0 {
        assert(line + b =~= b);
        assert(b + Seq::<char>::empty() =~= b);
        lemma_trimmed_in_front(b, seq![]);
        assert(trim_front(seq![]) =~= trim_front(line));
    } else if white_space(line[0]) {
        assert((line + b)[0] == line[0]);
        assert((line + b).skip(1) =~= line.skip(1) + b);
        lemma_trimmed_tail(line.skip(1), b);
    } else {
        assert((line + b)[0] == line[0]);
        lemma_trimmed_behind(line, b);
    }
}

/// White space in front of a line is no part of its words.
proof fn lemma_words_behind_white_space(line: Seq<char>)
    ensures
        line_words(trim_front(line)) == line_words(line),
        line.len() > 0 && !white_space(line.last()) ==> trim_front(line).len() > 0 && trim_front(
            line,
        ).last() == line.last(),
    decreases line.len(),
{
    if line.len() > 0 && white_space(line[0]) {
        let tail = line.skip(1);
        lemma_words_behind_white_space(tail);
        assert(line =~= seq![line[0]] + tail);
        law_white_space_ends_a_word(line[0], tail, seq![]);
        if tail.len() > 0 {
            assert(tail.last() == line.last());
        }
    }
}

/// A line says what its words say, read as events: what was read ahead of an error counts, and
/// the error names the file and the line. A line that leaves a quote open is refused likewise.
pub proof fn law_line_says_what_its_words_say(
    config: ConfigModel,
    path: Seq<char>,
    line: Seq<char>,
    lineno: nat,
)
    requires
        line.len() > 0 ==> !white_space(line.last()),
    ensures
        ({
            let place = path + seq![':'] + decimal(lineno) + seq![':', ' '];
            let reading = read_line(config, path, line, lineno);
            match line_words(line) {
                Ok(words) => {
                    &&& reading.config == read_events(config, words).config
                    &&& reading.error is None <==> read_events(config, words).error is None
                    &&& reading.error is Some ==> reading.error->0 == place + read_events(
                        config,
                        words,
                    ).error->0
                    &&& line_in_range(line) == events_in_range(words)
                },
                Err(q) => {
                    &&& reading == (Reading {
                        config,
                        error: Some(place + ("unterminated "@.push(q) + " quote"@)),
                    })
                    &&& line_in_range(line)
                },
            }
        }),
{
    reveal_strlit(":");
    reveal_strlit(": ");
    assert(":"@ =~= seq![':']);
    assert(": "@ =~= seq![':', ' ']);
    lemma_words_behind_white_space(line);
    let front = trim_front(line);
    assert(trimmed(line) =~= front);
    if front.len() > 0 && front[0] == '#' {
        assert(front =~= seq!['#'] + front.skip(1));
        law_comment_hides_the_rest(front.skip(1));
    }
    if front.len() == 0 {
        assert(line_words(front) == Ok::<Seq<Seq<char>>, char>(seq![]));
    }
}

/// Lines ahead of others are read as they would be without these.
proof fn lemma_lines_ahead(
    config: ConfigModel,
    path: Seq<char>,
    lines: Seq<Seq<char>>,
    line: Seq<char>,
    n: nat,
)
    requires
        n <= lines.len(),
    ensures
        read_lines(config, path, lines.push(line), n) == read_lines(config, path, lines, n),
    decreases n,
{
    if n > 0 {
        lemma_lines_ahead(config, path, lines, line, (n - 1) as nat);
        assert(lines.push(line)[n - 1] == lines[n - 1]);
    }
}

/// Lines are read without an error where each of them is good.
proof fn lemma_all_lines_are_good(
    config: ConfigModel,
    path: Seq<char>,
    lines: Seq<Seq<char>>,
    n: nat,
)
    requires
        n <= lines.len(),
    ensures
        read_lines(config, path, lines, n).error is None <==> forall|k: int|
            0 <= k < n ==> line_is_good(#[trigger] lines[k]),
    decreases n,
{
    if n > 0 {
        let m = (n - 1) as nat;
        lemma_all_lines_are_good(config, path, lines, m);
        let earlier = read_lines(config, path, lines, m);
        lemma_good_line_is_read(earlier.config, path, lines[n - 1], n);
        if earlier.error is None && line_is_good(lines[n - 1]) {
            assert forall|k: int| 0 <= k < n implies line_is_good(#[trigger] lines[k]) by {}
        }
        if forall|k: int| 0 <= k < n ==> line_is_good(#[trigger] lines[k]) {
            assert(line_is_good(lines[n - 1]));
        }
    }
}

/// A file is read line by line: its first line of the settings that there were, and each line
/// behind a newline of what those ahead of it have made of them, under its own number. Behind
/// an error nothing more is read.
pub proof fn law_file_is_read_line_by_line(
    config: ConfigModel,
    path: Seq<char>,
    content: Seq<char>,
    line: Seq<char>,
)
    requires
        !line.contains('\n'),
    ensures
        read_file(config, path, line) == read_line(config, path, line, 1),
        file_in_range(line) == line_in_range(line),
        ({
            let longer = content + seq!['\n'] + line;
            let earlier = read_file(config, path, content);
            &&& earlier.error is Some ==> read_file(config, path, longer) == earlier
            &&& earlier.error is Some ==> file_in_range(longer) == file_in_range(content)
            &&& earlier.error is None ==> read_file(config, path, longer) == read_line(
                earlier.config,
                path,
                line,
                (lines_of(content).len() + 1) as nat,
            )
            &&& earlier.error is None ==> (file_in_range(longer) <==> file_in_range(content)
                && line_in_range(line))
        }),
{
    law_newlines_part_lines(line, seq![]);
    law_newlines_part_lines(content, line);
    let lines = lines_of(content);
    let longer = content + seq!['\n'] + line;
    let n = lines.len();
    assert(lines_of(longer) =~= lines.push(line));
    lemma_lines_ahead(config, path, lines, line, n);
    lemma_all_lines_are_good(config, path, lines, n);
    let single = seq![line];
    assert(read_lines(config, path, single, 0) == (Reading { config, error: None }));
    assert(read_lines(config, path, single, 1) == read_line(config, path, single[0], 1));
    assert(lines_in_range(single) <==> line_in_range(line)) by {
        if line_in_range(line) {
            assert forall|i: int|
                0 <= i < single.len() && (forall|k: int|
                    0 <= k < i ==> line_is_good(#[trigger] single[k])) implies line_in_range(
                #[trigger] single[i],
            ) by {}
        }
        if lines_in_range(single) {
            assert(line_in_range(single[0]));
        }
    }
    lemma_range_of_longer(lines, line);
}

/// One more line is in range where those ahead of it are, and it is, or it is never read.
proof fn lemma_range_of_longer(lines: Seq<Seq<char>>, line: Seq<char>)
    ensures
        lines_in_range(lines.push(line)) <==> lines_in_range(lines) && ((forall|k: int|
            0 <= k < lines.len() ==> line_is_good(#[trigger] lines[k])) ==> line_in_range(line)),
{
    let longer = lines.push(line);
    let n = lines.len() as int;
    assert forall|k: int| 0 <= k < n implies longer[k] == #[trigger] lines[k] by {}
    if lines_in_range(longer) {
        assert forall|i: int|
            0 <= i < lines.len() && (forall|k: int|
                0 <= k < i ==> line_is_good(#[trigger] lines[k])) implies line_in_range(
            #[trigger] lines[i],
        ) by {
            assert forall|k: int| 0 <= k < i implies line_is_good(#[trigger] longer[k]) by {
                assert(line_is_good(lines[k]));
            }
            assert(line_in_range(longer[i]));
        }
        if forall|k: int| 0 <= k < lines.len() ==> line_is_good(#[trigger] lines[k]) {
            assert forall|k: int| 0 <= k < n implies line_is_good(#[trigger] longer[k]) by {
                assert(line_is_good(lines[k]));
            }
            assert(line_in_range(longer[n]));
        }
    }
    if lines_in_range(lines) && ((forall|k: int|
        0 <= k < lines.len() ==> line_is_good(#[trigger] lines[k])) ==> line_in_range(line)) {
        assert forall|i: int|
            0 <= i < longer.len() && (forall|k: int|
                0 <= k < i ==> line_is_good(#[trigger] longer[k])) implies line_in_range(
            #[trigger] longer[i],
        ) by {
            assert forall|k: int| 0 <= k < i && k < n implies line_is_good(
                #[trigger] lines[k],
            ) by {
                assert(line_is_good(longer[k]));
            }
            if i < n {
                assert(line_in_range(lines[i]));
            }
        }
    }
}

} // verus!
