use dozed::args::parse_args;
use dozed::config::Config;
use dozed::events::{events_fit, parse_events};
use dozed::config_file::{
    config_candidates, config_fits, config_source, default_config_path, load_config, path_below,
    read_failure,
};
use dozed::number::{parse_i32, write_i64, write_u64};
use dozed::report::{command_line, print_events, timeout_line};
use dozed::text::{chars_of, is_white_space, strip, trim_between};
use dozed::words::shell_words;

fn args(values: &[&str]) -> Vec<String> {
    values.iter().map(|value| value.to_string()).collect()
}

fn trim(text: &str) -> String {
    let chars = chars_of(text);
    trim_between(&chars, 0, chars.len())
}

#[test]
fn parses_shell_words_with_quotes() {
    let words = shell_words("timeout 5 'notify-send dozed idle' resume \"wake up\"")
        .unwrap();

    assert_eq!(
        words,
        args(&[
            "timeout",
            "5",
            "notify-send dozed idle",
            "resume",
            "wake up",
        ])
    );
}

#[test]
fn rejects_unterminated_quote() {
    let err = shell_words("timeout 5 'broken").unwrap_err();

    assert!(err.contains("unterminated"));
}

#[test]
fn the_open_quote_is_named() {
    assert_eq!(shell_words("a 'b"), Err("unterminated ' quote".to_string()));
    assert_eq!(shell_words("a \"b' # c"), Err("unterminated \" quote".to_string()));
    assert_eq!(shell_words("'"), Err("unterminated ' quote".to_string()));
    assert_eq!(shell_words("\"a\\\""), Err("unterminated \" quote".to_string()));
}

#[test]
fn blanks_separate_words() {
    assert_eq!(shell_words(""), Ok(args(&[])));
    assert_eq!(shell_words(" \t "), Ok(args(&[])));
    assert_eq!(shell_words(" a\t b\u{3000}c\n"), Ok(args(&["a", "b", "c"])));
}

#[test]
fn comments_begin_where_a_word_would() {
    assert_eq!(shell_words("# all of it"), Ok(args(&[])));
    assert_eq!(shell_words("a # 'b"), Ok(args(&["a"])));
    assert_eq!(shell_words("a#b"), Ok(args(&["a#b"])));
    assert_eq!(shell_words("'#' \\# \"a #b\""), Ok(args(&["#", "#", "a #b"])));
    assert_eq!(shell_words("''#a"), Ok(args(&[])));
}

#[test]
fn quotes_join_and_nest() {
    assert_eq!(shell_words("a'b c'd"), Ok(args(&["ab cd"])));
    assert_eq!(shell_words("'say \"hi\"' \"it's\""), Ok(args(&["say \"hi\"", "it's"])));
    assert_eq!(shell_words("'' \"\" a"), Ok(args(&["a"])));
}

#[test]
fn backslashes_escape() {
    assert_eq!(shell_words("a\\ b"), Ok(args(&["a b"])));
    assert_eq!(shell_words("'it\\'s'"), Ok(args(&["it's"])));
    assert_eq!(shell_words("\\\\n"), Ok(args(&["\\n"])));
    assert_eq!(shell_words("a\\"), Ok(args(&["a"])));
    assert_eq!(shell_words("\\"), Ok(args(&[])));
}

#[test]
fn escaped_words_are_read_back() {
    let words = args(&["plain", "two words", "'", "\"quoted\"", "#", "\\", "\u{e9}\u{2028}x"]);
    let mut line = String::new();
    for word in &words {
        for c in word.chars() {
            line.push('\\');
            line.push(c);
        }
        line.push(' ');
    }
    assert_eq!(shell_words(&line), Ok(words.clone()));
    line.push_str("# and a comment");
    assert_eq!(shell_words(&line), Ok(words));
}

#[test]
fn quoted_text_is_one_word() {
    for text in ["a b", "#x", "  ", "say \"hi\""] {
        assert_eq!(shell_words(&format!("'{text}'")), Ok(args(&[text])));
    }
    assert_eq!(shell_words("\"it's\""), Ok(args(&["it's"])));
}

#[test]
fn white_space_is_that_of_unicode() {
    for n in 0..=0x10ffffu32 {
        if let Some(c) = char::from_u32(n) {
            assert_eq!(is_white_space(c), c.is_whitespace());
        }
    }
}

#[test]
fn trimming_is_that_of_strings() {
    for text in ["", " ", "a", " a ", "\t a b\u{a0}\r", "\u{2003}x", "x \u{200b}"] {
        assert_eq!(trim(text), text.trim());
    }
}

#[test]
fn prefixes_are_taken_off() {
    assert_eq!(strip("--a=b=c", "--a=").as_deref(), Some("b=c"));
    assert_eq!(strip("--a=", "--a=").as_deref(), Some(""));
    assert_eq!(strip("--a", "--a="), None);
    assert_eq!(strip("--b=c", "--a="), None);
    assert_eq!(strip("", "").as_deref(), Some(""));
}

#[test]
fn numbers_are_written_and_read_as_usual() {
    for n in [0, 1, -1, 9, 10, -10, 12345, i32::MAX, i32::MIN] {
        assert_eq!(write_i64(n as i64), n.to_string());
        assert_eq!(parse_i32(&write_i64(n as i64)), Some(n));
    }
    assert_eq!(write_i64(i64::MIN), i64::MIN.to_string());
    assert_eq!(write_i64(i64::MAX), i64::MAX.to_string());
    assert_eq!(write_u64(u64::MAX), u64::MAX.to_string());
    assert_eq!(parse_i32("-2147483649"), None);
    assert_eq!(parse_i32("2147483648"), None);
    assert_eq!(parse_i32("+12"), Some(12));
    assert_eq!(parse_i32("12a"), None);
}

#[test]
fn files_are_read_line_by_line() {
    let content = "# dozed\r\n\r\n  timeout 300 'swaylock -f' resume \"wake up\"  # lock\r\n\n\
                   before-sleep 'swaylock -f'\n\ttimeout 600 off\nlock a\nlock b";
    let mut config = Config::default();
    load_config(&mut config, "conf", content).unwrap();
    assert_eq!(
        print_events(&config),
        args(&[
            "fullscreen-policy suppress",
            "timeout 300 \"swaylock -f\" resume \"wake up\"",
            "timeout 600 \"off\"",
            "before-sleep \"swaylock -f\"",
            "lock \"b\"",
        ])
    );
}

#[test]
fn a_file_reads_as_one_command_line() {
    let mut config = Config::default();
    load_config(&mut config, "conf", "timeout 1 a resume b\n# c\n\nlock 'd e' unlock f\n").unwrap();
    let words =
        args(&["dozed", "timeout", "1", "a", "resume", "b", "lock", "d e", "unlock", "f"]);
    assert_eq!(print_events(&config), print_events(&parse_args(&words).unwrap()));
}

#[test]
fn a_file_adds_to_the_command_line() {
    let mut config =
        parse_args(&args(&["dozed", "-d", "timeout", "1", "a", "lock", "b"])).unwrap();
    load_config(&mut config, "conf", "timeout 2 c\nlock d").unwrap();
    assert!(config.debug);
    assert_eq!(config.timeouts.len(), 2);
    assert_eq!(config.timeouts[0].timeout_ms, 1000);
    assert_eq!(config.timeouts[1].timeout_ms, 2000);
    assert_eq!(config.lock_cmd.as_deref(), Some("d"));
}

#[test]
fn the_first_bad_line_is_named() {
    let mut config = Config::default();
    let err = load_config(&mut config, "/etc/x", "lock a\n\n timeout ten b\nlock c").unwrap_err();
    assert_eq!(err, "/etc/x:3: invalid timeout value 'ten', expected seconds");
    assert_eq!(config.lock_cmd.as_deref(), Some("a"));
    let err = load_config(&mut config, "x", "lock 'a\nnonsense").unwrap_err();
    assert_eq!(err, "x:1: unterminated ' quote");
    let err = load_config(&mut config, "x", "timeout 1 a\nresume b").unwrap_err();
    assert_eq!(err, "x:2: unsupported command: resume");
}

#[test]
fn milliseconds_have_a_limit_in_files() {
    assert!(config_fits("timeout 2147483 a\n# timeout 2147484 b\n"));
    assert!(!config_fits("lock a\ntimeout 2147484 b\n"));
    assert!(config_fits("nonsense\ntimeout 2147484 b\n"));
    assert!(config_fits(""));
}

#[test]
fn paths_are_joined_as_usual() {
    for base in ["", "/", "/home/me", "/home/me/", "relative", "a//"] {
        let expected = std::path::PathBuf::from(base).join("dozed/config");
        assert_eq!(path_below(base, "dozed/config"), expected.to_string_lossy());
    }
}

#[test]
fn the_config_file_is_looked_for_in_order() {
    let some = |text: &str| Some(text.to_string());
    assert_eq!(
        config_candidates(&some("/x"), &some("/home/me")),
        args(&[
            "/x/dozed/config",
            "/home/me/.config/dozed/config",
            "/home/me/.dozed/config",
            "/etc/dozed/config",
        ])
    );
    assert_eq!(config_candidates(&some(""), &None), args(&["/etc/dozed/config"]));
    assert_eq!(
        config_candidates(&None, &some("")),
        args(&[".config/dozed/config", ".dozed/config", "/etc/dozed/config"])
    );
    let paths = args(&["a", "b", "c"]);
    assert_eq!(default_config_path(&paths, &[false, true, true]).as_deref(), Some("b"));
    assert_eq!(default_config_path(&paths, &[false, false, false]), None);
    assert_eq!(default_config_path(&[], &[]), None);
}

#[test]
fn the_named_config_file_goes_first() {
    let default = Some("default".to_string());
    let config = parse_args(&args(&["dozed"])).unwrap();
    assert_eq!(config_source(&config, default.clone()).as_deref(), Some("default"));
    assert_eq!(config_source(&config, None), None);
    let config = parse_args(&args(&["dozed", "-C", "mine"])).unwrap();
    assert_eq!(config_source(&config, default.clone()).as_deref(), Some("mine"));
    let config = parse_args(&args(&["dozed", "-C", "mine", "--no-config"])).unwrap();
    assert_eq!(config_source(&config, default), None);
    assert_eq!(read_failure("p", "gone"), "failed to read config p: gone");
}

/// `text` between double quotes, with a backslash before each double quote and backslash.
fn quoted(text: &str) -> String {
    let mut line = "\"".to_string();
    for c in text.chars() {
        if c == '"' || c == '\\' {
            line.push('\\');
        }
        line.push(c);
    }
    line.push('"');
    line
}

fn read_again(lines: &[String]) -> Config {
    let mut config = Config::default();
    for line in lines {
        let words = shell_words(line).unwrap();
        assert!(events_fit(&words));
        parse_events(&mut config, &words).unwrap();
    }
    config
}

#[test]
fn quoted_lines_are_read_back() {
    let text = "a \"b\" \\ 'c' # \u{e9}\n";
    assert_eq!(shell_words(&quoted(text)), Ok(args(&[text])));
    assert_eq!(
        shell_words(&timeout_line(7, &quoted(text), Some(&quoted("#")))),
        Ok(args(&["timeout", "7", text, "resume", "#"]))
    );
    assert_eq!(
        shell_words(&command_line("before-sleep", &quoted(text))),
        Ok(args(&["before-sleep", text]))
    );
    assert_eq!(shell_words(&quoted("")), Ok(vec![]));
}

#[test]
fn printable_text_is_written_between_quotes() {
    for a in ' '..='~' {
        for b in ' '..='~' {
            let text = format!("{a}{b}");
            let mut config = Config::default();
            config.lock_cmd = Some(text.clone());
            assert_eq!(print_events(&config)[1], format!("lock {}", quoted(&text)));
        }
    }
}

#[test]
fn a_printed_report_is_read_back() {
    let all: String = (' '..='~').collect();
    for text in [all.as_str(), "\"", "\\", "#", " ", "'", "it's \"so\" # not\\"] {
        let config = parse_args(&args(&[
            "dozed", "timeout", "0", text, "timeout", "2147483", "x", "resume", text, "timeout",
            "5", text, "before-sleep", text, "after-resume", text, "lock", text, "unlock", text,
        ]))
        .unwrap();
        let lines = print_events(&config);
        let again = read_again(&lines[1..]);
        assert_eq!(again.timeouts.len(), 3);
        for (a, b) in again.timeouts.iter().zip(config.timeouts.iter()) {
            assert_eq!(a.timeout_ms, b.timeout_ms);
            assert_eq!(a.idle_cmd, b.idle_cmd);
            assert_eq!(a.resume_cmd, b.resume_cmd);
        }
        assert_eq!(again.before_sleep_cmd.as_deref(), Some(text));
        assert_eq!(again.after_resume_cmd.as_deref(), Some(text));
        assert_eq!(again.lock_cmd.as_deref(), Some(text));
        assert_eq!(again.unlock_cmd.as_deref(), Some(text));
        assert_eq!(print_events(&again), lines);
    }
}
