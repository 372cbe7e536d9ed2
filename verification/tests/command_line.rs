use dozed::args::{args_fit, parse_args, print_help};
use dozed::config::{
    fullscreen_policy_name, has_events, parse_fullscreen_policy, Config, FullscreenPolicy,
    TimeoutCmd,
};
use dozed::events::{events_fit, parse_events, parse_seconds};
use dozed::report::{command_line, print_events, timeout_line};
use dozed::startup::{startup, Plan};

fn args(values: &[&str]) -> Vec<String> {
    values.iter().map(|value| value.to_string()).collect()
}

fn refusal(values: &[&str]) -> String {
    match parse_args(&args(values)) {
        Ok(_) => panic!("expected a refusal"),
        Err(err) => err,
    }
}

#[test]
fn parses_timeout_with_resume() {
    let config = parse_args(&args(&[
        "dozed",
        "--no-config",
        "timeout",
        "5",
        "lock",
        "resume",
        "wake",
    ]))
    .unwrap();

    assert!(config.no_config);
    assert_eq!(config.timeouts.len(), 1);
    assert_eq!(config.timeouts[0].timeout_ms, 5000);
    assert_eq!(config.timeouts[0].idle_cmd.as_deref(), Some("lock"));
    assert_eq!(config.timeouts[0].resume_cmd.as_deref(), Some("wake"));
}

#[test]
fn parses_fullscreen_policy() {
    let config = parse_args(&args(&[
        "dozed",
        "--fullscreen-policy=ignore",
        "timeout",
        "1",
        "idle",
    ]))
    .unwrap();

    assert_eq!(config.fullscreen_policy, FullscreenPolicy::Ignore);
}

#[test]
fn rejects_bad_fullscreen_policy() {
    let err = match parse_args(&args(&["dozed", "--fullscreen-policy", "wat"])) {
        Ok(_) => panic!("expected fullscreen policy parse failure"),
        Err(err) => err,
    };

    assert!(err.contains("invalid fullscreen policy"));
}

#[test]
fn rejects_idlehint_as_unknown() {
    let err = match parse_args(&args(&["dozed", "idlehint", "5"])) {
        Ok(_) => panic!("expected idlehint parse failure"),
        Err(err) => err,
    };

    assert_eq!(err, "unsupported command: idlehint");
}

#[test]
fn no_arguments_set_nothing() {
    for argv in [args(&[]), args(&["dozed"])] {
        let config = parse_args(&argv).unwrap();
        assert!(!config.help && !config.wait && !config.debug && !config.no_config);
        assert!(!config.dry_run && !config.print_events && !config.validate_config);
        assert_eq!(config.fullscreen_policy, FullscreenPolicy::Suppress);
        assert_eq!(config.seat_name, None);
        assert_eq!(config.config_path, None);
        assert!(!has_events(&config));
    }
}

#[test]
fn options_are_taken_in_any_order() {
    let config = parse_args(&args(&[
        "dozed",
        "-w",
        "-S",
        "seat1",
        "-d",
        "-C",
        "/tmp/config",
        "--validate-config",
        "--ignore-fullscreen",
        "lock",
        "locker",
    ]))
    .unwrap();
    assert!(config.wait && config.debug && config.validate_config);
    assert!(!config.dry_run && !config.print_events);
    assert_eq!(config.fullscreen_policy, FullscreenPolicy::Ignore);
    assert_eq!(config.seat_name.as_deref(), Some("seat1"));
    assert_eq!(config.config_path.as_deref(), Some("/tmp/config"));
    assert_eq!(config.lock_cmd.as_deref(), Some("locker"));
}

#[test]
fn the_last_option_wins() {
    let config =
        parse_args(&args(&["dozed", "--ignore-fullscreen", "--fullscreen-policy", "suppress"]))
            .unwrap();
    assert_eq!(config.fullscreen_policy, FullscreenPolicy::Suppress);
    let config = parse_args(&args(&["dozed", "-C", "a", "-C", "b"])).unwrap();
    assert_eq!(config.config_path.as_deref(), Some("b"));
}

#[test]
fn dry_run_prints_and_validates() {
    let config = parse_args(&args(&["dozed", "--dry-run"])).unwrap();
    assert!(config.dry_run && config.print_events && config.validate_config);
    let config = parse_args(&args(&["dozed", "--print-events"])).unwrap();
    assert!(config.print_events && !config.dry_run && !config.validate_config);
}

#[test]
fn help_ends_the_scan() {
    for word in ["-h", "--help"] {
        let config = parse_args(&args(&["dozed", "-d", word, "--no-such-option"])).unwrap();
        assert!(config.help && config.debug);
    }
    assert!(!parse_args(&args(&["dozed", "lock", "-h"])).unwrap().help);
    assert_eq!(refusal(&["dozed", "--no-such-option", "-h"]), "unknown option: --no-such-option");
}

#[test]
fn the_two_forms_of_the_policy_agree() {
    for name in ["suppress", "ignore"] {
        let apart = parse_args(&args(&["dozed", "--fullscreen-policy", name, "lock", "x"])).unwrap();
        let joined = format!("--fullscreen-policy={name}");
        let joined = parse_args(&args(&["dozed", &joined, "lock", "x"])).unwrap();
        assert_eq!(apart.fullscreen_policy, joined.fullscreen_policy);
        assert_eq!(apart.lock_cmd, joined.lock_cmd);
    }
    assert_eq!(
        refusal(&["dozed", "--fullscreen-policy=a=b"]),
        "invalid fullscreen policy 'a=b', expected suppress or ignore"
    );
    assert_eq!(
        refusal(&["dozed", "--fullscreen-policy="]),
        "invalid fullscreen policy '', expected suppress or ignore"
    );
}

#[test]
fn wrong_options_are_named() {
    assert_eq!(
        refusal(&["dozed", "--fullscreen-policy"]),
        "--fullscreen-policy requires suppress or ignore"
    );
    assert_eq!(refusal(&["dozed", "-C"]), "-C requires a path");
    assert_eq!(refusal(&["dozed", "-S"]), "-S requires a seat name");
    assert_eq!(refusal(&["dozed", "-x", "timeout"]), "unknown option: -x");
    assert_eq!(refusal(&["dozed", "-"]), "unknown option: -");
    assert_eq!(refusal(&["dozed", ""]), "unsupported command: ");
}

#[test]
fn wrong_events_are_named() {
    assert_eq!(
        refusal(&["dozed", "timeout", "5"]),
        "timeout requires <seconds> <command>"
    );
    assert_eq!(
        refusal(&["dozed", "timeout", "five", "x"]),
        "invalid timeout value 'five', expected seconds"
    );
    for word in ["before-sleep", "after-resume", "lock", "unlock"] {
        assert_eq!(refusal(&["dozed", word]), format!("{word} requires <command>"));
    }
    assert_eq!(
        refusal(&["dozed", "timeout", "5", "x", "resume"]),
        "unsupported command: resume"
    );
    assert_eq!(refusal(&["dozed", "lock", "x", "-d"]), "unsupported command: -d");
}

#[test]
fn events_ahead_of_an_error_count() {
    let mut config = Config::default();
    let result = parse_events(&mut config, &args(&["lock", "a", "timeout", "2", "b", "nonsense"]));
    assert_eq!(result.unwrap_err(), "unsupported command: nonsense");
    assert_eq!(config.lock_cmd.as_deref(), Some("a"));
    assert_eq!(config.timeouts.len(), 1);
    assert_eq!(config.timeouts[0].timeout_ms, 2000);
}

#[test]
fn events_may_come_in_two_parts() {
    let first = args(&["timeout", "3", "a", "resume", "b", "before-sleep", "c"]);
    let second = args(&["timeout", "0", "d", "before-sleep", "e", "unlock", "f"]);
    let mut apart = Config::default();
    parse_events(&mut apart, &first).unwrap();
    parse_events(&mut apart, &second).unwrap();
    let mut whole = Config::default();
    let both = [first, second].concat();
    parse_events(&mut whole, &both).unwrap();
    assert_eq!(print_events(&apart), print_events(&whole));
    assert_eq!(whole.before_sleep_cmd.as_deref(), Some("e"));
    assert_eq!(whole.timeouts.len(), 2);
    assert_eq!(whole.timeouts[0].timeout_ms, 3000);
    assert_eq!(whole.timeouts[1].timeout_ms, -1);
}

#[test]
fn a_command_may_be_named_like_an_event() {
    let config = parse_args(&args(&[
        "dozed", "timeout", "1", "timeout", "resume", "resume", "timeout", "2", "lock",
    ]))
    .unwrap();
    assert_eq!(config.timeouts.len(), 2);
    assert_eq!(config.timeouts[0].idle_cmd.as_deref(), Some("timeout"));
    assert_eq!(config.timeouts[0].resume_cmd.as_deref(), Some("resume"));
    assert_eq!(config.timeouts[1].idle_cmd.as_deref(), Some("lock"));
    assert_eq!(config.timeouts[1].resume_cmd, None);
}

#[test]
fn a_new_timeout_is_untouched() {
    let timeout = TimeoutCmd::default();
    assert_eq!(timeout.timeout_ms, -1);
    assert_eq!(timeout.registered_timeout_ms, -1);
    assert_eq!(timeout.idle_cmd, None);
    assert_eq!(timeout.resume_cmd, None);
    assert!(!timeout.resume_pending && !timeout.suppressed_by_fullscreen);
    assert_eq!(timeout.notification, None);
}

#[test]
fn seconds_are_read_as_integers_are() {
    for text in [
        "0", "7", "+7", "-0", "-00", "007", "2147483647", "2147483648", "-1", "-2147483648", "",
        "+", "-", "--1", "+-1", " 7", "7 ", "1_000", "0x10", "1.5", "99999999999999999999",
        "00000000000000000000000000000000000000012", "-99999999999", "\u{665}",
    ] {
        let expected = match text.parse::<i32>() {
            Ok(n) if n >= 0 => Ok(n),
            _ => Err(format!("invalid timeout value '{text}', expected seconds")),
        };
        assert_eq!(parse_seconds(text, "timeout"), expected);
    }
}

#[test]
fn seconds_that_are_written_are_read_back() {
    for n in [0, 1, 9, 10, 99, 100, 86400, i32::MAX] {
        assert_eq!(parse_seconds(&n.to_string(), "timeout"), Ok(n));
    }
}

#[test]
fn milliseconds_have_a_limit() {
    assert!(events_fit(&args(&["timeout", "2147483", "x"])));
    assert!(!events_fit(&args(&["timeout", "2147484", "x"])));
    assert!(!events_fit(&args(&["lock", "y", "timeout", "2147484", "x", "nonsense"])));
    assert!(events_fit(&args(&["nonsense", "timeout", "2147484", "x"])));
    assert!(!args_fit(&args(&["dozed", "-d", "timeout", "2147484", "x"])));
    assert!(args_fit(&args(&["dozed", "-x", "timeout", "2147484", "x"])));
    assert!(args_fit(&args(&["dozed", "-h", "timeout", "2147484", "x"])));
    let config = parse_args(&args(&["dozed", "timeout", "2147483", "x"])).unwrap();
    assert_eq!(config.timeouts[0].timeout_ms, 2147483000);
}

#[test]
fn policies_are_read_back_from_their_names() {
    for policy in [FullscreenPolicy::Suppress, FullscreenPolicy::Ignore] {
        assert_eq!(parse_fullscreen_policy(fullscreen_policy_name(policy)), Ok(policy));
    }
    assert_eq!(fullscreen_policy_name(FullscreenPolicy::Suppress), "suppress");
    assert_eq!(
        parse_fullscreen_policy("Ignore"),
        Err("invalid fullscreen policy 'Ignore', expected suppress or ignore".to_string())
    );
    assert_eq!(FullscreenPolicy::default(), FullscreenPolicy::Suppress);
}

#[test]
fn any_event_is_something_to_wait_for() {
    for event in ["before-sleep", "after-resume", "lock", "unlock"] {
        assert!(has_events(&parse_args(&args(&["dozed", event, "x"])).unwrap()));
    }
    assert!(has_events(&parse_args(&args(&["dozed", "timeout", "0", "x"])).unwrap()));
    assert!(!has_events(&parse_args(&args(&["dozed", "-d"])).unwrap()));
}

#[test]
fn settings_are_written_out() {
    let config = parse_args(&args(&[
        "dozed",
        "--fullscreen-policy=ignore",
        "timeout",
        "300",
        "say \"hi\"\t\\",
        "resume",
        "wake",
        "timeout",
        "0",
        "never",
        "unlock",
        "u",
        "before-sleep",
        "b",
        "lock",
        "l",
        "after-resume",
        "a",
    ]))
    .unwrap();
    assert_eq!(
        print_events(&config),
        args(&[
            "fullscreen-policy ignore",
            "timeout 300 \"say \\\"hi\\\"\\t\\\\\" resume \"wake\"",
            "timeout 0 \"never\"",
            "before-sleep \"b\"",
            "after-resume \"a\"",
            "lock \"l\"",
            "unlock \"u\"",
        ])
    );
    assert_eq!(print_events(&Config::default()), args(&["fullscreen-policy suppress"]));
}

#[test]
fn a_timeout_without_a_command_is_not_written_out() {
    let mut config = Config::default();
    config.timeouts.push(TimeoutCmd::default());
    assert_eq!(print_events(&config), args(&["fullscreen-policy suppress"]));
}

#[test]
fn seconds_are_shown_as_they_were_read() {
    for seconds in [0, 1, 59, 3600, 2147483] {
        let text = seconds.to_string();
        let config = parse_args(&args(&["dozed", "timeout", &text, "x"])).unwrap();
        assert_eq!(print_events(&config)[1], format!("timeout {seconds} \"x\""));
    }
}

#[test]
fn lines_are_put_together() {
    assert_eq!(timeout_line(10, "<a>", None), "timeout 10 <a>");
    assert_eq!(timeout_line(4294967295, "a", Some("b")), "timeout 4294967295 a resume b");
    assert_eq!(command_line("lock", "<c>"), "lock <c>");
}

#[test]
fn the_help_text_names_the_program() {
    let lines = print_help("/usr/bin/dozed");
    assert_eq!(lines.len(), 12);
    assert_eq!(lines[0], "Usage: /usr/bin/dozed [OPTIONS] [EVENTS...]");
    assert_eq!(lines[1], "  -h, --help                         this help menu");
    assert_eq!(lines[11], "      --fullscreen-policy <policy>   suppress or ignore");
}

#[test]
fn settings_lead_to_a_plan() {
    let plan = |values: &[&str]| startup(&parse_args(&args(values)).unwrap());
    assert_eq!(plan(&["dozed"]), (vec![], Plan::NothingToDo));
    assert_eq!(plan(&["dozed", "lock", "x"]), (vec![], Plan::Run));
    assert_eq!(plan(&["dozed", "--validate-config", "lock", "x"]), (vec![], Plan::Quit));
    let printed = args(&["fullscreen-policy suppress", "lock \"x\""]);
    assert_eq!(plan(&["dozed", "--print-events", "lock", "x"]), (printed.clone(), Plan::Quit));
    assert_eq!(plan(&["dozed", "--dry-run", "lock", "x"]), (printed, Plan::Quit));
    assert_eq!(plan(&["dozed", "-S", "se\0at", "lock", "x"]), (vec![], Plan::BadSeatName));
    assert_eq!(plan(&["dozed", "-S", "se\0at"]), (vec![], Plan::NothingToDo));
    assert_eq!(plan(&["dozed", "-S", "seat0", "lock", "x"]), (vec![], Plan::Run));
    assert_eq!(Plan::NothingToDo.message(), Some("no command specified; nothing to do"));
    assert_eq!(Plan::BadSeatName.message(), Some("seat name contains an interior NUL byte"));
    assert_eq!(Plan::Quit.message(), None);
    assert_eq!(Plan::BadSeatName.exit_code(), 1);
    assert_eq!(Plan::NothingToDo.exit_code(), 0);
}
