use std::collections::VecDeque;

use dozed::app::{App, Effect, LogindPlan};
use dozed::args::parse_args;
use dozed::callbacks::{
    crash_signal_handler, idle_callback, logind_callback, next_callback, signal_handler,
    SignalRequest,
};
use dozed::event_loop::{
    AfterDrain, AfterSync, Answer, Ask, CallbackEvent, LoopError, Step, EINTR, POLLIN,
};
use dozed::log::{local_timestamp, log, LogLevel};
use dozed::process::{
    crash_dir, crash_entry, crash_log, exec_command, exec_ended, exec_started, shell_command,
    ChildPlan,
};
use dozed::startup::{check_connection, connected, session_ended, Check};

const POLLERR: i16 = 0x008;
const POLLHUP: i16 = 0x010;
const POLLNVAL: i16 = 0x020;

fn session(values: &[&str]) -> App {
    let mut argv = vec!["dozed".to_string()];
    argv.extend(values.iter().map(|value| value.to_string()));
    App::new(parse_args(&argv).unwrap().session(), Some(1))
}

fn two_timeouts() -> App {
    session(&[
        "timeout", "5", "dim", "resume", "bright", "timeout", "10", "off", "resume", "on",
    ])
}

fn note(level: LogLevel, message: &str) -> Effect {
    Effect::Log { current: LogLevel::Info, level, message: message.to_string() }
}

fn exec(command: &str) -> Effect {
    Effect::Exec { command: command.to_string(), wait: false, level: LogLevel::Info }
}

fn asked(idx: usize, timeout_ms: i32, obey_inhibitors: bool) -> Vec<Effect> {
    vec![
        note(LogLevel::Debug, &format!("register timeout: {timeout_ms} ms")),
        Effect::CreateNotification { wl: Some(1), idx, data: idx + 1, timeout_ms, obey_inhibitors },
    ]
}

/// Reports a handle for every notification that is asked for.
fn create(app: &mut App, effects: &[Effect], first: usize) {
    let mut handle = first;
    for effect in effects {
        if let Effect::CreateNotification { idx, timeout_ms, .. } = effect {
            assert_eq!(app.notification_created(*idx, *timeout_ms, Some(handle)), vec![]);
            handle += 1;
        }
    }
}

fn registered() -> App {
    let mut app = two_timeouts();
    let effects = app.register_all();
    create(&mut app, &effects, 10);
    app
}

fn next(app: &mut App, ask: Ask, answer: Answer) -> (Vec<Effect>, Ask) {
    let Step { effects, next } = app.event_loop(ask, answer);
    (effects, next)
}

fn is_exec(effect: &Effect) -> bool {
    matches!(effect, Effect::Exec { .. })
}

#[test]
fn a_session_starts_afresh() {
    let mut argv: Vec<String> = vec!["dozed".to_string(), "-d".to_string(), "-w".to_string()];
    argv.extend(["timeout", "5", "dim", "lock", "l"].iter().map(|word| word.to_string()));
    let mut config = parse_args(&argv).unwrap();
    config.timeouts[0].resume_pending = true;
    config.timeouts[0].suppressed_by_fullscreen = true;
    config.timeouts[0].registered_timeout_ms = 7;
    config.timeouts[0].notification = Some(9);
    let app = App::new(config.session(), Some(3));
    assert_eq!(app.wl, Some(3));
    assert_eq!(app.logind, None);
    assert!(app.wait && !app.fullscreen_active);
    assert_eq!(app.log_level, LogLevel::Debug);
    assert_eq!(app.lock_cmd.as_deref(), Some("l"));
    assert_eq!(app.timeouts[0].timeout_ms, 5000);
    assert_eq!(app.timeouts[0].registered_timeout_ms, -1);
    assert_eq!(app.timeouts[0].notification, None);
    assert!(!app.timeouts[0].resume_pending && !app.timeouts[0].suppressed_by_fullscreen);
    assert_eq!(session(&[]).log_level, LogLevel::Info);
}

#[test]
fn all_timeouts_are_registered() {
    let mut app = two_timeouts();
    let effects = app.register_all();
    assert_eq!(effects, [asked(0, 5000, true), asked(1, 10000, true)].concat());
    create(&mut app, &effects, 10);
    assert_eq!(app.timeouts[0].notification, Some(10));
    assert_eq!(app.timeouts[1].notification, Some(11));
    assert_eq!(app.timeouts[1].registered_timeout_ms, 10000);
}

#[test]
fn a_timeout_that_never_fires_is_not_registered() {
    let mut app = session(&["timeout", "0", "never"]);
    assert_eq!(app.register_all(), vec![]);
    assert_eq!(app.timeouts[0].registered_timeout_ms, -1);
}

#[test]
fn a_registration_takes_the_place_of_another() {
    let mut app = registered();
    let effects = app.register_timeout(1, 77, false);
    assert_eq!(effects, [vec![Effect::DestroyNotification(11)], asked(1, 77, false)].concat());
    assert_eq!(app.timeouts[1].notification, None);
    assert_eq!(app.register_timeout(1, -1, true), vec![]);
    assert_eq!(app.register_timeout(2, 5, true), vec![]);
    assert_eq!(app.register_timeout(0, -5, true), vec![Effect::DestroyNotification(10)]);
    assert_eq!(app.timeouts[0].registered_timeout_ms, 5000);
}

#[test]
fn a_failed_registration_is_logged() {
    let mut app = two_timeouts();
    let effects = app.notification_created(0, 5000, None);
    assert_eq!(effects, vec![note(LogLevel::Error, "failed to create idle notification")]);
    assert_eq!(app.timeouts[0].notification, None);
    assert_eq!(app.timeouts[0].registered_timeout_ms, -1);
}

#[test]
fn a_timeout_that_fires_runs_its_command() {
    let mut app = registered();
    let effects = app.handle_idle(0, false);
    assert_eq!(effects, vec![note(LogLevel::Debug, "idle state"), exec("dim")]);
    assert!(app.timeouts[0].resume_pending);
    assert_eq!(app.timeouts[0].notification, Some(10));
    let effects = app.handle_resume(0);
    assert_eq!(effects, vec![note(LogLevel::Debug, "active state"), exec("bright")]);
    assert!(!app.timeouts[0].resume_pending);
    assert_eq!(app.handle_idle(2, false), vec![]);
    assert_eq!(app.handle_resume(2), vec![]);
}

#[test]
fn a_fullscreen_window_suppresses_idle_commands() {
    let mut app = registered();
    let effects = app.handle_idle(1, true);
    assert_eq!(
        effects,
        vec![
            note(LogLevel::Debug, "fullscreen toplevel active; skipping idle command"),
            Effect::DestroyNotification(11),
        ]
    );
    assert!(app.fullscreen_active);
    assert!(app.timeouts[1].suppressed_by_fullscreen && !app.timeouts[1].resume_pending);
    assert_eq!(app.sync_fullscreen_state(true), vec![]);
    let effects = app.sync_fullscreen_state(false);
    let flush = vec![Effect::FlushWayland(Some(1))];
    assert_eq!(effects, [asked(1, 10000, true), flush].concat());
    assert!(!app.fullscreen_active && !app.timeouts[1].suppressed_by_fullscreen);
    assert_eq!(app.sync_fullscreen_state(false), vec![]);
}

#[test]
fn suppressed_timeouts_start_again_whatever_happens_in_between() {
    let mut app = registered();
    app.handle_idle(0, true);
    app.handle_idle(1, true);
    app.handle_idle(1, false);
    assert!(app.fullscreen_active && app.timeouts[0].suppressed_by_fullscreen);
    let closed = Ask::Closed { wayland: POLLHUP, logind: None };
    assert_eq!(next(&mut app, closed, Answer::Done).1, Ask::Connect);
    let (effects, ask) = next(&mut app, Ask::HasSeat(1), Answer::Code(1));
    assert_eq!(ask, Ask::Terminate);
    create(&mut app, &effects, 20);
    assert!(app.fullscreen_active && app.timeouts[0].suppressed_by_fullscreen);
    let ask = Ask::SyncFullscreen { wl: Some(1), after: AfterSync::Drain };
    assert_eq!(
        next(&mut app, ask, Answer::Code(0)).0,
        [
            vec![Effect::DestroyNotification(20)],
            asked(0, 5000, true),
            vec![Effect::FlushWayland(Some(1))],
        ]
        .concat()
    );
    assert!(!app.timeouts[0].suppressed_by_fullscreen && !app.fullscreen_active);
}

#[test]
fn ignored_windows_make_no_difference() {
    let mut app = session(&["--ignore-fullscreen", "timeout", "5", "dim"]);
    assert!(app.handle_idle(0, true).iter().any(is_exec));
    assert_eq!(app.sync_fullscreen_state(true), vec![]);
    assert!(!app.fullscreen_active);
}

#[test]
fn forced_timeouts_go_back() {
    let mut app = registered();
    let effects = app.force_idle();
    assert_eq!(
        effects,
        [
            vec![Effect::DestroyNotification(10)],
            asked(0, 0, false),
            vec![Effect::DestroyNotification(11)],
            asked(1, 0, false),
        ]
        .concat()
    );
    create(&mut app, &effects, 20);
    assert!(app.handle_idle(0, false).iter().any(is_exec));
    let effects = app.handle_resume(0);
    assert_eq!(
        effects,
        [
            vec![note(LogLevel::Debug, "active state"), Effect::DestroyNotification(20)],
            asked(0, 5000, true),
            vec![exec("bright")],
        ]
        .concat()
    );
    create(&mut app, &effects, 30);
    assert_eq!(app.timeouts[0].registered_timeout_ms, 5000);
    let effects = app.handle_resume(0);
    assert_eq!(effects, vec![note(LogLevel::Debug, "active state"), exec("bright")]);
}

#[test]
fn pending_resumes_are_run_once() {
    let mut app = registered();
    app.handle_idle(1, false);
    let effects = app.run_pending_resume();
    assert_eq!(effects, vec![note(LogLevel::Debug, "active state"), exec("on")]);
    assert_eq!(app.run_pending_resume(), vec![]);
}

#[test]
fn login_events_run_their_commands() {
    let app = session(&[
        "-w", "before-sleep", "b", "after-resume", "a", "lock", "l", "unlock", "u",
    ]);
    for (event, command) in [(1, "b"), (2, "a"), (3, "l"), (4, "u")] {
        assert_eq!(
            app.handle_logind_event(event),
            vec![Effect::Exec { command: command.to_string(), wait: true, level: LogLevel::Info }]
        );
    }
    assert_eq!(app.handle_logind_event(0), vec![]);
    assert_eq!(app.handle_logind_event(5), vec![]);
    assert_eq!(two_timeouts().handle_logind_event(1), vec![]);
}

#[test]
fn the_login_manager_is_connected_where_needed() {
    assert_eq!(two_timeouts().setup_logind(false), Ok(LogindPlan::NotNeeded));
    assert_eq!(two_timeouts().setup_logind(true), Ok(LogindPlan::NotNeeded));
    let plan = |want_sleep, want_lock, want_unlock| {
        Ok(LogindPlan::Connect { want_sleep, want_lock, want_unlock })
    };
    assert_eq!(session(&["before-sleep", "x"]).setup_logind(true), plan(true, false, false));
    assert_eq!(session(&["after-resume", "x"]).setup_logind(true), plan(true, false, false));
    assert_eq!(session(&["lock", "x"]).setup_logind(true), plan(false, true, false));
    assert_eq!(
        session(&["unlock", "x", "lock", "y"]).setup_logind(true),
        plan(false, true, true)
    );
    assert_eq!(
        session(&["unlock", "x"]).setup_logind(false),
        Err("logind support was not built in".to_string())
    );
    let mut app = session(&["lock", "x"]);
    assert_eq!(
        app.logind_connected(None),
        Err("failed to connect to login1 D-Bus".to_string())
    );
    assert_eq!(app.logind, None);
    assert_eq!(app.logind_connected(Some(5)), Ok(()));
    assert_eq!(app.logind, Some(5));
}

#[test]
fn everything_is_released() {
    let mut app = registered();
    app.logind = Some(5);
    assert_eq!(
        app.release(),
        vec![
            Effect::DestroyNotification(10),
            Effect::DestroyNotification(11),
            Effect::DestroyLogind(Some(5)),
            Effect::DestroyWayland(Some(1)),
        ]
    );
    assert_eq!(app.release(), vec![]);
    let mut app = registered();
    assert_eq!(app.destroy_notification(1), vec![Effect::DestroyNotification(11)]);
    assert_eq!(app.destroy_notifications(), vec![Effect::DestroyNotification(10)]);
}

#[test]
fn the_loop_begins() {
    let mut app = two_timeouts();
    let step = app.begin();
    assert_eq!(step.effects, [asked(0, 5000, true), asked(1, 10000, true)].concat());
    assert_eq!(step.next, Ask::Roundtrip(Some(1)));
    let ask = Ask::Roundtrip(Some(1));
    let failed = |error| (vec![], Ask::Failed(error));
    assert_eq!(next(&mut app, ask, Answer::Code(-1)), failed(LoopError::RoundtripFailed));
    assert_eq!(next(&mut app, ask, Answer::Code(0)), (vec![], Ask::Flush(Some(1))));
    let ask = Ask::Flush(Some(1));
    assert_eq!(next(&mut app, ask, Answer::Code(-1)), failed(LoopError::FlushFailed));
    assert_eq!(next(&mut app, ask, Answer::Code(3)), (vec![], Ask::Terminate));
}

#[test]
fn the_loop_ends_with_the_resumes_that_are_owed() {
    let mut app = registered();
    app.handle_idle(0, false);
    let (effects, ask) = next(&mut app, Ask::Terminate, Answer::Flag(true));
    assert_eq!(effects, vec![note(LogLevel::Debug, "active state"), exec("bright")]);
    assert_eq!(ask, Ask::Finished);
    assert_eq!(
        next(&mut app, Ask::Terminate, Answer::Flag(false)),
        (vec![], Ask::ForceIdle)
    );
}

#[test]
fn the_loop_forces_timeouts() {
    let mut app = registered();
    let drain = Ask::NextCallback(AfterDrain::Poll);
    assert_eq!(next(&mut app, Ask::ForceIdle, Answer::Flag(false)), (vec![], drain));
    let (effects, ask) = next(&mut app, Ask::ForceIdle, Answer::Flag(true));
    assert_eq!(effects.len(), 7);
    assert_eq!(effects[6], Effect::FlushWayland(Some(1)));
    assert_eq!(ask, Ask::SyncFullscreen { wl: Some(1), after: AfterSync::Drain });
    assert_eq!(next(&mut app, ask, Answer::Code(0)), (vec![], drain));
    let mut app = session(&["--ignore-fullscreen", "timeout", "5", "dim"]);
    let (effects, ask) = next(&mut app, Ask::ForceIdle, Answer::Flag(true));
    assert_eq!(effects, [asked(0, 0, false), vec![Effect::FlushWayland(Some(1))]].concat());
    assert_eq!(ask, drain);
}

#[test]
fn reports_are_seen_to_one_by_one() {
    let mut app = registered();
    let drain = AfterDrain::Logind(Some(POLLIN));
    let ask = Ask::NextCallback(drain);
    let report = |event| Answer::Callback(Some(event));
    let (effects, asking) = next(&mut app, ask, report(CallbackEvent::Idle(1)));
    assert_eq!(effects, vec![]);
    assert_eq!(asking, Ask::IdleFullscreen { wl: Some(1), idx: 1, drain });
    let (effects, again) = next(&mut app, asking, Answer::Code(1));
    assert!(!effects.iter().any(is_exec));
    assert_eq!(again, ask);
    assert!(app.timeouts[1].suppressed_by_fullscreen);
    let (effects, again) = next(&mut app, asking, Answer::Code(0));
    assert_eq!(effects, vec![note(LogLevel::Debug, "idle state"), exec("off")]);
    assert_eq!(again, ask);
    let (effects, again) = next(&mut app, ask, report(CallbackEvent::Resume(1)));
    assert_eq!(effects, vec![note(LogLevel::Debug, "active state"), exec("on")]);
    assert_eq!(again, ask);
    assert_eq!(next(&mut app, ask, report(CallbackEvent::Idle(2))), (vec![], ask));
    assert_eq!(next(&mut app, ask, report(CallbackEvent::Logind(1))), (vec![], ask));
    app.logind = Some(5);
    assert_eq!(
        next(&mut app, ask, Answer::Callback(None)),
        (vec![], Ask::LogindProcess(Some(5)))
    );
    assert_eq!(
        next(&mut app, Ask::NextCallback(AfterDrain::Poll), Answer::Callback(None)),
        (vec![], Ask::WaylandFd(Some(1)))
    );
    let mut app = session(&["--ignore-fullscreen", "timeout", "5", "dim"]);
    let (effects, again) = next(&mut app, ask, report(CallbackEvent::Idle(0)));
    assert_eq!(effects, vec![note(LogLevel::Debug, "idle state"), exec("dim")]);
    assert_eq!(again, ask);
}

#[test]
fn a_queue_is_drained_in_order() {
    let words = [
        "timeout", "5", "dim", "resume", "bright", "timeout", "10", "off", "resume", "on", "lock",
        "locker",
    ];
    let mut app = session(&words);
    let mut twin = session(&words);
    for one in [&mut app, &mut twin] {
        let effects = one.force_idle();
        create(one, &effects, 10);
    }
    let mut queue: VecDeque<CallbackEvent> = VecDeque::new();
    idle_callback(&mut queue, 1, 1);
    idle_callback(&mut queue, 2, 1);
    logind_callback(&mut queue, 3);
    idle_callback(&mut queue, 1, 0);
    idle_callback(&mut queue, 9, 1);
    idle_callback(&mut queue, 0, 1);
    assert_eq!(queue.len(), 5);

    let ask = Ask::NextCallback(AfterDrain::Poll);
    let mut fullscreen = vec![0, 1].into_iter();
    let mut done: Vec<Effect> = vec![];
    let mut asking = ask;
    while asking != Ask::WaylandFd(Some(1)) {
        let answer = match asking {
            Ask::NextCallback(_) => Answer::Callback(next_callback(&mut queue)),
            _ => Answer::Code(fullscreen.next().unwrap()),
        };
        let (effects, next) = next(&mut app, asking, answer);
        create(&mut app, &effects, 20);
        done.extend(effects);
        asking = next;
    }
    assert!(queue.is_empty());
    assert_eq!(next_callback(&mut queue), None);

    let mut expected = twin.handle_idle(0, false);
    expected.extend(twin.handle_idle(1, true));
    expected.extend(twin.handle_logind_event(3));
    let effects = twin.handle_resume(0);
    create(&mut twin, &effects, 20);
    expected.extend(effects);
    expected.extend(twin.handle_idle(8, false));
    assert_eq!(done, expected);
    for (a, b) in app.timeouts.iter().zip(twin.timeouts.iter()) {
        assert_eq!(a.notification, b.notification);
        assert_eq!(a.registered_timeout_ms, b.registered_timeout_ms);
        assert_eq!(a.resume_pending, b.resume_pending);
        assert_eq!(a.suppressed_by_fullscreen, b.suppressed_by_fullscreen);
    }
    assert_eq!(app.timeouts[0].notification, Some(20));
    assert_eq!(next(&mut app, ask, Answer::Callback(None)), (vec![], Ask::WaylandFd(Some(1))));
}

#[test]
fn the_loop_polls_what_there_is() {
    let mut app = registered();
    assert_eq!(
        next(&mut app, Ask::WaylandFd(Some(1)), Answer::Code(-1)),
        (vec![], Ask::Failed(LoopError::ConnectionLost))
    );
    let alone = Ask::Poll { wayland_fd: 3, logind_fd: None };
    assert_eq!(next(&mut app, Ask::WaylandFd(Some(1)), Answer::Code(3)), (vec![], alone));
    app.logind = Some(5);
    let ask = Ask::LogindFd { handle: Some(5), wayland_fd: 3 };
    assert_eq!(next(&mut app, Ask::WaylandFd(Some(1)), Answer::Code(3)), (vec![], ask));
    assert_eq!(next(&mut app, ask, Answer::Code(-1)), (vec![], alone));
    let both = Ask::Poll { wayland_fd: 3, logind_fd: Some(0) };
    assert_eq!(next(&mut app, ask, Answer::Code(0)), (vec![], both));
    let failed = |errno| Answer::PollFailed { errno, text: "no luck".to_string() };
    assert_eq!(next(&mut app, both, failed(Some(EINTR))), (vec![], Ask::Terminate));
    let logged = vec![note(LogLevel::Error, "poll failed: no luck")];
    assert_eq!(next(&mut app, both, failed(Some(9))), (logged.clone(), Ask::Terminate));
    assert_eq!(next(&mut app, both, failed(None)), (logged, Ask::Terminate));
    let shows = |wayland, logind| Answer::Polled { wayland, logind };
    assert_eq!(
        next(&mut app, both, shows(0, POLLIN)),
        (vec![], Ask::NextCallback(AfterDrain::Logind(Some(POLLIN))))
    );
    assert_eq!(
        next(&mut app, alone, shows(0, POLLIN)),
        (vec![], Ask::NextCallback(AfterDrain::Logind(None)))
    );
    assert_eq!(
        next(&mut app, both, shows(POLLIN | POLLHUP, 0)),
        (
            vec![],
            Ask::Dispatch { wl: Some(1), wayland: POLLIN | POLLHUP, logind: Some(0) }
        )
    );
}

#[test]
fn the_loop_dispatches_and_looks_around() {
    let mut app = registered();
    let ask = Ask::Dispatch { wl: Some(1), wayland: POLLIN, logind: None };
    let (effects, asking) = next(&mut app, ask, Answer::Code(0));
    assert_eq!(effects, vec![Effect::FlushWayland(Some(1))]);
    let after = AfterSync::Closed { wayland: POLLIN, logind: None };
    assert_eq!(asking, Ask::SyncFullscreen { wl: Some(1), after });
    let closed = Ask::Closed { wayland: POLLIN, logind: None };
    assert_eq!(next(&mut app, asking, Answer::Code(1)), (vec![], closed));
    assert!(app.fullscreen_active);
    assert_eq!(
        next(&mut app, closed, Answer::Done),
        (vec![], Ask::NextCallback(AfterDrain::Logind(None)))
    );
}

#[test]
fn a_connection_may_be_lost_while_timeouts_start_again() {
    let mut app = registered();
    app.handle_idle(0, true);
    let shown = POLLIN | POLLHUP;
    let after = AfterSync::Closed { wayland: shown, logind: None };
    let ask = Ask::SyncFullscreen { wl: Some(1), after };
    let (effects, asking) = next(&mut app, ask, Answer::Code(0));
    assert_eq!(effects, [asked(0, 5000, true), vec![Effect::FlushWayland(Some(1))]].concat());
    assert_eq!(asking, Ask::Closed { wayland: shown, logind: None });
    assert_eq!(app.timeouts[0].notification, None);
    app.notification_created(0, 5000, Some(12));
    assert_eq!(
        next(&mut app, asking, Answer::Done),
        (
            vec![
                note(LogLevel::Error, "Wayland connection closed, reconnecting"),
                Effect::DestroyWayland(Some(1)),
                Effect::DestroyNotification(12),
                Effect::DestroyNotification(11),
                Effect::DestroyWayland(None),
            ],
            Ask::Connect
        )
    );
}

#[test]
fn the_loop_connects_anew() {
    let lost = |reason: &str| {
        vec![
            note(LogLevel::Error, reason),
            Effect::DestroyWayland(Some(1)),
            Effect::DestroyNotification(10),
            Effect::DestroyNotification(11),
            Effect::DestroyWayland(None),
        ]
    };
    let mut app = registered();
    let ask = Ask::Dispatch { wl: Some(1), wayland: POLLIN, logind: None };
    assert_eq!(
        next(&mut app, ask, Answer::Code(-1)),
        (lost("Wayland dispatch failed, reconnecting"), Ask::Connect)
    );
    assert_eq!(app.wl, None);
    for shown in [POLLERR, POLLHUP, POLLNVAL] {
        let mut app = registered();
        let ask = Ask::Poll { wayland_fd: 3, logind_fd: None };
        assert_eq!(
            next(&mut app, ask, Answer::Polled { wayland: shown, logind: 0 }),
            (lost("Wayland connection closed, reconnecting"), Ask::Connect)
        );
    }
    let failed = |error, effects: Vec<Effect>| (effects, Ask::Failed(error));
    assert_eq!(
        next(&mut app, Ask::Connect, Answer::Handle(None)),
        failed(LoopError::ReconnectFailed, vec![])
    );
    assert_eq!(
        next(&mut app, Ask::Connect, Answer::Handle(Some(2))),
        (vec![], Ask::HasIdle(2))
    );
    let dropped = vec![Effect::DestroyWayland(Some(2))];
    assert_eq!(
        next(&mut app, Ask::HasIdle(2), Answer::Code(0)),
        failed(LoopError::NoIdleNotify, dropped.clone())
    );
    assert_eq!(next(&mut app, Ask::HasIdle(2), Answer::Code(1)), (vec![], Ask::HasSeat(2)));
    assert_eq!(
        next(&mut app, Ask::HasSeat(2), Answer::Code(0)),
        failed(LoopError::NoSeat, dropped)
    );
    assert_eq!(app.wl, None);
    let (effects, ask) = next(&mut app, Ask::HasSeat(2), Answer::Code(1));
    assert_eq!(effects.len(), 4);
    assert!(matches!(effects[1], Effect::CreateNotification { wl: Some(2), idx: 0, .. }));
    assert_eq!(ask, Ask::Terminate);
    assert_eq!(app.wl, Some(2));
}

#[test]
fn the_login_manager_may_be_lost() {
    for shown in [POLLERR, POLLHUP, POLLNVAL, POLLIN | POLLHUP] {
        let mut app = registered();
        app.logind = Some(5);
        let ask = Ask::NextCallback(AfterDrain::Logind(Some(shown)));
        assert_eq!(
            next(&mut app, ask, Answer::Callback(None)),
            (
                vec![
                    note(LogLevel::Error, "logind connection closed"),
                    Effect::DestroyLogind(Some(5)),
                ],
                Ask::Terminate
            )
        );
        assert_eq!(app.logind, None);
    }
    let mut app = registered();
    app.logind = Some(5);
    let quiet = Ask::NextCallback(AfterDrain::Logind(Some(0)));
    assert_eq!(next(&mut app, quiet, Answer::Callback(None)), (vec![], Ask::Terminate));
    let ask = Ask::LogindProcess(Some(5));
    assert_eq!(next(&mut app, ask, Answer::Code(0)), (vec![], Ask::Terminate));
    assert_eq!(
        next(&mut app, ask, Answer::Code(-1)),
        (
            vec![
                note(LogLevel::Error, "login1 D-Bus dispatch failed"),
                Effect::DestroyLogind(Some(5)),
            ],
            Ask::Terminate
        )
    );
    assert_eq!(app.logind, None);
}

#[test]
fn an_answer_of_another_kind_is_no_answer() {
    let mut app = registered();
    for ask in [Ask::Terminate, Ask::Connect, Ask::Finished] {
        assert_eq!(next(&mut app, ask, Answer::Code(0)), (vec![], ask));
    }
}

#[test]
fn a_lost_loop_says_why() {
    let texts = [
        (LoopError::RoundtripFailed, "Wayland roundtrip failed"),
        (LoopError::FlushFailed, "Wayland flush failed"),
        (LoopError::ConnectionLost, "Wayland connection lost"),
        (LoopError::ReconnectFailed, "Wayland reconnect failed"),
        (LoopError::NoIdleNotify, "Wayland reconnect: no ext-idle-notify"),
        (LoopError::NoSeat, "Wayland reconnect: no seat"),
    ];
    for (error, text) in texts {
        assert_eq!(error.message(), text);
    }
}

#[test]
fn a_whole_session_loses_no_handle() {
    let mut app = session(&[
        "timeout", "5", "dim", "resume", "bright", "timeout", "10", "off", "lock", "locker",
    ]);
    let answers = vec![
        Answer::Code(0),
        Answer::Code(0),
        Answer::Flag(false),
        Answer::Flag(true),
        Answer::Code(0),
        Answer::Callback(Some(CallbackEvent::Idle(0))),
        Answer::Code(0),
        Answer::Callback(Some(CallbackEvent::Idle(1))),
        Answer::Code(1),
        Answer::Callback(None),
        Answer::Code(3),
        Answer::Polled { wayland: POLLIN, logind: 0 },
        Answer::Code(0),
        Answer::Code(0),
        Answer::Done,
        Answer::Callback(Some(CallbackEvent::Resume(0))),
        Answer::Callback(None),
        Answer::Flag(false),
        Answer::Flag(false),
        Answer::Callback(Some(CallbackEvent::Idle(1))),
        Answer::Code(0),
        Answer::Callback(None),
        Answer::Code(3),
        Answer::Polled { wayland: POLLHUP, logind: 0 },
        Answer::Handle(Some(2)),
        Answer::Code(1),
        Answer::Code(1),
        Answer::Flag(true),
    ];
    let mut live: Vec<usize> = vec![];
    let mut handle = 100;
    let mut commands: Vec<String> = vec![];
    let mut step = app.begin();
    let mut answers = answers.into_iter();
    loop {
        for effect in &step.effects {
            match effect {
                Effect::CreateNotification { idx, timeout_ms, data, wl, .. } => {
                    assert_eq!(*data, idx + 1);
                    assert_eq!(*wl, app.wl);
                    app.notification_created(*idx, *timeout_ms, Some(handle));
                    live.push(handle);
                    handle += 1;
                }
                Effect::DestroyNotification(old) => {
                    let place = live.iter().position(|h| h == old).unwrap();
                    live.remove(place);
                }
                Effect::Exec { command, .. } => commands.push(command.clone()),
                _ => {}
            }
        }
        let mut held: Vec<usize> = app.timeouts.iter().filter_map(|t| t.notification).collect();
        held.sort();
        live.sort();
        assert_eq!(held, live);
        match answers.next() {
            Some(answer) => step = app.event_loop(step.next, answer),
            None => break,
        }
    }
    assert_eq!(step.next, Ask::Finished);
    assert_eq!(commands, vec!["dim", "bright", "off"]);
    for effect in app.release() {
        if let Effect::DestroyNotification(old) = effect {
            live.retain(|h| *h != old);
        }
    }
    assert!(live.is_empty());
}

#[test]
fn reports_are_queued_in_order() {
    let mut queue: VecDeque<CallbackEvent> = VecDeque::new();
    idle_callback(&mut queue, 1, 1);
    idle_callback(&mut queue, 0, 1);
    logind_callback(&mut queue, 3);
    idle_callback(&mut queue, 7, 0);
    idle_callback(&mut queue, usize::MAX, -1);
    let expected = [
        CallbackEvent::Idle(0),
        CallbackEvent::Logind(3),
        CallbackEvent::Resume(6),
        CallbackEvent::Idle(usize::MAX - 1),
    ];
    assert!(queue.iter().eq(expected.iter()));
}

#[test]
fn signals_ask_for_something() {
    assert_eq!(signal_handler(2), SignalRequest::Terminate);
    assert_eq!(signal_handler(15), SignalRequest::Terminate);
    assert_eq!(signal_handler(10), SignalRequest::ForceIdle);
    assert_eq!(signal_handler(12), SignalRequest::Nothing);
    assert_eq!(
        crash_signal_handler(11),
        "[CRASH] dozed received SIGSEGV (segmentation fault)\n"
    );
    assert_eq!(crash_signal_handler(7), "[CRASH] dozed received SIGBUS (bus error)\n");
    assert_eq!(crash_signal_handler(6), "[CRASH] dozed received SIGABRT (abort)\n");
    assert_eq!(crash_signal_handler(4), "[CRASH] dozed received unknown signal\n");
}

#[test]
fn log_lines_are_shown_by_level() {
    let levels = [LogLevel::Error, LogLevel::Info, LogLevel::Debug];
    for (i, current) in levels.iter().enumerate() {
        for (k, level) in levels.iter().enumerate() {
            let line = log(*current, *level, "now", "text");
            assert_eq!(line.as_deref(), if k <= i { Some("now - text") } else { None });
        }
    }
}

#[test]
fn time_stamps_fall_back_to_seconds() {
    assert_eq!(local_timestamp(1700000000, b"2023-11-14 22:13:20"), "2023-11-14 22:13:20");
    assert_eq!(local_timestamp(1700000000, b""), "1700000000");
    assert_eq!(local_timestamp(-5, b""), "-5");
    assert_eq!(local_timestamp(0, b"a\xffb"), "a\u{fffd}b");
    assert_eq!(local_timestamp(0, "d\u{e9}c".as_bytes()), "d\u{e9}c");
}

#[test]
fn commands_are_announced_and_reported() {
    let line = |level, message: &str| Effect::Log {
        current: LogLevel::Debug,
        level,
        message: message.to_string(),
    };
    assert_eq!(exec_command("ls -l", LogLevel::Debug), line(LogLevel::Debug, "exec: ls -l"));
    let error = Some("gone".to_string());
    assert_eq!(
        exec_started(&error, true, true, LogLevel::Debug),
        (
            vec![line(LogLevel::Error, "failed to execute command: gone")],
            ChildPlan::Nothing
        )
    );
    for (wait, reaper, plan) in [
        (true, true, ChildPlan::AwaitAndLog),
        (true, false, ChildPlan::AwaitAndLog),
        (false, true, ChildPlan::HandToReaper),
        (false, false, ChildPlan::Await),
    ] {
        assert_eq!(exec_started(&None, wait, reaper, LogLevel::Debug), (vec![], plan));
    }
    assert_eq!(
        exec_ended(&Ok("exit status: 0".to_string()), LogLevel::Debug),
        line(LogLevel::Debug, "process exited: exit status: 0")
    );
    assert_eq!(
        exec_ended(&Err("lost".to_string()), LogLevel::Debug),
        line(LogLevel::Error, "failed to wait for command: lost")
    );
}

#[test]
fn commands_are_run_by_a_shell() {
    assert_eq!(shell_command("a 'b' | c"), vec!["sh", "-c", "a 'b' | c"]);
}

#[test]
fn crashes_are_written_down() {
    let dir = crash_dir(&Some("/home/me".to_string()));
    assert_eq!(dir, "/home/me/.local/share/dozed");
    assert_eq!(crash_dir(&None), "/tmp");
    assert_eq!(crash_log(&dir), "/home/me/.local/share/dozed/crash.log");
    assert_eq!(crash_entry("now", "oh", "0: main"), "[now] PANIC: oh\n0: main\n\n");
}

#[test]
fn connections_are_looked_over() {
    let line = |level, message: &str| Effect::Log {
        current: LogLevel::Debug,
        level,
        message: message.to_string(),
    };
    let config = |values: &[&str]| {
        let mut argv = vec!["dozed".to_string()];
        argv.extend(values.iter().map(|value| value.to_string()));
        parse_args(&argv).unwrap()
    };
    let step = connected(None);
    assert_eq!(
        step.effects,
        vec![line(LogLevel::Error, "unable to connect to Wayland compositor")]
    );
    assert_eq!(step.next, Check::Retry);
    let step = connected(Some(3));
    assert_eq!((step.effects, step.next), (vec![], Check::HasIdle(3)));
    let check = |values: &[&str], check, ret| {
        let step = check_connection(&config(values), check, ret);
        (step.effects, step.next)
    };
    let dropped = |message: &str| {
        vec![line(LogLevel::Error, message), Effect::DestroyWayland(Some(3))]
    };
    assert_eq!(
        check(&[], Check::HasIdle(3), 0),
        (dropped("compositor does not support ext-idle-notify-v1"), Check::Exit(4))
    );
    assert_eq!(check(&[], Check::HasIdle(3), 1), (vec![], Check::HasSeat(3)));
    assert_eq!(
        check(&[], Check::HasSeat(3), 0),
        (dropped("requested Wayland seat was not found"), Check::Exit(5))
    );
    assert_eq!(check(&[], Check::HasSeat(3), 1), (vec![], Check::Ready(3)));
    assert_eq!(check(&["-d"], Check::HasSeat(3), 1), (vec![], Check::HasToplevelManager(3)));
    assert_eq!(
        check(&["-d", "--ignore-fullscreen"], Check::HasSeat(3), 1),
        (vec![], Check::Ready(3))
    );
    let unavailable = "fullscreen suppression unavailable: compositor does not expose \
                       zwlr_foreign_toplevel_manager_v1";
    assert_eq!(
        check(&["-d"], Check::HasToplevelManager(3), 0),
        (vec![line(LogLevel::Info, unavailable)], Check::Ready(3))
    );
    assert_eq!(check(&["-d"], Check::HasToplevelManager(3), 1), (vec![], Check::Ready(3)));
    assert_eq!(session_ended(&Ok(())), vec![]);
    assert_eq!(
        session_ended(&Err("Wayland flush failed".to_string())),
        vec![line(LogLevel::Error, "event loop error: Wayland flush failed")]
    );
}
