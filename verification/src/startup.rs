//! From the settings to a session: what is printed, when the daemon gives up, and how a
//! connection is looked over before a session starts.

use vstd::prelude::*;

use crate::app::{effects_of, Effect, EffectModel};
use crate::config::{has_events, wants_events, Config, ConfigModel, FullscreenPolicy};
use crate::log::LogLevel;
use crate::report::{print_events, report};
use crate::text::{chars_of, join, texts};

verus! {

/// How long the daemon waits between one session, or one attempt at it, and the next.
pub const RETRY_SECONDS: u64 = 5;

/// What the settings lead to.
#[derive(Clone, Copy, Debug, PartialEq, Eq, Structural)]
pub enum Plan {
    /// Only the settings were asked for.
    Quit,
    /// There is nothing to wait for.
    NothingToDo,
    /// The name of the seat cannot be passed on.
    BadSeatName,
    /// Sessions are to be held.
    Run,
}

/// What the settings lead to.
pub open spec fn plan_of(config: ConfigModel) -> Plan {
    if config.validate_config || config.print_events || config.dry_run {
        Plan::Quit
    } else if !wants_events(config) {
        Plan::NothingToDo
    } else if config.seat_name is Some && config.seat_name->0.contains('\0') {
        Plan::BadSeatName
    } else {
        Plan::Run
    }
}

impl Plan {
    /// What the user is told about it.
    pub fn message(&self) -> (r: Option<&'static str>)
        ensures
            match *self {
                Plan::NothingToDo => r is Some && r->0@ == "no command specified; nothing to do"@,
                Plan::BadSeatName => r is Some && r->0@
                    == "seat name contains an interior NUL byte"@,
                _ => r is None,
            },
    {
        match self {
            Plan::NothingToDo => Some("no command specified; nothing to do"),
            Plan::BadSeatName => Some("seat name contains an interior NUL byte"),
            _ => None,
        }
    }

    /// The exit status of a daemon that holds no sessions.
    pub fn exit_code(&self) -> (r: i32)
        ensures
            r == if *self == Plan::BadSeatName {
                1int
            } else {
                0int
            },
    {
        match self {
            Plan::BadSeatName => 1,
            _ => 0,
        }
    }
}

/// Whether `text` holds the character NUL.
fn holds_nul(text: &str) -> (r: bool)
    ensures
        r == text@.contains('\0'),
{
    let chars = chars_of(text);
    let mut i: usize = 0;
    while i < chars.len()
        invariant
            i <= chars@.len(),
            chars@ == text@,
            forall|k: int| 0 <= k < i ==> text@[k] != '\0',
        decreases chars@.len() - i,
    {
        if chars[i] == '\0' {
            assert(text@[i as int] == '\0');
            return true;
        }
        i += 1;
    }
    false
}

/// Says what is to be printed of the settings, and what they lead to.
pub fn startup(config: &Config) -> (r: (Vec<String>, Plan))
    ensures
        texts(r.0@) == if config.print_events {
            report(config@)
        } else {
            seq![]
        },
        r.1 == plan_of(config@),
{
    let mut lines: Vec<String> = Vec::new();
    assert(texts(lines@) =~= seq![]);
    if config.print_events {
        lines = print_events(config);
    }
    let bad_seat = match &config.seat_name {
        Some(name) => holds_nul(name.as_str()),
        None => false,
    };
    let plan = if config.validate_config || config.print_events || config.dry_run {
        Plan::Quit
    } else if !has_events(config) {
        Plan::NothingToDo
    } else if bad_seat {
        Plan::BadSeatName
    } else {
        Plan::Run
    };
    (lines, plan)
}

/// What is to be known next about a connection before a session starts.
#[derive(Clone, Copy, Debug, PartialEq, Eq, Structural)]
pub enum Check {
    /// Whether it offers idle notifications.
    HasIdle(usize),
    /// Whether it has the seat that was asked for.
    HasSeat(usize),
    /// Whether it tells of fullscreen windows.
    HasToplevelManager(usize),
    /// Nothing: the session can start.
    Ready(usize),
    /// Nothing: the daemon ends with this status.
    Exit(i32),
    /// Nothing: it is time to wait, and then to connect again.
    Retry,
}

/// A line in the log while there is no session: all of it is shown.
pub open spec fn told(level: LogLevel, message: Seq<char>) -> EffectModel {
    EffectModel::Log { current: LogLevel::Debug, level, message }
}

/// A line in the log while there is no session.
fn tell(level: LogLevel, message: &str) -> (r: Effect)
    ensures
        r@ == told(level, message@),
{
    Effect::Log { current: LogLevel::Debug, level, message: message.to_string() }
}

/// What is to be done first, and what is to be known next.
pub struct CheckStep {
    pub effects: Vec<Effect>,
    pub next: Check,
}

/// What a [`CheckStep`] says.
#[verifier::ext_equal]
pub struct Checked {
    pub effects: Seq<EffectModel>,
    pub next: Check,
}

impl View for CheckStep {
    type V = Checked;

    open spec fn view(&self) -> Checked {
        Checked { effects: effects_of(self.effects@), next: self.next }
    }
}

/// Connected or not.
pub open spec fn after_connecting(wl: Option<usize>) -> Checked {
    match wl {
        Some(wl) => Checked { effects: seq![], next: Check::HasIdle(wl) },
        None => Checked {
            effects: seq![told(LogLevel::Error, "unable to connect to Wayland compositor"@)],
            next: Check::Retry,
        },
    }
}

/// Gives up a connection that no session can be held over, and ends with `status`.
pub open spec fn unusable(wl: usize, reason: Seq<char>, status: i32) -> Checked {
    Checked {
        effects: seq![told(LogLevel::Error, reason), EffectModel::DestroyWayland(Some(wl))],
        next: Check::Exit(status),
    }
}

/// What `config` and the answers `ret` of the compositor lead to, while a connection is
/// looked over.
pub open spec fn after_check(config: ConfigModel, check: Check, ret: i32) -> Checked {
    match check {
        Check::HasIdle(wl) => if ret == 0 {
            unusable(wl, "compositor does not support ext-idle-notify-v1"@, 4)
        } else {
            Checked { effects: seq![], next: Check::HasSeat(wl) }
        },
        Check::HasSeat(wl) => if ret == 0 {
            unusable(wl, "requested Wayland seat was not found"@, 5)
        } else if config.debug && config.fullscreen_policy == FullscreenPolicy::Suppress {
            Checked { effects: seq![], next: Check::HasToplevelManager(wl) }
        } else {
            Checked { effects: seq![], next: Check::Ready(wl) }
        },
        Check::HasToplevelManager(wl) => Checked {
            effects: if ret == 0 {
                seq![
                    told(
                        LogLevel::Info,
                        "fullscreen suppression unavailable: compositor does not expose zwlr_foreign_toplevel_manager_v1"@,
                    ),
                ]
            } else {
                seq![]
            },
            next: Check::Ready(wl),
        },
        _ => Checked { effects: seq![], next: check },
    }
}

/// Begins to look over the connection `wl`, where there is one.
pub fn connected(wl: Option<usize>) -> (r: CheckStep)
    ensures
        r@ == after_connecting(wl),
{
    let mut effects: Vec<Effect> = Vec::new();
    let next = match wl {
        Some(wl) => Check::HasIdle(wl),
        None => {
            effects.push(tell(LogLevel::Error, "unable to connect to Wayland compositor"));
            Check::Retry
        },
    };
    assert(effects_of(effects@) =~= after_connecting(wl).effects);
    CheckStep { effects, next }
}

/// Gives up a connection that no session can be held over.
fn give_up(wl: usize, reason: &str, status: i32) -> (r: CheckStep)
    ensures
        r@ == unusable(wl, reason@, status),
{
    let mut effects: Vec<Effect> = Vec::new();
    effects.push(tell(LogLevel::Error, reason));
    effects.push(Effect::DestroyWayland(Some(wl)));
    assert(effects_of(effects@) =~= unusable(wl, reason@, status).effects);
    CheckStep { effects, next: Check::Exit(status) }
}

/// Goes on looking over a connection, when the compositor has answered `ret` to `check`.
pub fn check_connection(config: &Config, check: Check, ret: i32) -> (r: CheckStep)
    ensures
        r@ == after_check(config@, check, ret),
{
    let mut effects: Vec<Effect> = Vec::new();
    let next = match check {
        Check::HasIdle(wl) => {
            if ret == 0 {
                return give_up(wl, "compositor does not support ext-idle-notify-v1", 4);
            }
            Check::HasSeat(wl)
        },
        Check::HasSeat(wl) => {
            if ret == 0 {
                return give_up(wl, "requested Wayland seat was not found", 5);
            }
            if config.debug && config.fullscreen_policy == FullscreenPolicy::Suppress {
                Check::HasToplevelManager(wl)
            } else {
                Check::Ready(wl)
            }
        },
        Check::HasToplevelManager(wl) => {
            if ret == 0 {
                effects.push(
                    tell(
                        LogLevel::Info,
                        "fullscreen suppression unavailable: compositor does not expose zwlr_foreign_toplevel_manager_v1",
                    ),
                );
            }
            Check::Ready(wl)
        },
        _ => check,
    };
    assert(effects_of(effects@) =~= after_check(config@, check, ret).effects);
    CheckStep { effects, next }
}

/// What is logged when a session has ended.
pub open spec fn after_session(error: Option<Seq<char>>) -> Seq<EffectModel> {
    match error {
        Some(error) => seq![told(LogLevel::Error, "event loop error: "@ + error)],
        None => seq![],
    }
}

/// Says what is to be logged when a session has ended.
pub fn session_ended(result: &Result<(), String>) -> (r: Vec<Effect>)
    ensures
        effects_of(r@) == after_session(
            match *result {
                Ok(()) => None,
                Err(error) => Some(error@),
            },
        ),
{
    let mut effects: Vec<Effect> = Vec::new();
    if let Err(error) = result {
        effects.push(tell(LogLevel::Error, join("event loop error: ", error.as_str()).as_str()));
    }
    assert(effects_of(effects@) =~= after_session(
        match *result {
            Ok(()) => None,
            Err(error) => Some(error@),
        },
    ));
    effects
}

/// A session starts only over a connection that offers idle notifications and has the seat:
/// the checks lead from the connection to the session through both questions.
pub proof fn law_session_needs_notifications_and_a_seat(
    config: ConfigModel,
    check: Check,
    ret: i32,
    wl: usize,
)
    ensures
        after_check(config, check, ret).next == Check::HasSeat(wl) && check != Check::HasSeat(wl)
            ==> check == Check::HasIdle(wl) && ret != 0,
        after_check(config, check, ret).next == Check::HasToplevelManager(wl) && check
            != Check::HasToplevelManager(wl) ==> check == Check::HasSeat(wl) && ret != 0,
        after_check(config, check, ret).next == Check::Ready(wl) && check != Check::Ready(wl)
            ==> check == Check::HasToplevelManager(wl) || (check == Check::HasSeat(wl) && ret
            != 0),
{
}

/// A daemon that only shows or validates its settings holds no session, and neither does
/// one that has nothing to wait for.
pub proof fn law_sessions_need_events(config: ConfigModel)
    ensures
        plan_of(config) == Plan::Run ==> wants_events(config) && !config.dry_run
            && !config.print_events && !config.validate_config,
{
}

/// A daemon that has anything to wait for, be it a timeout or a command for some event, and was
/// not told only to show or validate its settings, holds sessions, unless the name of its seat
/// holds a NUL; and only such a daemon does.
pub proof fn law_daemon_with_events_holds_sessions(config: ConfigModel)
    ensures
        ({
            let asked = config.timeouts.len() > 0 || config.before_sleep_cmd is Some
                || config.after_resume_cmd is Some || config.lock_cmd is Some
                || config.unlock_cmd is Some;
            let shows = config.dry_run || config.print_events || config.validate_config;
            let bad_seat = match config.seat_name {
                Some(name) => exists|i: int| 0 <= i < name.len() && name[i] == '\0',
                None => false,
            };
            &&& plan_of(config) == Plan::Run <==> asked && !shows && !bad_seat
            &&& plan_of(config) == Plan::Quit <==> shows
            &&& plan_of(config) == Plan::NothingToDo <==> !shows && !asked
            &&& plan_of(config) == Plan::BadSeatName <==> !shows && asked && bad_seat
        }),
{
}

/// A connection that was made is looked over, one that was not is logged and tried again.
pub proof fn law_connection_is_tried_again(wl: usize)
    ensures
        after_connecting(Some(wl)) == (Checked { effects: seq![], next: Check::HasIdle(wl) }),
        after_connecting(None) == (Checked {
            effects: seq![
                EffectModel::Log {
                    current: LogLevel::Debug,
                    level: LogLevel::Error,
                    message: "unable to connect to Wayland compositor"@,
                },
            ],
            next: Check::Retry,
        }),
{
}

/// Without idle notifications, and without the seat, the daemon says so, gives up the
/// connection and ends, with a status for each. With both, a session starts over this
/// connection, whatever the settings are. Where idle commands are to be suppressed and all is
/// logged, it is asked first whether fullscreen windows can be seen, and logged if not.
pub proof fn law_connection_is_looked_over(config: ConfigModel, wl: usize, ret: i32)
    requires
        ret != 0,
    ensures
        after_check(config, Check::HasIdle(wl), 0) == (Checked {
            effects: seq![
                EffectModel::Log {
                    current: LogLevel::Debug,
                    level: LogLevel::Error,
                    message: "compositor does not support ext-idle-notify-v1"@,
                },
                EffectModel::DestroyWayland(Some(wl)),
            ],
            next: Check::Exit(4),
        }),
        after_check(config, Check::HasIdle(wl), ret) == (Checked {
            effects: seq![],
            next: Check::HasSeat(wl),
        }),
        after_check(config, Check::HasSeat(wl), 0) == (Checked {
            effects: seq![
                EffectModel::Log {
                    current: LogLevel::Debug,
                    level: LogLevel::Error,
                    message: "requested Wayland seat was not found"@,
                },
                EffectModel::DestroyWayland(Some(wl)),
            ],
            next: Check::Exit(5),
        }),
        after_check(config, Check::HasSeat(wl), ret) == (Checked {
            effects: seq![],
            next: if config.debug && config.fullscreen_policy == FullscreenPolicy::Suppress {
                Check::HasToplevelManager(wl)
            } else {
                Check::Ready(wl)
            },
        }),
        after_check(config, Check::HasToplevelManager(wl), ret) == (Checked {
            effects: seq![],
            next: Check::Ready(wl),
        }),
        after_check(config, Check::HasToplevelManager(wl), 0) == (Checked {
            effects: seq![
                EffectModel::Log {
                    current: LogLevel::Debug,
                    level: LogLevel::Info,
                    message: "fullscreen suppression unavailable: compositor does not expose zwlr_foreign_toplevel_manager_v1"@,
                },
            ],
            next: Check::Ready(wl),
        }),
{
}

/// A session that fails is logged with its error, and one that does not leaves no line.
pub proof fn law_failed_session_is_logged(error: Seq<char>)
    ensures
        after_session(None) == Seq::<EffectModel>::empty(),
        after_session(Some(error)) == seq![
            EffectModel::Log {
                current: LogLevel::Debug,
                level: LogLevel::Error,
                message: "event loop error: "@ + error,
            },
        ],
{
}

} // verus!
