//! The state of a session with the compositor, and what each event does to it.
//!
//! Nothing here reaches outside. What is to be done there is handed back as a list of
//! effects, to be performed in order.

use vstd::prelude::*;

use crate::config::{
    timeout_models, Config, ConfigModel, FullscreenPolicy, TimeoutCmd, TimeoutModel,
};
use crate::log::LogLevel;
use crate::number::{signed_decimal, write_i64};
use crate::text::opt_text;

verus! {

/// Something to be done outside. Connections and notifications go by their handles.
#[derive(Clone, Debug, PartialEq, Eq)]
pub enum Effect {
    /// Log `message`, when lines up to `current` are shown.
    Log { current: LogLevel, level: LogLevel, message: String },
    /// Run `command`, wait for its end or not, and log up to `level`.
    Exec { command: String, wait: bool, level: LogLevel },
    /// Ask the compositor for an idle notification that carries `data`. What came of it
    /// is reported with [`App::notification_created`].
    CreateNotification {
        wl: Option<usize>,
        idx: usize,
        data: usize,
        timeout_ms: i32,
        obey_inhibitors: bool,
    },
    DestroyNotification(usize),
    FlushWayland(Option<usize>),
    DestroyWayland(Option<usize>),
    DestroyLogind(Option<usize>),
}

/// What an [`Effect`] says.
pub enum EffectModel {
    Log { current: LogLevel, level: LogLevel, message: Seq<char> },
    Exec { command: Seq<char>, wait: bool, level: LogLevel },
    CreateNotification {
        wl: Option<usize>,
        idx: int,
        data: int,
        timeout_ms: int,
        obey_inhibitors: bool,
    },
    DestroyNotification(usize),
    FlushWayland(Option<usize>),
    DestroyWayland(Option<usize>),
    DestroyLogind(Option<usize>),
}

impl View for Effect {
    type V = EffectModel;

    open spec fn view(&self) -> EffectModel {
        match *self {
            Effect::Log { current, level, message } => EffectModel::Log {
                current,
                level,
                message: message@,
            },
            Effect::Exec { command, wait, level } => EffectModel::Exec {
                command: command@,
                wait,
                level,
            },
            Effect::CreateNotification { wl, idx, data, timeout_ms, obey_inhibitors } =>
                EffectModel::CreateNotification {
                wl,
                idx: idx as int,
                data: data as int,
                timeout_ms: timeout_ms as int,
                obey_inhibitors,
            },
            Effect::DestroyNotification(handle) => EffectModel::DestroyNotification(handle),
            Effect::FlushWayland(wl) => EffectModel::FlushWayland(wl),
            Effect::DestroyWayland(wl) => EffectModel::DestroyWayland(wl),
            Effect::DestroyLogind(logind) => EffectModel::DestroyLogind(logind),
        }
    }
}

/// What a list of effects says.
pub open spec fn effects_of(list: Seq<Effect>) -> Seq<EffectModel> {
    list.map_values(|e: Effect| e@)
}

/// A session with the compositor.
pub struct App {
    pub wl: Option<usize>,
    pub logind: Option<usize>,
    pub timeouts: Vec<TimeoutCmd>,
    pub wait: bool,
    pub before_sleep_cmd: Option<String>,
    pub after_resume_cmd: Option<String>,
    pub lock_cmd: Option<String>,
    pub unlock_cmd: Option<String>,
    pub log_level: LogLevel,
    pub fullscreen_active: bool,
    pub fullscreen_policy: FullscreenPolicy,
}

/// What an [`App`] holds.
#[verifier::ext_equal]
pub struct AppModel {
    pub wl: Option<usize>,
    pub logind: Option<usize>,
    pub timeouts: Seq<TimeoutModel>,
    pub wait: bool,
    pub before_sleep_cmd: Option<Seq<char>>,
    pub after_resume_cmd: Option<Seq<char>>,
    pub lock_cmd: Option<Seq<char>>,
    pub unlock_cmd: Option<Seq<char>>,
    pub log_level: LogLevel,
    pub fullscreen_active: bool,
    pub fullscreen_policy: FullscreenPolicy,
}

impl View for App {
    type V = AppModel;

    open spec fn view(&self) -> AppModel {
        AppModel {
            wl: self.wl,
            logind: self.logind,
            timeouts: timeout_models(self.timeouts@),
            wait: self.wait,
            before_sleep_cmd: opt_text(self.before_sleep_cmd),
            after_resume_cmd: opt_text(self.after_resume_cmd),
            lock_cmd: opt_text(self.lock_cmd),
            unlock_cmd: opt_text(self.unlock_cmd),
            log_level: self.log_level,
            fullscreen_active: self.fullscreen_active,
            fullscreen_policy: self.fullscreen_policy,
        }
    }
}

/// A session after an event, and what is to be done outside.
#[verifier::ext_equal]
pub struct Change {
    pub app: AppModel,
    pub effects: Seq<EffectModel>,
}

/// A session that has just been connected.
pub open spec fn new_app(config: ConfigModel, wl: Option<usize>) -> AppModel {
    AppModel {
        wl,
        logind: None,
        timeouts: config.timeouts,
        wait: config.wait,
        before_sleep_cmd: config.before_sleep_cmd,
        after_resume_cmd: config.after_resume_cmd,
        lock_cmd: config.lock_cmd,
        unlock_cmd: config.unlock_cmd,
        log_level: if config.debug {
            LogLevel::Debug
        } else {
            LogLevel::Info
        },
        fullscreen_active: false,
        fullscreen_policy: config.fullscreen_policy,
    }
}

/// A line in the session's log.
pub open spec fn logged(app: AppModel, level: LogLevel, message: Seq<char>) -> EffectModel {
    EffectModel::Log { current: app.log_level, level, message }
}

/// Running a command, where there is one.
pub open spec fn run(app: AppModel, command: Option<Seq<char>>) -> Seq<EffectModel> {
    match command {
        Some(command) => seq![
            EffectModel::Exec { command, wait: app.wait, level: app.log_level },
        ],
        None => seq![],
    }
}

/// A timeout without its notification.
pub open spec fn dismissed(t: TimeoutModel) -> TimeoutModel {
    TimeoutModel { notification: None, ..t }
}

/// Giving up the notification of a timeout, where it has one.
pub open spec fn dismissal(t: TimeoutModel) -> Seq<EffectModel> {
    match t.notification {
        Some(handle) => seq![EffectModel::DestroyNotification(handle)],
        None => seq![],
    }
}

/// A session where the timeout `idx` has become `t`.
pub open spec fn with_timeout(app: AppModel, idx: int, t: TimeoutModel) -> AppModel {
    AppModel { timeouts: app.timeouts.update(idx, t), ..app }
}

/// Asking anew for the notification of the timeout `idx`. A negative time asks for none.
pub open spec fn registration(
    app: AppModel,
    idx: int,
    timeout_ms: int,
    obey_inhibitors: bool,
) -> Seq<EffectModel> {
    dismissal(app.timeouts[idx]) + if timeout_ms < 0 {
        seq![]
    } else {
        seq![
            logged(
                app,
                LogLevel::Debug,
                "register timeout: "@ + signed_decimal(timeout_ms) + " ms"@,
            ),
            EffectModel::CreateNotification {
                wl: app.wl,
                idx,
                data: idx + 1,
                timeout_ms,
                obey_inhibitors,
            },
        ]
    }
}

/// A session that asks anew for the notification of the timeout `idx`.
pub open spec fn registering(
    app: AppModel,
    idx: int,
    timeout_ms: int,
    obey_inhibitors: bool,
) -> Change {
    if 0 <= idx < app.timeouts.len() {
        Change {
            app: with_timeout(app, idx, dismissed(app.timeouts[idx])),
            effects: registration(app, idx, timeout_ms, obey_inhibitors),
        }
    } else {
        Change { app, effects: seq![] }
    }
}

/// A session that hears what came of asking for the notification of the timeout `idx`.
pub open spec fn created(
    app: AppModel,
    idx: int,
    timeout_ms: int,
    notification: Option<usize>,
) -> Change {
    match notification {
        Some(_) => Change {
            app: with_timeout(
                app,
                idx,
                TimeoutModel {
                    notification,
                    registered_timeout_ms: timeout_ms,
                    ..app.timeouts[idx]
                },
            ),
            effects: seq![],
        },
        None => Change {
            app,
            effects: seq![logged(app, LogLevel::Error, "failed to create idle notification"@)],
        },
    }
}

/// The timeouts without their notifications.
pub open spec fn all_dismissed(app: AppModel) -> AppModel {
    AppModel { timeouts: app.timeouts.map_values(|t: TimeoutModel| dismissed(t)), ..app }
}

/// Giving up the notifications of the first `n` timeouts.
pub open spec fn dismissals(timeouts: Seq<TimeoutModel>, n: nat) -> Seq<EffectModel>
    decreases n,
{
    if n == 0 {
        seq![]
    } else {
        dismissals(timeouts, (n - 1) as nat) + dismissal(timeouts[n - 1])
    }
}

/// Asking anew for the notifications of the first `n` timeouts: for the times that were
/// configured or, to force them, at once and past all inhibitors.
pub open spec fn registrations(app: AppModel, n: nat, forced: bool) -> Seq<EffectModel>
    decreases n,
{
    if n == 0 {
        seq![]
    } else {
        registrations(app, (n - 1) as nat, forced) + registration(
            app,
            n - 1,
            if forced {
                0
            } else {
                app.timeouts[n - 1].timeout_ms
            },
            !forced,
        )
    }
}

/// A session that asks anew for all notifications.
pub open spec fn registering_all(app: AppModel, forced: bool) -> Change {
    Change {
        app: all_dismissed(app),
        effects: registrations(app, app.timeouts.len(), forced),
    }
}

/// A session whose timeout `idx` has fired, when a window is fullscreen or not.
///
/// Under the policy to suppress, a fullscreen window keeps the idle command from being
/// run, and the notification is given up until there is no such window.
pub open spec fn idling(app: AppModel, idx: int, fullscreen: bool) -> Change {
    if !(0 <= idx < app.timeouts.len()) {
        Change { app, effects: seq![] }
    } else if app.fullscreen_policy == FullscreenPolicy::Suppress && fullscreen {
        Change {
            app: AppModel {
                fullscreen_active: true,
                ..with_timeout(
                    app,
                    idx,
                    TimeoutModel {
                        suppressed_by_fullscreen: true,
                        ..dismissed(app.timeouts[idx])
                    },
                )
            },
            effects: seq![
                logged(
                    app,
                    LogLevel::Debug,
                    "fullscreen toplevel active; skipping idle command"@,
                ),
            ] + dismissal(app.timeouts[idx]),
        }
    } else {
        Change {
            app: with_timeout(
                app,
                idx,
                TimeoutModel {
                    resume_pending: true,
                    suppressed_by_fullscreen: false,
                    ..app.timeouts[idx]
                },
            ),
            effects: seq![logged(app, LogLevel::Debug, "idle state"@)] + run(
                app,
                app.timeouts[idx].idle_cmd,
            ),
        }
    }
}

/// A timeout after the user has become active again. Where it was registered for another
/// time than the configured one, its notification is given up.
pub open spec fn resumed(t: TimeoutModel) -> TimeoutModel {
    TimeoutModel {
        resume_pending: false,
        suppressed_by_fullscreen: false,
        notification: if t.registered_timeout_ms == t.timeout_ms {
            t.notification
        } else {
            None
        },
        ..t
    }
}

/// What is to be done when the user has become active again after the timeout `idx`.
pub open spec fn resumption(app: AppModel, idx: int) -> Seq<EffectModel> {
    let t = app.timeouts[idx];
    seq![logged(app, LogLevel::Debug, "active state"@)] + if t.registered_timeout_ms
        == t.timeout_ms {
        seq![]
    } else {
        registration(app, idx, t.timeout_ms, true)
    } + run(app, t.resume_cmd)
}

/// A session where the user has become active again after the timeout `idx`.
pub open spec fn resuming(app: AppModel, idx: int) -> Change {
    if 0 <= idx < app.timeouts.len() {
        Change {
            app: with_timeout(app, idx, resumed(app.timeouts[idx])),
            effects: resumption(app, idx),
        }
    } else {
        Change { app, effects: seq![] }
    }
}

/// What is to be done for those of the first `n` timeouts that still owe a resume.
pub open spec fn resumptions(app: AppModel, n: nat) -> Seq<EffectModel>
    decreases n,
{
    if n == 0 {
        seq![]
    } else {
        resumptions(app, (n - 1) as nat) + if app.timeouts[n - 1].resume_pending {
            resumption(app, n - 1)
        } else {
            seq![]
        }
    }
}

/// A session where every resume that is still owed takes place.
pub open spec fn resuming_pending(app: AppModel) -> Change {
    Change {
        app: AppModel {
            timeouts: app.timeouts.map_values(
                |t: TimeoutModel|
                    if t.resume_pending {
                        resumed(t)
                    } else {
                        t
                    },
            ),
            ..app
        },
        effects: resumptions(app, app.timeouts.len()),
    }
}

/// A timeout that fullscreen windows no longer suppress.
pub open spec fn released(t: TimeoutModel) -> TimeoutModel {
    if t.suppressed_by_fullscreen {
        TimeoutModel { suppressed_by_fullscreen: false, ..dismissed(t) }
    } else {
        t
    }
}

/// Asking anew for the notifications of those of the first `n` timeouts that a fullscreen
/// window has suppressed.
pub open spec fn releases(app: AppModel, n: nat) -> Seq<EffectModel>
    decreases n,
{
    if n == 0 {
        seq![]
    } else {
        releases(app, (n - 1) as nat) + if app.timeouts[n - 1].suppressed_by_fullscreen {
            registration(app, n - 1, app.timeouts[n - 1].timeout_ms, true)
        } else {
            seq![]
        }
    }
}

/// A session that has looked whether a window is fullscreen. When the last one has gone,
/// the timeouts that were suppressed start again.
pub open spec fn syncing(app: AppModel, active: bool) -> Change {
    if app.fullscreen_policy == FullscreenPolicy::Ignore {
        Change { app, effects: seq![] }
    } else if app.fullscreen_active && !active {
        Change {
            app: AppModel {
                timeouts: app.timeouts.map_values(|t: TimeoutModel| released(t)),
                fullscreen_active: false,
                ..app
            },
            effects: releases(app, app.timeouts.len()).push(EffectModel::FlushWayland(app.wl)),
        }
    } else {
        Change { app: AppModel { fullscreen_active: active, ..app }, effects: seq![] }
    }
}

/// The command for an event of the login manager.
pub open spec fn logind_command(app: AppModel, event: int) -> Option<Seq<char>> {
    if event == 1 {
        app.before_sleep_cmd
    } else if event == 2 {
        app.after_resume_cmd
    } else if event == 3 {
        app.lock_cmd
    } else if event == 4 {
        app.unlock_cmd
    } else {
        None
    }
}

/// What is to be done about the login manager when a session starts.
#[derive(Clone, Copy, Debug, PartialEq, Eq, Structural)]
pub enum LogindPlan {
    /// There is no command for any of its events.
    NotNeeded,
    /// Connect to it, for these events.
    Connect { want_sleep: bool, want_lock: bool, want_unlock: bool },
}

/// What is to be done about the login manager, with support for it built in or not.
pub open spec fn logind_plan(app: AppModel, built_in: bool) -> Result<LogindPlan, Seq<char>> {
    let want_sleep = app.before_sleep_cmd is Some || app.after_resume_cmd is Some;
    let want_lock = app.lock_cmd is Some;
    let want_unlock = app.unlock_cmd is Some;
    if !want_sleep && !want_lock && !want_unlock {
        Ok(LogindPlan::NotNeeded)
    } else if built_in {
        Ok(LogindPlan::Connect { want_sleep, want_lock, want_unlock })
    } else {
        Err("logind support was not built in"@)
    }
}

/// Giving up everything that a session holds.
pub open spec fn release_effects(app: AppModel) -> Seq<EffectModel> {
    dismissals(app.timeouts, app.timeouts.len()) + match app.logind {
        Some(_) => seq![EffectModel::DestroyLogind(app.logind)],
        None => seq![],
    } + match app.wl {
        Some(_) => seq![EffectModel::DestroyWayland(app.wl)],
        None => seq![],
    }
}

impl App {
    /// A session over the connection `wl`.
    pub fn new(config: Config, wl: Option<usize>) -> (r: App)
        ensures
            r@ == new_app(config@, wl),
    {
        let log_level = if config.debug {
            LogLevel::Debug
        } else {
            LogLevel::Info
        };
        App {
            wl,
            logind: None,
            timeouts: config.timeouts,
            wait: config.wait,
            before_sleep_cmd: config.before_sleep_cmd,
            after_resume_cmd: config.after_resume_cmd,
            lock_cmd: config.lock_cmd,
            unlock_cmd: config.unlock_cmd,
            log_level,
            fullscreen_active: false,
            fullscreen_policy: config.fullscreen_policy,
        }
    }

    /// A line in the session's log.
    pub(crate) fn note(&self, level: LogLevel, message: &str) -> (r: Effect)
        ensures
            r@ == logged(self@, level, message@),
    {
        Effect::Log { current: self.log_level, level, message: message.to_string() }
    }

    /// Running a command, where there is one.
    fn command(&self, command: &Option<String>) -> (r: Vec<Effect>)
        ensures
            effects_of(r@) == run(self@, opt_text(*command)),
    {
        let mut effects: Vec<Effect> = Vec::new();
        if let Some(command) = command {
            effects.push(
                Effect::Exec {
                    command: command.clone(),
                    wait: self.wait,
                    level: self.log_level,
                },
            );
        }
        assert(effects_of(effects@) =~= run(self@, opt_text(*command)));
        effects
    }

    /// Gives up the notification of the timeout `idx`, where it has one.
    pub fn destroy_notification(&mut self, idx: usize) -> (r: Vec<Effect>)
        requires
            idx < old(self).timeouts@.len(),
        ensures
            final(self)@ == with_timeout(
                old(self)@,
                idx as int,
                dismissed(old(self)@.timeouts[idx as int]),
            ),
            effects_of(r@) == dismissal(old(self)@.timeouts[idx as int]),
    {
        let mut effects: Vec<Effect> = Vec::new();
        if let Some(handle) = self.timeouts[idx].notification {
            effects.push(Effect::DestroyNotification(handle));
            self.timeouts[idx].notification = None;
        }
        proof {
            let expected = with_timeout(
                old(self)@,
                idx as int,
                dismissed(old(self)@.timeouts[idx as int]),
            );
            assert(self@.timeouts =~= expected.timeouts);
            assert(effects_of(effects@) =~= dismissal(old(self)@.timeouts[idx as int]));
        }
        effects
    }

    /// Asks anew for the notification of the timeout `idx`.
    pub fn register_timeout(&mut self, idx: usize, timeout_ms: i32, obey_inhibitors: bool) -> (r:
        Vec<Effect>)
        ensures
            (Change { app: final(self)@, effects: effects_of(r@) }) == registering(
                old(self)@,
                idx as int,
                timeout_ms as int,
                obey_inhibitors,
            ),
    {
        if idx >= self.timeouts.len() {
            let none: Vec<Effect> = Vec::new();
            assert(effects_of(none@) =~= seq![]);
            return none;
        }
        let mut effects = self.destroy_notification(idx);
        if timeout_ms >= 0 {
            let mut message = "register timeout: ".to_string();
            message.append(write_i64(timeout_ms as i64).as_str());
            message.append(" ms");
            effects.push(self.note(LogLevel::Debug, message.as_str()));
            effects.push(
                Effect::CreateNotification {
                    wl: self.wl,
                    idx,
                    data: idx + 1,
                    timeout_ms,
                    obey_inhibitors,
                },
            );
        }
        assert(effects_of(effects@) =~= registration(
            old(self)@,
            idx as int,
            timeout_ms as int,
            obey_inhibitors,
        ));
        effects
    }

    /// Takes up the notification that was created for the timeout `idx`, where there is
    /// one.
    pub fn notification_created(
        &mut self,
        idx: usize,
        timeout_ms: i32,
        notification: Option<usize>,
    ) -> (r: Vec<Effect>)
        requires
            idx < old(self).timeouts@.len(),
        ensures
            (Change { app: final(self)@, effects: effects_of(r@) }) == created(
                old(self)@,
                idx as int,
                timeout_ms as int,
                notification,
            ),
    {
        let mut effects: Vec<Effect> = Vec::new();
        if notification.is_none() {
            effects.push(self.note(LogLevel::Error, "failed to create idle notification"));
        } else {
            self.timeouts[idx].notification = notification;
            self.timeouts[idx].registered_timeout_ms = timeout_ms;
        }
        proof {
            let change = created(old(self)@, idx as int, timeout_ms as int, notification);
            assert(self@.timeouts =~= change.app.timeouts);
            assert(effects_of(effects@) =~= change.effects);
        }
        effects
    }

    /// Gives up the notifications of all timeouts.
    pub fn destroy_notifications(&mut self) -> (r: Vec<Effect>)
        ensures
            final(self)@ == all_dismissed(old(self)@),
            effects_of(r@) == dismissals(old(self)@.timeouts, old(self)@.timeouts.len()),
    {
        let mut effects: Vec<Effect> = Vec::new();
        let mut idx: usize = 0;
        assert(effects_of(effects@) =~= seq![]);
        while idx < self.timeouts.len()
            invariant
                idx <= self@.timeouts.len() == old(self)@.timeouts.len(),
                self@ == (AppModel { timeouts: self@.timeouts, ..old(self)@ }),
                forall|k: int|
                    0 <= k < self@.timeouts.len() ==> #[trigger] self@.timeouts[k] == if k < idx {
                        dismissed(old(self)@.timeouts[k])
                    } else {
                        old(self)@.timeouts[k]
                    },
                effects_of(effects@) == dismissals(old(self)@.timeouts, idx as nat),
            decreases self@.timeouts.len() - idx,
        {
            let ghost before = effects@;
            let mut part = self.destroy_notification(idx);
            let ghost added = part@;
            effects.append(&mut part);
            assert(effects_of(effects@) =~= effects_of(before) + effects_of(added));
            idx += 1;
        }
        assert(self@.timeouts =~= all_dismissed(old(self)@).timeouts);
        effects
    }

    /// Asks anew for all notifications, for the times that were configured or by force.
    fn register_each(&mut self, forced: bool) -> (r: Vec<Effect>)
        ensures
            (Change { app: final(self)@, effects: effects_of(r@) }) == registering_all(
                old(self)@,
                forced,
            ),
    {
        let mut effects: Vec<Effect> = Vec::new();
        let mut idx: usize = 0;
        assert(effects_of(effects@) =~= seq![]);
        while idx < self.timeouts.len()
            invariant
                idx <= self@.timeouts.len() == old(self)@.timeouts.len(),
                self@ == (AppModel { timeouts: self@.timeouts, ..old(self)@ }),
                forall|k: int|
                    0 <= k < self@.timeouts.len() ==> #[trigger] self@.timeouts[k] == if k < idx {
                        dismissed(old(self)@.timeouts[k])
                    } else {
                        old(self)@.timeouts[k]
                    },
                effects_of(effects@) == registrations(old(self)@, idx as nat, forced),
            decreases self@.timeouts.len() - idx,
        {
            let ghost before = effects@;
            assert(self@.timeouts[idx as int] == old(self)@.timeouts[idx as int]);
            let timeout_ms: i32 = if forced {
                0
            } else {
                self.timeouts[idx].timeout_ms
            };
            let mut part = self.register_timeout(idx, timeout_ms, !forced);
            let ghost added = part@;
            effects.append(&mut part);
            assert(effects_of(effects@) =~= effects_of(before) + effects_of(added));
            idx += 1;
        }
        assert(self@.timeouts =~= all_dismissed(old(self)@).timeouts);
        effects
    }

    /// Asks anew for the notifications of all timeouts.
    pub fn register_all(&mut self) -> (r: Vec<Effect>)
        ensures
            (Change { app: final(self)@, effects: effects_of(r@) }) == registering_all(
                old(self)@,
                false,
            ),
    {
        self.register_each(false)
    }

    /// Makes all timeouts fire at once, whatever the inhibitors say.
    pub fn force_idle(&mut self) -> (r: Vec<Effect>)
        ensures
            (Change { app: final(self)@, effects: effects_of(r@) }) == registering_all(
                old(self)@,
                true,
            ),
    {
        self.register_each(true)
    }

    /// The timeout `idx` has fired, when a window is fullscreen or not.
    pub fn handle_idle(&mut self, idx: usize, fullscreen: bool) -> (r: Vec<Effect>)
        ensures
            (Change { app: final(self)@, effects: effects_of(r@) }) == idling(
                old(self)@,
                idx as int,
                fullscreen,
            ),
    {
        let ghost change = idling(old(self)@, idx as int, fullscreen);
        let mut effects: Vec<Effect> = Vec::new();
        if idx >= self.timeouts.len() {
            assert(effects_of(effects@) =~= change.effects);
            return effects;
        }
        if self.fullscreen_policy == FullscreenPolicy::Suppress && fullscreen {
            self.fullscreen_active = true;
            effects.push(
                self.note(
                    LogLevel::Debug,
                    "fullscreen toplevel active; skipping idle command",
                ),
            );
            self.timeouts[idx].suppressed_by_fullscreen = true;
            let mut part = self.destroy_notification(idx);
            effects.append(&mut part);
        } else {
            self.timeouts[idx].resume_pending = true;
            self.timeouts[idx].suppressed_by_fullscreen = false;
            effects.push(self.note(LogLevel::Debug, "idle state"));
            let mut part = self.command(&self.timeouts[idx].idle_cmd);
            effects.append(&mut part);
        }
        assert(self@.timeouts =~= change.app.timeouts);
        assert(effects_of(effects@) =~= change.effects);
        effects
    }

    /// The user has become active again after the timeout `idx`.
    pub fn handle_resume(&mut self, idx: usize) -> (r: Vec<Effect>)
        ensures
            (Change { app: final(self)@, effects: effects_of(r@) }) == resuming(
                old(self)@,
                idx as int,
            ),
    {
        let ghost change = resuming(old(self)@, idx as int);
        let mut effects: Vec<Effect> = Vec::new();
        if idx >= self.timeouts.len() {
            assert(effects_of(effects@) =~= change.effects);
            return effects;
        }
        self.timeouts[idx].resume_pending = false;
        self.timeouts[idx].suppressed_by_fullscreen = false;
        effects.push(self.note(LogLevel::Debug, "active state"));
        let timeout_ms = self.timeouts[idx].timeout_ms;
        if self.timeouts[idx].registered_timeout_ms != timeout_ms {
            let mut part = self.register_timeout(idx, timeout_ms, true);
            effects.append(&mut part);
            assert(self@.timeouts.len() == old(self)@.timeouts.len());
        }
        assert(self@.timeouts[idx as int] == self.timeouts@[idx as int]@);
        let mut part = self.command(&self.timeouts[idx].resume_cmd);
        effects.append(&mut part);
        assert(self@.timeouts =~= change.app.timeouts);
        assert(effects_of(effects@) =~= change.effects);
        effects
    }

    /// Every resume that is still owed takes place.
    pub fn run_pending_resume(&mut self) -> (r: Vec<Effect>)
        ensures
            (Change { app: final(self)@, effects: effects_of(r@) }) == resuming_pending(
                old(self)@,
            ),
    {
        let ghost change = resuming_pending(old(self)@);
        let mut effects: Vec<Effect> = Vec::new();
        let mut idx: usize = 0;
        assert(effects_of(effects@) =~= seq![]);
        while idx < self.timeouts.len()
            invariant
                idx <= self@.timeouts.len() == old(self)@.timeouts.len(),
                self@ == (AppModel { timeouts: self@.timeouts, ..old(self)@ }),
                forall|k: int|
                    0 <= k < self@.timeouts.len() ==> #[trigger] self@.timeouts[k] == if k < idx
                        && old(self)@.timeouts[k].resume_pending {
                        resumed(old(self)@.timeouts[k])
                    } else {
                        old(self)@.timeouts[k]
                    },
                effects_of(effects@) == resumptions(old(self)@, idx as nat),
            decreases self@.timeouts.len() - idx,
        {
            assert(self@.timeouts[idx as int] == old(self)@.timeouts[idx as int]);
            if self.timeouts[idx].resume_pending {
                let ghost before = effects@;
                let mut part = self.handle_resume(idx);
                let ghost added = part@;
                effects.append(&mut part);
                assert(effects_of(effects@) =~= effects_of(before) + effects_of(added));
            }
            idx += 1;
        }
        assert(self@.timeouts =~= change.app.timeouts);
        effects
    }

    /// A look has been taken at whether a window is fullscreen.
    pub fn sync_fullscreen_state(&mut self, active: bool) -> (r: Vec<Effect>)
        ensures
            (Change { app: final(self)@, effects: effects_of(r@) }) == syncing(old(self)@, active),
    {
        let ghost change = syncing(old(self)@, active);
        let mut effects: Vec<Effect> = Vec::new();
        assert(effects_of(effects@) =~= seq![]);
        if self.fullscreen_policy == FullscreenPolicy::Ignore {
            return effects;
        }
        if self.fullscreen_active && !active {
            let mut idx: usize = 0;
            while idx < self.timeouts.len()
                invariant
                    idx <= self@.timeouts.len() == old(self)@.timeouts.len(),
                    self@ == (AppModel { timeouts: self@.timeouts, ..old(self)@ }),
                    forall|k: int|
                        0 <= k < self@.timeouts.len() ==> #[trigger] self@.timeouts[k] == if k
                            < idx {
                            released(old(self)@.timeouts[k])
                        } else {
                            old(self)@.timeouts[k]
                        },
                    effects_of(effects@) == releases(old(self)@, idx as nat),
                decreases self@.timeouts.len() - idx,
            {
                assert(self@.timeouts[idx as int] == old(self)@.timeouts[idx as int]);
                if self.timeouts[idx].suppressed_by_fullscreen {
                    let ghost before = effects@;
                    let ghost earlier = self@;
                    self.timeouts[idx].suppressed_by_fullscreen = false;
                    assert(self@.timeouts =~= earlier.timeouts.update(
                        idx as int,
                        TimeoutModel {
                            suppressed_by_fullscreen: false,
                            ..earlier.timeouts[idx as int]
                        },
                    ));
                    let timeout_ms = self.timeouts[idx].timeout_ms;
                    let mut part = self.register_timeout(idx, timeout_ms, true);
                    let ghost added = part@;
                    effects.append(&mut part);
                    assert(effects_of(effects@) =~= effects_of(before) + effects_of(added));
                }
                idx += 1;
            }
            let ghost before = effects@;
            effects.push(Effect::FlushWayland(self.wl));
            assert(effects_of(effects@) =~= effects_of(before).push(
                EffectModel::FlushWayland(self.wl),
            ));
        }
        self.fullscreen_active = active;
        assert(self@.timeouts =~= change.app.timeouts);
        effects
    }

    /// The login manager has reported an event.
    pub fn handle_logind_event(&self, event: i32) -> (r: Vec<Effect>)
        ensures
            effects_of(r@) == run(self@, logind_command(self@, event as int)),
    {
        match event {
            1 => self.command(&self.before_sleep_cmd),
            2 => self.command(&self.after_resume_cmd),
            3 => self.command(&self.lock_cmd),
            4 => self.command(&self.unlock_cmd),
            _ => self.command(&None),
        }
    }

    /// Says what is to be done about the login manager, with support for it built in or
    /// not.
    pub fn setup_logind(&self, built_in: bool) -> (r: Result<LogindPlan, String>)
        ensures
            match r {
                Ok(plan) => logind_plan(self@, built_in) == Ok::<LogindPlan, Seq<char>>(plan),
                Err(message) => logind_plan(self@, built_in) == Err::<LogindPlan, Seq<char>>(
                    message@,
                ),
            },
    {
        let want_sleep = self.before_sleep_cmd.is_some() || self.after_resume_cmd.is_some();
        let want_lock = self.lock_cmd.is_some();
        let want_unlock = self.unlock_cmd.is_some();
        if !want_sleep && !want_lock && !want_unlock {
            Ok(LogindPlan::NotNeeded)
        } else if built_in {
            Ok(LogindPlan::Connect { want_sleep, want_lock, want_unlock })
        } else {
            Err("logind support was not built in".to_string())
        }
    }

    /// Takes up the connection to the login manager, where there is one.
    pub fn logind_connected(&mut self, logind: Option<usize>) -> (r: Result<(), String>)
        ensures
            final(self)@ == (AppModel { logind, ..old(self)@ }),
            match r {
                Ok(()) => logind is Some,
                Err(message) => logind is None && message@
                    == "failed to connect to login1 D-Bus"@,
            },
    {
        self.logind = logind;
        if logind.is_none() {
            return Err("failed to connect to login1 D-Bus".to_string());
        }
        Ok(())
    }

    /// Gives up everything that the session holds.
    pub fn release(&mut self) -> (r: Vec<Effect>)
        ensures
            final(self)@ == (AppModel { wl: None, logind: None, ..all_dismissed(old(self)@) }),
            effects_of(r@) == release_effects(old(self)@),
    {
        let mut effects = self.destroy_notifications();
        if self.logind.is_some() {
            effects.push(Effect::DestroyLogind(self.logind));
            self.logind = None;
        }
        if self.wl.is_some() {
            effects.push(Effect::DestroyWayland(self.wl));
            self.wl = None;
        }
        assert(effects_of(effects@) =~= release_effects(old(self)@));
        effects
    }
}

} // verus!
