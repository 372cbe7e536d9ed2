//! What each happening does to a session, and what is done outside about it: which commands
//! are run, which notifications are asked for and given up, and what stays as it was.

use vstd::prelude::*;

use crate::app::{
    all_dismissed, created, dismissals, idling, logind_command, logind_plan, new_app, registering,
    registering_all, registration, registrations, release_effects, releases, resuming,
    resuming_pending, resumption, resumptions, run, syncing, AppModel, Change, EffectModel,
    LogindPlan,
};
use crate::config::{session_of, ConfigModel, FullscreenPolicy, TimeoutModel};
use crate::log::LogLevel;
use crate::number::signed_decimal;

verus! {

/// The effects that run commands, in their order.
pub open spec fn commands_in(effects: Seq<EffectModel>) -> Seq<EffectModel>
    decreases effects.len(),
{
    if effects.len() == 0 {
        seq![]
    } else {
        let front = commands_in(effects.drop_last());
        if effects.last() is Exec {
            front.push(effects.last())
        } else {
            front
        }
    }
}

/// Running this command alone, waiting for it or not as the session does; nothing where there
/// is no command.
pub open spec fn just(app: AppModel, command: Option<Seq<char>>) -> Seq<EffectModel> {
    match command {
        Some(command) => seq![
            EffectModel::Exec { command, wait: app.wait, level: app.log_level },
        ],
        None => seq![],
    }
}

/// A line in the session's log.
pub open spec fn line(app: AppModel, level: LogLevel, message: Seq<char>) -> EffectModel {
    EffectModel::Log { current: app.log_level, level, message }
}

/// Giving up the notification that a timeout holds; nothing where it holds none.
pub open spec fn letting_go(t: TimeoutModel) -> Seq<EffectModel> {
    match t.notification {
        Some(handle) => seq![EffectModel::DestroyNotification(handle)],
        None => seq![],
    }
}

/// Asking for the notification of the timeout `idx` in `timeout_ms` milliseconds; nothing
/// where these are negative.
pub open spec fn asking(
    app: AppModel,
    idx: int,
    timeout_ms: int,
    obey_inhibitors: bool,
) -> Seq<EffectModel> {
    if timeout_ms < 0 {
        seq![]
    } else {
        seq![
            line(
                app,
                LogLevel::Debug,
                "register timeout: "@ + signed_decimal(timeout_ms) + " ms"@,
            ),
            EffectModel::CreateNotification {
                wl: app.wl,
                idx,
                data: idx + 1,
                timeout_ms,
                obey_inhibitors,
            },
        ]
    }
}

/// The session `app` with its timeout `idx` become `t`, and nothing else changed.
pub open spec fn replaced(app: AppModel, idx: int, t: TimeoutModel) -> AppModel {
    AppModel { timeouts: app.timeouts.update(idx, t), ..app }
}

/// The session `app` with one more timeout.
pub open spec fn with_one_more(app: AppModel, t: TimeoutModel) -> AppModel {
    AppModel { timeouts: app.timeouts.push(t), ..app }
}

proof fn lemma_commands_of_both(a: Seq<EffectModel>, b: Seq<EffectModel>)
    ensures
        commands_in(a + b) == commands_in(a) + commands_in(b),
    decreases b.len(),
{
    if b.len() == 0 {
        assert(a + b =~= a);
        assert(commands_in(a) + commands_in(b) =~= commands_in(a));
    } else {
        lemma_commands_of_both(a, b.drop_last());
        assert((a + b).drop_last() =~= a + b.drop_last());
        assert((a + b).last() == b.last());
        if b.last() is Exec {
            assert((commands_in(a) + commands_in(b.drop_last())).push(b.last()) =~= commands_in(a)
                + commands_in(b));
        }
    }
}

proof fn lemma_no_commands(effects: Seq<EffectModel>)
    requires
        forall|i: int| 0 <= i < effects.len() ==> !((#[trigger] effects[i]) is Exec),
    ensures
        commands_in(effects) == Seq::<EffectModel>::empty(),
    decreases effects.len(),
{
    if effects.len() > 0 {
        assert(!(effects[effects.len() - 1] is Exec));
        assert forall|i: int| 0 <= i < effects.drop_last().len() implies !((
        #[trigger] effects.drop_last()[i]) is Exec) by {
            assert(effects.drop_last()[i] == effects[i]);
        }
        lemma_no_commands(effects.drop_last());
    }
}

proof fn lemma_just_is_a_command(app: AppModel, command: Option<Seq<char>>)
    ensures
        commands_in(just(app, command)) == just(app, command),
{
    if let Some(text) = command {
        let effects = just(app, command);
        assert(effects.drop_last() =~= seq![]);
        assert(commands_in(effects.drop_last()) =~= seq![]);
        assert(effects.last() is Exec);
        assert(Seq::<EffectModel>::empty().push(effects.last()) =~= effects);
    }
}

/// A timeout that fires, with no fullscreen window to stand against it, runs exactly one
/// command, its own idle command, whether commands are waited for or not. It owes a resume
/// from then on, and nothing else in the session changes.
pub proof fn law_firing_runs_the_idle_command_alone(app: AppModel, idx: int, fullscreen: bool)
    requires
        0 <= idx < app.timeouts.len(),
        app.fullscreen_policy == FullscreenPolicy::Ignore || !fullscreen,
    ensures
        commands_in(idling(app, idx, fullscreen).effects) == just(
            app,
            app.timeouts[idx].idle_cmd,
        ),
        idling(app, idx, fullscreen).effects == seq![line(app, LogLevel::Debug, "idle state"@)]
            + just(app, app.timeouts[idx].idle_cmd),
        idling(app, idx, fullscreen).app == replaced(
            app,
            idx,
            TimeoutModel {
                resume_pending: true,
                suppressed_by_fullscreen: false,
                ..app.timeouts[idx]
            },
        ),
{
    let command = app.timeouts[idx].idle_cmd;
    let first = seq![line(app, LogLevel::Debug, "idle state"@)];
    assert(idling(app, idx, fullscreen).effects =~= first + just(app, command));
    lemma_no_commands(first);
    lemma_just_is_a_command(app, command);
    lemma_commands_of_both(first, just(app, command));
    assert(Seq::<EffectModel>::empty() + just(app, command) =~= just(app, command));
    assert(idling(app, idx, fullscreen).app.timeouts =~= replaced(
        app,
        idx,
        TimeoutModel {
            resume_pending: true,
            suppressed_by_fullscreen: false,
            ..app.timeouts[idx]
        },
    ).timeouts);
}

/// Under the policy to suppress, a timeout that fires while a window is fullscreen runs no
/// command. It gives up its notification, it is marked, the window is remembered, and nothing
/// else in the session changes.
pub proof fn law_suppressed_firing_runs_nothing(app: AppModel, idx: int)
    requires
        0 <= idx < app.timeouts.len(),
        app.fullscreen_policy == FullscreenPolicy::Suppress,
    ensures
        commands_in(idling(app, idx, true).effects) == Seq::<EffectModel>::empty(),
        idling(app, idx, true).effects == seq![
            line(app, LogLevel::Debug, "fullscreen toplevel active; skipping idle command"@),
        ] + letting_go(app.timeouts[idx]),
        idling(app, idx, true).app == (AppModel {
            fullscreen_active: true,
            ..replaced(
                app,
                idx,
                TimeoutModel {
                    suppressed_by_fullscreen: true,
                    notification: None,
                    ..app.timeouts[idx]
                },
            )
        }),
{
    let effects = idling(app, idx, true).effects;
    assert(effects =~= seq![
        line(app, LogLevel::Debug, "fullscreen toplevel active; skipping idle command"@),
    ] + letting_go(app.timeouts[idx]));
    lemma_no_commands(effects);
    assert(idling(app, idx, true).app.timeouts =~= replaced(
        app,
        idx,
        TimeoutModel {
            suppressed_by_fullscreen: true,
            notification: None,
            ..app.timeouts[idx]
        },
    ).timeouts);
}

/// What is reported of a timeout that does not exist changes nothing.
pub proof fn law_unknown_timeout_changes_nothing(
    app: AppModel,
    idx: int,
    fullscreen: bool,
    timeout_ms: int,
    obey_inhibitors: bool,
)
    requires
        idx >= app.timeouts.len(),
    ensures
        idling(app, idx, fullscreen) == (Change { app, effects: seq![] }),
        resuming(app, idx) == (Change { app, effects: seq![] }),
        registering(app, idx, timeout_ms, obey_inhibitors) == (Change { app, effects: seq![] }),
{
}

/// When the user is active again after a timeout, exactly one command is run, its own resume
/// command, and last of all. A timeout that was registered for another time than its own
/// gives up its notification and asks for one in its own time; another one keeps what it
/// holds. It owes no resume any more and is not suppressed.
pub proof fn law_resuming_runs_the_resume_command_alone(app: AppModel, idx: int)
    requires
        0 <= idx < app.timeouts.len(),
    ensures
        ({
            let t = app.timeouts[idx];
            let change = resuming(app, idx);
            let again = if t.registered_timeout_ms == t.timeout_ms {
                seq![]
            } else {
                letting_go(t) + asking(app, idx, t.timeout_ms, true)
            };
            &&& commands_in(change.effects) == just(app, t.resume_cmd)
            &&& change.effects == seq![line(app, LogLevel::Debug, "active state"@)] + again + just(
                app,
                t.resume_cmd,
            )
            &&& change.app == replaced(
                app,
                idx,
                TimeoutModel {
                    resume_pending: false,
                    suppressed_by_fullscreen: false,
                    notification: if t.registered_timeout_ms == t.timeout_ms {
                        t.notification
                    } else {
                        None
                    },
                    ..t
                },
            )
        }),
{
    let t = app.timeouts[idx];
    let change = resuming(app, idx);
    let again = if t.registered_timeout_ms == t.timeout_ms {
        seq![]
    } else {
        letting_go(t) + asking(app, idx, t.timeout_ms, true)
    };
    let first = seq![line(app, LogLevel::Debug, "active state"@)] + again;
    assert(change.effects =~= first + just(app, t.resume_cmd));
    lemma_no_commands(first);
    lemma_just_is_a_command(app, t.resume_cmd);
    lemma_commands_of_both(first, just(app, t.resume_cmd));
    assert(Seq::<EffectModel>::empty() + just(app, t.resume_cmd) =~= just(app, t.resume_cmd));
    assert(change.app.timeouts.len() == app.timeouts.len());
}

/// Registering a timeout gives up the notification that it holds, before it asks for a new
/// one with the given time, over the session's connection. A negative time asks for none.
/// Nothing else changes.
pub proof fn law_registering_asks_anew(
    app: AppModel,
    idx: int,
    timeout_ms: int,
    obey_inhibitors: bool,
)
    requires
        0 <= idx < app.timeouts.len(),
    ensures
        registering(app, idx, timeout_ms, obey_inhibitors).effects == letting_go(app.timeouts[idx])
            + asking(app, idx, timeout_ms, obey_inhibitors),
        registering(app, idx, timeout_ms, obey_inhibitors).app == replaced(
            app,
            idx,
            TimeoutModel { notification: None, ..app.timeouts[idx] },
        ),
{
    assert(registering(app, idx, timeout_ms, obey_inhibitors).effects =~= letting_go(
        app.timeouts[idx],
    ) + asking(app, idx, timeout_ms, obey_inhibitors));
}

/// A notification that was created is held by its timeout, which remembers for what time it
/// is. One that could not be created is logged, and changes nothing.
pub proof fn law_created_notification_is_taken_up(
    app: AppModel,
    idx: int,
    timeout_ms: int,
    handle: usize,
)
    requires
        0 <= idx < app.timeouts.len(),
    ensures
        created(app, idx, timeout_ms, Some(handle)).effects == Seq::<EffectModel>::empty(),
        created(app, idx, timeout_ms, Some(handle)).app == replaced(
            app,
            idx,
            TimeoutModel {
                notification: Some(handle),
                registered_timeout_ms: timeout_ms,
                ..app.timeouts[idx]
            },
        ),
        created(app, idx, timeout_ms, None).app == app,
        created(app, idx, timeout_ms, None).effects == seq![
            line(app, LogLevel::Error, "failed to create idle notification"@),
        ],
{
}

proof fn lemma_registrations_of_front(app: AppModel, t: TimeoutModel, n: nat, forced: bool)
    requires
        n <= app.timeouts.len(),
    ensures
        registrations(with_one_more(app, t), n, forced) == registrations(app, n, forced),
    decreases n,
{
    if n > 0 {
        lemma_registrations_of_front(app, t, (n - 1) as nat, forced);
        let more = with_one_more(app, t);
        assert(more.timeouts[n - 1] == app.timeouts[n - 1]);
        let ms = if forced {
            0
        } else {
            app.timeouts[n - 1].timeout_ms
        };
        assert(registration(more, n - 1, ms, !forced) =~= registration(app, n - 1, ms, !forced));
    }
}

/// Asking for all notifications treats each timeout by itself and in order: a session with one
/// more timeout does what it did, and then lets go of what that timeout holds and asks for it
/// in its own time or, by force, at once and past all inhibitors. Without timeouts nothing is
/// done, and every timeout is left holding nothing and otherwise as it was.
pub proof fn law_registering_all_treats_each(app: AppModel, t: TimeoutModel, forced: bool)
    ensures
        app.timeouts.len() == 0 ==> registering_all(app, forced) == (Change {
            app,
            effects: seq![],
        }),
        registering_all(with_one_more(app, t), forced).effects == registering_all(
            app,
            forced,
        ).effects + (letting_go(t) + asking(
            app,
            app.timeouts.len() as int,
            if forced {
                0
            } else {
                t.timeout_ms
            },
            !forced,
        )),
        registering_all(with_one_more(app, t), forced).app == with_one_more(
            registering_all(app, forced).app,
            TimeoutModel { notification: None, ..t },
        ),
{
    let more = with_one_more(app, t);
    let n = app.timeouts.len();
    let ms = if forced {
        0
    } else {
        t.timeout_ms
    };
    lemma_registrations_of_front(app, t, n, forced);
    assert(more.timeouts[n as int] == t);
    assert(registration(more, n as int, ms, !forced) =~= letting_go(t) + asking(
        app,
        n as int,
        ms,
        !forced,
    ));
    assert(registering_all(more, forced).app.timeouts =~= with_one_more(
        registering_all(app, forced).app,
        TimeoutModel { notification: None, ..t },
    ).timeouts);
    if n == 0 {
        assert(registering_all(app, forced).app.timeouts =~= app.timeouts);
    }
}

proof fn lemma_resumptions_of_front(app: AppModel, t: TimeoutModel, n: nat)
    requires
        n <= app.timeouts.len(),
    ensures
        resumptions(with_one_more(app, t), n) == resumptions(app, n),
    decreases n,
{
    if n > 0 {
        lemma_resumptions_of_front(app, t, (n - 1) as nat);
        let more = with_one_more(app, t);
        assert(more.timeouts[n - 1] == app.timeouts[n - 1]);
        assert(resumption(more, n - 1) =~= resumption(app, n - 1));
    }
}

/// At the end of a session each timeout is treated by itself and in order: one that owes a
/// resume is resumed as if the user had become active again, and one that owes none is left
/// alone.
pub proof fn law_pending_resumes_treat_each(app: AppModel, t: TimeoutModel)
    ensures
        app.timeouts.len() == 0 ==> resuming_pending(app) == (Change { app, effects: seq![] }),
        ({
            let more = with_one_more(app, t);
            let n = app.timeouts.len() as int;
            let before = resuming_pending(app);
            let after = resuming_pending(more);
            &&& t.resume_pending ==> after.effects == before.effects + resuming(more, n).effects
                && after.app == with_one_more(before.app, resuming(more, n).app.timeouts[n])
            &&& !t.resume_pending ==> after.effects == before.effects && after.app
                == with_one_more(before.app, t)
        }),
{
    let more = with_one_more(app, t);
    let n = app.timeouts.len();
    let before = resuming_pending(app);
    let after = resuming_pending(more);
    lemma_resumptions_of_front(app, t, n);
    assert(more.timeouts[n as int] == t);
    if t.resume_pending {
        assert(after.app.timeouts =~= with_one_more(
            before.app,
            resuming(more, n as int).app.timeouts[n as int],
        ).timeouts);
    } else {
        assert(after.effects =~= before.effects);
        assert(after.app.timeouts =~= with_one_more(before.app, t).timeouts);
    }
    if n == 0 {
        assert(before.app.timeouts =~= app.timeouts);
    }
}

proof fn lemma_releases_of_front(app: AppModel, t: TimeoutModel, n: nat)
    requires
        n <= app.timeouts.len(),
    ensures
        releases(with_one_more(app, t), n) == releases(app, n),
    decreases n,
{
    if n > 0 {
        lemma_releases_of_front(app, t, (n - 1) as nat);
        let more = with_one_more(app, t);
        let ms = app.timeouts[n - 1].timeout_ms;
        assert(more.timeouts[n - 1] == app.timeouts[n - 1]);
        assert(registration(more, n - 1, ms, true) =~= registration(app, n - 1, ms, true));
    }
}

/// When the last fullscreen window has gone, each timeout is treated by itself and in order:
/// one that was suppressed lets go of what it holds, asks for its own time again and is
/// suppressed no more, and another one is left alone. Then the connection is flushed.
pub proof fn law_release_of_the_suppressed_treats_each(app: AppModel, t: TimeoutModel)
    requires
        app.fullscreen_policy == FullscreenPolicy::Suppress,
        app.fullscreen_active,
    ensures
        ({
            let flush = EffectModel::FlushWayland(app.wl);
            let before = syncing(app, false);
            let after = syncing(with_one_more(app, t), false);
            &&& before.effects.len() > 0 && before.effects.last() == flush
            &&& app.timeouts.len() == 0 ==> before.effects == seq![flush]
            &&& after.effects == before.effects.drop_last() + (if t.suppressed_by_fullscreen {
                letting_go(t) + asking(app, app.timeouts.len() as int, t.timeout_ms, true)
            } else {
                seq![]
            }) + seq![flush]
            &&& after.app == with_one_more(
                before.app,
                if t.suppressed_by_fullscreen {
                    TimeoutModel { suppressed_by_fullscreen: false, notification: None, ..t }
                } else {
                    t
                },
            )
            &&& !before.app.fullscreen_active
            &&& before.app == (AppModel {
                timeouts: before.app.timeouts,
                fullscreen_active: false,
                ..app
            })
            &&& app.timeouts.len() == 0 ==> before.app.timeouts == app.timeouts
        }),
{
    let more = with_one_more(app, t);
    let n = app.timeouts.len();
    let before = syncing(app, false);
    let after = syncing(more, false);
    lemma_releases_of_front(app, t, n);
    assert(more.timeouts[n as int] == t);
    let part = if t.suppressed_by_fullscreen {
        letting_go(t) + asking(app, n as int, t.timeout_ms, true)
    } else {
        seq![]
    };
    assert(registration(more, n as int, t.timeout_ms, true) =~= letting_go(t) + asking(
        app,
        n as int,
        t.timeout_ms,
        true,
    ));
    assert(before.effects.drop_last() =~= releases(app, n));
    assert(releases(more, n + 1) =~= releases(app, n) + part);
    assert(after.effects =~= before.effects.drop_last() + part + seq![
        EffectModel::FlushWayland(app.wl),
    ]);
    assert(after.app.timeouts =~= with_one_more(
        before.app,
        if t.suppressed_by_fullscreen {
            TimeoutModel { suppressed_by_fullscreen: false, notification: None, ..t }
        } else {
            t
        },
    ).timeouts);
    if n == 0 {
        assert(before.app.timeouts =~= app.timeouts);
        assert(before.effects =~= seq![EffectModel::FlushWayland(app.wl)]);
    }
}

/// Unless the last fullscreen window has just gone, a look at such windows does nothing but
/// remember, under the policy to suppress, whether there is one.
pub proof fn law_look_at_windows_remembers(app: AppModel, active: bool)
    requires
        app.fullscreen_policy == FullscreenPolicy::Ignore || !app.fullscreen_active || active,
    ensures
        syncing(app, active).effects == Seq::<EffectModel>::empty(),
        syncing(app, active).app == (AppModel {
            fullscreen_active: if app.fullscreen_policy == FullscreenPolicy::Ignore {
                app.fullscreen_active
            } else {
                active
            },
            ..app
        }),
{
}

/// Each event of the login manager runs its own command, whatever else the session holds, and
/// whether commands are waited for or not. An event without a command, and an event of any
/// other number, runs nothing.
pub proof fn law_login_events_run_their_commands(app: AppModel, event: int)
    ensures
        run(app, logind_command(app, 1)) == just(app, app.before_sleep_cmd),
        run(app, logind_command(app, 2)) == just(app, app.after_resume_cmd),
        run(app, logind_command(app, 3)) == just(app, app.lock_cmd),
        run(app, logind_command(app, 4)) == just(app, app.unlock_cmd),
        event < 1 || event > 4 ==> run(app, logind_command(app, event)) == Seq::<
            EffectModel,
        >::empty(),
{
}

/// The login manager is connected to where any of its events has a command, for just these
/// events. Where no support for it is built in, that is an error.
pub proof fn law_login_manager_is_wanted_for_its_commands(app: AppModel)
    ensures
        ({
            let sleep = app.before_sleep_cmd is Some || app.after_resume_cmd is Some;
            let any = sleep || app.lock_cmd is Some || app.unlock_cmd is Some;
            &&& !any ==> logind_plan(app, true) == Ok::<LogindPlan, Seq<char>>(
                LogindPlan::NotNeeded,
            ) && logind_plan(app, false) == logind_plan(app, true)
            &&& any ==> logind_plan(app, false) == Err::<LogindPlan, Seq<char>>(
                "logind support was not built in"@,
            )
            &&& any ==> logind_plan(app, true) == Ok::<LogindPlan, Seq<char>>(
                LogindPlan::Connect {
                    want_sleep: sleep,
                    want_lock: app.lock_cmd is Some,
                    want_unlock: app.unlock_cmd is Some,
                },
            )
        }),
{
}

proof fn lemma_dismissals_of_front(ts: Seq<TimeoutModel>, t: TimeoutModel, n: nat)
    requires
        n <= ts.len(),
    ensures
        dismissals(ts.push(t), n) == dismissals(ts, n),
    decreases n,
{
    if n > 0 {
        lemma_dismissals_of_front(ts, t, (n - 1) as nat);
        assert(ts.push(t)[n - 1] == ts[n - 1]);
    }
}

/// Giving up all notifications gives up what each timeout holds, in order, and changes nothing
/// else in any of them.
pub proof fn law_giving_up_all_treats_each(app: AppModel, t: TimeoutModel)
    ensures
        dismissals(seq![], 0) == Seq::<EffectModel>::empty(),
        dismissals(app.timeouts.push(t), app.timeouts.len() + 1) == dismissals(
            app.timeouts,
            app.timeouts.len(),
        ) + letting_go(t),
        app.timeouts.len() == 0 ==> all_dismissed(app) == app,
        all_dismissed(with_one_more(app, t)) == with_one_more(
            all_dismissed(app),
            TimeoutModel { notification: None, ..t },
        ),
{
    let n = app.timeouts.len();
    lemma_dismissals_of_front(app.timeouts, t, n);
    assert(app.timeouts.push(t)[n as int] == t);
    assert(all_dismissed(with_one_more(app, t)).timeouts =~= with_one_more(
        all_dismissed(app),
        TimeoutModel { notification: None, ..t },
    ).timeouts);
    if n == 0 {
        assert(all_dismissed(app).timeouts =~= app.timeouts);
    }
}

/// A session that is released gives up all notifications first, then the login manager and
/// last the compositor, each where there is one, and does nothing else.
pub proof fn law_release_is_in_order(app: AppModel)
    ensures
        release_effects(app) == dismissals(app.timeouts, app.timeouts.len()) + (
        if app.logind is Some {
            seq![EffectModel::DestroyLogind(app.logind)]
        } else {
            seq![]
        }) + (if app.wl is Some {
            seq![EffectModel::DestroyWayland(app.wl)]
        } else {
            seq![]
        }),
{
}

/// A session takes its timeouts, its commands and its ways from the settings, and from nothing
/// else: the timeouts as nothing had happened to them, all log lines where debugging, the
/// connection that was made, and none to the login manager.
pub proof fn law_session_is_what_was_set(config: ConfigModel, wl: Option<usize>)
    ensures
        ({
            let app = new_app(session_of(config), wl);
            &&& app == (AppModel {
                wl,
                logind: None,
                timeouts: app.timeouts,
                wait: config.wait,
                before_sleep_cmd: config.before_sleep_cmd,
                after_resume_cmd: config.after_resume_cmd,
                lock_cmd: config.lock_cmd,
                unlock_cmd: config.unlock_cmd,
                log_level: if config.debug {
                    LogLevel::Debug
                } else {
                    LogLevel::Info
                },
                fullscreen_active: false,
                fullscreen_policy: config.fullscreen_policy,
            })
            &&& app.timeouts.len() == config.timeouts.len()
            &&& forall|i: int|
                0 <= i < config.timeouts.len() ==> #[trigger] app.timeouts[i] == (TimeoutModel {
                    timeout_ms: config.timeouts[i].timeout_ms,
                    registered_timeout_ms: -1,
                    idle_cmd: config.timeouts[i].idle_cmd,
                    resume_cmd: config.timeouts[i].resume_cmd,
                    resume_pending: false,
                    suppressed_by_fullscreen: false,
                    notification: None,
                })
        }),
        new_app(config, wl).timeouts == config.timeouts,
{
}

} // verus!
