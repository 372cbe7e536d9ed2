//! What the models hold of the values that they stand for: everything.

use vstd::prelude::*;

use crate::app::{effects_of, App, AppModel, Effect, EffectModel};
use crate::config::{timeout_models, Config, ConfigModel, TimeoutCmd, TimeoutModel};
use crate::event_loop::{loop_error_text, turn_of, LoopError, Step, Turn};
use crate::startup::{CheckStep, Checked};
use crate::text::{opt_text, texts};

verus! {

/// The text of a string that is there is what it holds, and a string that is not there has
/// none. A list of strings has the text of each.
pub proof fn law_texts_are_what_strings_hold(s: Option<String>, list: Seq<String>, i: int)
    ensures
        s is None <==> opt_text(s) is None,
        s is Some ==> opt_text(s) == Some(s->0@),
        texts(list).len() == list.len(),
        0 <= i < list.len() ==> texts(list)[i] == list[i]@,
{
}

/// The model of a timeout holds all of it.
pub proof fn law_timeout_is_seen_whole(t: TimeoutCmd, list: Seq<TimeoutCmd>, i: int)
    ensures
        t@ == (TimeoutModel {
            timeout_ms: t.timeout_ms as int,
            registered_timeout_ms: t.registered_timeout_ms as int,
            idle_cmd: opt_text(t.idle_cmd),
            resume_cmd: opt_text(t.resume_cmd),
            resume_pending: t.resume_pending,
            suppressed_by_fullscreen: t.suppressed_by_fullscreen,
            notification: t.notification,
        }),
        timeout_models(list).len() == list.len(),
        0 <= i < list.len() ==> timeout_models(list)[i] == list[i]@,
{
}

/// The model of the settings holds all of them.
pub proof fn law_config_is_seen_whole(config: Config)
    ensures
        config@ == (ConfigModel {
            help: config.help,
            wait: config.wait,
            debug: config.debug,
            no_config: config.no_config,
            dry_run: config.dry_run,
            print_events: config.print_events,
            validate_config: config.validate_config,
            fullscreen_policy: config.fullscreen_policy,
            seat_name: opt_text(config.seat_name),
            config_path: opt_text(config.config_path),
            timeouts: timeout_models(config.timeouts@),
            before_sleep_cmd: opt_text(config.before_sleep_cmd),
            after_resume_cmd: opt_text(config.after_resume_cmd),
            lock_cmd: opt_text(config.lock_cmd),
            unlock_cmd: opt_text(config.unlock_cmd),
        }),
{
}

/// The model of a session holds all of it.
pub proof fn law_session_is_seen_whole(app: App)
    ensures
        app@ == (AppModel {
            wl: app.wl,
            logind: app.logind,
            timeouts: timeout_models(app.timeouts@),
            wait: app.wait,
            before_sleep_cmd: opt_text(app.before_sleep_cmd),
            after_resume_cmd: opt_text(app.after_resume_cmd),
            lock_cmd: opt_text(app.lock_cmd),
            unlock_cmd: opt_text(app.unlock_cmd),
            log_level: app.log_level,
            fullscreen_active: app.fullscreen_active,
            fullscreen_policy: app.fullscreen_policy,
        }),
{
}

/// The model of an effect holds all of it, and that of a list holds each effect in its place.
pub proof fn law_effect_is_seen_whole(e: Effect, list: Seq<Effect>, i: int)
    ensures
        match e {
            Effect::Log { current, level, message } => e@ == (EffectModel::Log {
                current,
                level,
                message: message@,
            }),
            Effect::Exec { command, wait, level } => e@ == (EffectModel::Exec {
                command: command@,
                wait,
                level,
            }),
            Effect::CreateNotification { wl, idx, data, timeout_ms, obey_inhibitors } => e@ == (
            EffectModel::CreateNotification {
                wl,
                idx: idx as int,
                data: data as int,
                timeout_ms: timeout_ms as int,
                obey_inhibitors,
            }),
            Effect::DestroyNotification(handle) => e@ == EffectModel::DestroyNotification(handle),
            Effect::FlushWayland(wl) => e@ == EffectModel::FlushWayland(wl),
            Effect::DestroyWayland(wl) => e@ == EffectModel::DestroyWayland(wl),
            Effect::DestroyLogind(logind) => e@ == EffectModel::DestroyLogind(logind),
        },
        effects_of(list).len() == list.len(),
        0 <= i < list.len() ==> effects_of(list)[i] == list[i]@,
{
}

/// What a step of the loop, or of looking over a connection, says is its effects and its
/// question.
pub proof fn law_steps_are_seen_whole(app: AppModel, step: Step, check: CheckStep)
    ensures
        turn_of(app, step) == (Turn {
            app,
            effects: effects_of(step.effects@),
            next: step.next,
        }),
        check@ == (Checked { effects: effects_of(check.effects@), next: check.next }),
{
}

/// Each reason to give up the loop has its own message.
pub proof fn law_errors_have_messages()
    ensures
        loop_error_text(LoopError::RoundtripFailed) == "Wayland roundtrip failed"@,
        loop_error_text(LoopError::FlushFailed) == "Wayland flush failed"@,
        loop_error_text(LoopError::ConnectionLost) == "Wayland connection lost"@,
        loop_error_text(LoopError::ReconnectFailed) == "Wayland reconnect failed"@,
        loop_error_text(LoopError::NoIdleNotify) == "Wayland reconnect: no ext-idle-notify"@,
        loop_error_text(LoopError::NoSeat) == "Wayland reconnect: no seat"@,
{
}

} // verus!
