//! What holds of a session, whatever happens to it.

use vstd::prelude::*;

use crate::app::{
    created, dismissal, dismissals, dismissed, idling, logind_command, registering_all,
    registration, registrations, releases, resuming, resumption, resumptions, run, syncing,
    AppModel, Change, EffectModel,
};
use crate::config::{FullscreenPolicy, TimeoutModel};
use crate::event_loop::{
    after_change, beginning, drained, look_at_fullscreen, on, preceded, reconnecting, synced,
    turn, AfterDrain, AfterSync, Answer, Ask, CallbackEvent, LoopError, Turn,
};

verus! {

/// Whether two sessions are about the same timeouts and commands.
pub open spec fn same_settings(a: AppModel, b: AppModel) -> bool {
    &&& a.timeouts.len() == b.timeouts.len()
    &&& forall|i: int|
        0 <= i < a.timeouts.len() ==> {
            &&& (#[trigger] a.timeouts[i]).timeout_ms == b.timeouts[i].timeout_ms
            &&& a.timeouts[i].idle_cmd == b.timeouts[i].idle_cmd
            &&& a.timeouts[i].resume_cmd == b.timeouts[i].resume_cmd
        }
    &&& a.wait == b.wait
    &&& a.before_sleep_cmd == b.before_sleep_cmd
    &&& a.after_resume_cmd == b.after_resume_cmd
    &&& a.lock_cmd == b.lock_cmd
    &&& a.unlock_cmd == b.unlock_cmd
    &&& a.log_level == b.log_level
    &&& a.fullscreen_policy == b.fullscreen_policy
}

/// Settings that stay the same from one session to a second, and from that to a third,
/// stay the same from the first to the third.
proof fn lemma_same_settings_twice(a: AppModel, b: AppModel, c: AppModel)
    requires
        same_settings(a, b),
        same_settings(b, c),
    ensures
        same_settings(a, c),
{
    assert forall|i: int| 0 <= i < a.timeouts.len() implies {
        &&& (#[trigger] a.timeouts[i]).timeout_ms == c.timeouts[i].timeout_ms
        &&& a.timeouts[i].idle_cmd == c.timeouts[i].idle_cmd
        &&& a.timeouts[i].resume_cmd == c.timeouts[i].resume_cmd
    } by {
        assert(a.timeouts[i].timeout_ms == b.timeouts[i].timeout_ms);
        assert(b.timeouts[i].timeout_ms == c.timeouts[i].timeout_ms);
    }
}

/// A look at fullscreen windows, and what follows from it, keeps the settings.
proof fn lemma_synced_keeps_the_settings(app: AppModel, after: AfterSync)
    ensures
        same_settings(app, synced(app, after).app),
        same_settings(app, look_at_fullscreen(app, after).app),
{
}

/// No answer changes what the timeouts are and which commands belong to them.
pub proof fn law_turns_keep_the_settings(app: AppModel, ask: Ask, answer: Answer)
    ensures
        same_settings(app, turn(app, ask, answer).app),
{
    match (ask, answer) {
        (Ask::Terminate, Answer::Flag(terminate)) => {},
        (Ask::ForceIdle, Answer::Flag(force)) => {
            let forced = registering_all(app, true).app;
            lemma_synced_keeps_the_settings(forced, AfterSync::Drain);
            lemma_same_settings_twice(
                app,
                forced,
                look_at_fullscreen(forced, AfterSync::Drain).app,
            );
        },
        (Ask::SyncFullscreen { after, .. }, Answer::Code(ret)) => {
            let now = syncing(app, ret != 0).app;
            assert(same_settings(app, now));
        },
        (Ask::IdleFullscreen { idx, drain, .. }, Answer::Code(ret)) => {},
        (Ask::NextCallback(after), Answer::Callback(event)) => {},
        (Ask::Poll { .. }, Answer::PollFailed { .. }) => {},
        (Ask::Poll { logind_fd, .. }, Answer::Polled { wayland, logind }) => {},
        (Ask::Dispatch { wayland, logind, .. }, Answer::Code(ret)) => {
            lemma_synced_keeps_the_settings(app, AfterSync::Closed { wayland, logind });
        },
        (Ask::HasSeat(wl), Answer::Code(ret)) => {},
        _ => {},
    }
}

/// What holds of a session while the loop waits for the answer to `ask`: there is a
/// connection, and the question is about it, except while the loop connects anew, when no
/// notification is held either. A question about the login manager is about the one that
/// is connected.
pub open spec fn loop_invariant(app: AppModel, ask: Ask) -> bool {
    let lost = app.wl is None && forall|i: int|
        0 <= i < app.timeouts.len() ==> (#[trigger] app.timeouts[i]).notification is None;
    let sees_logind = |shown: Option<i16>| shown is Some ==> app.logind is Some;
    match ask {
        Ask::Connect | Ask::HasIdle(_) | Ask::HasSeat(_) => lost,
        Ask::Failed(LoopError::ReconnectFailed) => lost,
        Ask::Failed(LoopError::NoIdleNotify) => lost,
        Ask::Failed(LoopError::NoSeat) => lost,
        Ask::Roundtrip(wl) => app.wl is Some && wl == app.wl,
        Ask::Flush(wl) => app.wl is Some && wl == app.wl,
        Ask::WaylandFd(wl) => app.wl is Some && wl == app.wl,
        Ask::SyncFullscreen { wl, after } => app.wl is Some && wl == app.wl && match after {
            AfterSync::Closed { logind, .. } => sees_logind(logind),
            AfterSync::Drain => true,
        },
        Ask::IdleFullscreen { wl, idx, drain } => app.wl is Some && wl == app.wl && idx
            < app.timeouts.len() && app.fullscreen_policy == FullscreenPolicy::Suppress
            && match drain {
            AfterDrain::Logind(shown) => sees_logind(shown),
            AfterDrain::Poll => true,
        },
        Ask::NextCallback(AfterDrain::Logind(shown)) => app.wl is Some && sees_logind(shown),
        Ask::Closed { logind, .. } => app.wl is Some && sees_logind(logind),
        Ask::Dispatch { wl, logind, .. } => app.wl is Some && wl == app.wl && sees_logind(logind),
        Ask::LogindFd { handle, .. } => app.wl is Some && app.logind is Some && handle
            == app.logind,
        Ask::Poll { logind_fd, .. } => app.wl is Some && (logind_fd is Some ==> app.logind is Some),
        Ask::LogindProcess(handle) => app.wl is Some && app.logind is Some && handle == app.logind,
        _ => app.wl is Some,
    }
}

/// A loop that begins with a connection begins well.
pub proof fn law_loop_begins_well(app: AppModel)
    requires
        app.wl is Some,
    ensures
        loop_invariant(beginning(app).app, beginning(app).next),
{
}

/// A loop that gives up its connection goes on well.
proof fn lemma_reconnecting_is_well(app: AppModel, reason: Seq<char>)
    ensures
        loop_invariant(reconnecting(app, reason).app, Ask::Connect),
{
    let after = reconnecting(app, reason).app;
    assert forall|i: int| 0 <= i < after.timeouts.len() implies (
    #[trigger] after.timeouts[i]).notification is None by {
        assert(after.timeouts[i] == dismissed(app.timeouts[i]));
    }
}

/// A loop that has looked at fullscreen windows goes on well.
proof fn lemma_synced_is_well(app: AppModel, after: AfterSync)
    requires
        app.wl is Some,
        match after {
            AfterSync::Closed { logind, .. } => logind is Some ==> app.logind is Some,
            AfterSync::Drain => true,
        },
    ensures
        loop_invariant(synced(app, after).app, synced(app, after).next),
        loop_invariant(look_at_fullscreen(app, after).app, look_at_fullscreen(app, after).next),
{
    lemma_reconnecting_is_well(app, "Wayland connection closed, reconnecting"@);
}

/// A loop that has seen to all reports goes on well.
proof fn lemma_drained_is_well(app: AppModel, after: AfterDrain)
    requires
        app.wl is Some,
        match after {
            AfterDrain::Logind(shown) => shown is Some ==> app.logind is Some,
            AfterDrain::Poll => true,
        },
    ensures
        loop_invariant(drained(app, after).app, drained(app, after).next),
{
}

/// Whatever the answer, the loop goes on as well as it was.
pub proof fn law_loop_goes_on_well(app: AppModel, ask: Ask, answer: Answer)
    requires
        loop_invariant(app, ask),
    ensures
        loop_invariant(turn(app, ask, answer).app, turn(app, ask, answer).next),
{
    match (ask, answer) {
        (Ask::ForceIdle, Answer::Flag(force)) => {
            lemma_synced_is_well(registering_all(app, true).app, AfterSync::Drain);
        },
        (Ask::SyncFullscreen { after, .. }, Answer::Code(ret)) => {
            let now = syncing(app, ret != 0).app;
            assert(now.wl == app.wl && now.logind == app.logind);
        },
        (Ask::Closed { wayland, logind }, Answer::Done) => {
            lemma_synced_is_well(app, AfterSync::Closed { wayland, logind });
        },
        (Ask::IdleFullscreen { idx, drain, .. }, Answer::Code(ret)) => {
            let now = idling(app, idx as int, ret != 0).app;
            assert(now.wl == app.wl && now.logind == app.logind);
        },
        (Ask::NextCallback(after), Answer::Callback(event)) => {
            match event {
                None => lemma_drained_is_well(app, after),
                Some(CallbackEvent::Idle(idx)) => {
                    let now = idling(app, idx as int, false).app;
                    assert(now.wl == app.wl && now.logind == app.logind);
                },
                Some(CallbackEvent::Resume(idx)) => {
                    let now = resuming(app, idx as int).app;
                    assert(now.wl == app.wl && now.logind == app.logind);
                },
                Some(CallbackEvent::Logind(_)) => {},
            }
        },
        (Ask::Poll { logind_fd, .. }, Answer::Polled { wayland, logind }) => {
            let shown = if logind_fd is Some {
                Some(logind)
            } else {
                None
            };
            lemma_synced_is_well(app, AfterSync::Closed { wayland, logind: shown });
        },
        (Ask::Dispatch { wayland, logind, .. }, Answer::Code(ret)) => {
            lemma_synced_is_well(app, AfterSync::Closed { wayland, logind });
            lemma_reconnecting_is_well(app, "Wayland dispatch failed, reconnecting"@);
        },
        _ => {},
    }
}

/// Hearing what came of asking for a notification makes no difference to a loop that has a
/// connection.
pub proof fn law_reports_keep_the_loop_well(
    app: AppModel,
    ask: Ask,
    idx: int,
    timeout_ms: int,
    notification: Option<usize>,
)
    requires
        loop_invariant(app, ask),
        app.wl is Some,
        0 <= idx < app.timeouts.len(),
    ensures
        loop_invariant(created(app, idx, timeout_ms, notification).app, ask),
        same_settings(app, created(app, idx, timeout_ms, notification).app),
{
}

/// Whether `p` holds of every effect on the list.
pub open spec fn every(effects: Seq<EffectModel>, p: spec_fn(EffectModel) -> bool) -> bool {
    forall|i: int| 0 <= i < effects.len() ==> p(#[trigger] effects[i])
}

/// Whether `p` holds of all that asking for notifications over `wl` can need.
pub open spec fn holds_of_registering(p: spec_fn(EffectModel) -> bool, wl: Option<usize>) -> bool {
    &&& forall|e: EffectModel| e is Log ==> #[trigger] p(e)
    &&& forall|e: EffectModel| e is DestroyNotification ==> #[trigger] p(e)
    &&& forall|e: EffectModel|
        e is CreateNotification && e->CreateNotification_wl == wl ==> #[trigger] p(e)
}

/// What holds of every effect on two lists holds on the list that they make up.
pub(crate) proof fn lemma_every_of_both(
    a: Seq<EffectModel>,
    b: Seq<EffectModel>,
    p: spec_fn(EffectModel) -> bool,
)
    requires
        every(a, p),
        every(b, p),
    ensures
        every(a + b, p),
{
    assert forall|i: int| 0 <= i < (a + b).len() implies p(#[trigger] (a + b)[i]) by {
        if i < a.len() {
            assert((a + b)[i] == a[i]);
        } else {
            assert((a + b)[i] == b[i - a.len()]);
        }
    }
}

proof fn lemma_every_dismissal(
    timeouts: Seq<TimeoutModel>,
    n: nat,
    p: spec_fn(EffectModel) -> bool,
)
    requires
        forall|e: EffectModel| e is DestroyNotification ==> #[trigger] p(e),
    ensures
        every(dismissals(timeouts, n), p),
    decreases n,
{
    if n > 0 {
        lemma_every_dismissal(timeouts, (n - 1) as nat, p);
        lemma_every_of_both(
            dismissals(timeouts, (n - 1) as nat),
            dismissal(timeouts[n - 1]),
            p,
        );
    }
}

proof fn lemma_every_registration(
    app: AppModel,
    n: nat,
    forced: bool,
    p: spec_fn(EffectModel) -> bool,
)
    requires
        holds_of_registering(p, app.wl),
    ensures
        every(registrations(app, n, forced), p),
    decreases n,
{
    if n > 0 {
        lemma_every_registration(app, (n - 1) as nat, forced, p);
        let timeout_ms = if forced {
            0
        } else {
            app.timeouts[n - 1].timeout_ms
        };
        let part = registration(app, n - 1, timeout_ms, !forced);
        assert(every(part, p));
        lemma_every_of_both(registrations(app, (n - 1) as nat, forced), part, p);
    }
}

proof fn lemma_every_release(app: AppModel, n: nat, p: spec_fn(EffectModel) -> bool)
    requires
        holds_of_registering(p, app.wl),
    ensures
        every(releases(app, n), p),
    decreases n,
{
    if n > 0 {
        lemma_every_release(app, (n - 1) as nat, p);
        let part = if app.timeouts[n - 1].suppressed_by_fullscreen {
            registration(app, n - 1, app.timeouts[n - 1].timeout_ms, true)
        } else {
            seq![]
        };
        assert(every(part, p));
        lemma_every_of_both(releases(app, (n - 1) as nat), part, p);
    }
}

proof fn lemma_every_resumption(app: AppModel, n: nat, p: spec_fn(EffectModel) -> bool)
    requires
        holds_of_registering(p, app.wl),
        forall|e: EffectModel| e is Exec ==> #[trigger] p(e),
    ensures
        every(resumptions(app, n), p),
    decreases n,
{
    if n > 0 {
        lemma_every_resumption(app, (n - 1) as nat, p);
        let part = if app.timeouts[n - 1].resume_pending {
            resumption(app, n - 1)
        } else {
            seq![]
        };
        assert(every(part, p));
        lemma_every_of_both(resumptions(app, (n - 1) as nat), part, p);
    }
}

/// Whether `answer` to `ask` is one on which a command may be run: a timeout has fired
/// and no fullscreen window stands against its command, the user is active again, the
/// login manager has reported something, or the daemon ends.
pub open spec fn calls_for_a_command(app: AppModel, ask: Ask, answer: Answer) -> bool {
    let heeds = app.fullscreen_policy == FullscreenPolicy::Suppress;
    match (ask, answer) {
        (Ask::Terminate, Answer::Flag(terminate)) => terminate,
        (Ask::IdleFullscreen { .. }, Answer::Code(ret)) => !heeds || ret == 0,
        (Ask::NextCallback(_), Answer::Callback(Some(CallbackEvent::Idle(_)))) => !heeds,
        (Ask::NextCallback(_), Answer::Callback(Some(CallbackEvent::Resume(_)))) => true,
        (Ask::NextCallback(_), Answer::Callback(Some(CallbackEvent::Logind(_)))) => true,
        _ => false,
    }
}

/// The connection that a turn asks for notifications over: the one that is just being
/// taken up, or the one that there is.
pub open spec fn connection_in_use(app: AppModel, ask: Ask) -> Option<usize> {
    match ask {
        Ask::HasSeat(wl) => Some(wl),
        _ => app.wl,
    }
}

/// Whether `wl` is the connection that there is, or the one that is just being looked at.
pub open spec fn connection_at_hand(app: AppModel, ask: Ask, wl: usize) -> bool {
    app.wl == Some(wl) || ask == Ask::HasIdle(wl) || ask == Ask::HasSeat(wl)
}

/// Whether the answer to `ask` can bring up the login manager.
spec fn sees_to_logind(ask: Ask) -> bool {
    match ask {
        Ask::LogindProcess(_) => true,
        Ask::NextCallback(AfterDrain::Logind(shown)) => shown is Some,
        _ => false,
    }
}

/// Whether `p` holds of all that a turn of the loop can need.
spec fn holds_of_turn(
    p: spec_fn(EffectModel) -> bool,
    app: AppModel,
    ask: Ask,
    answer: Answer,
) -> bool {
    &&& holds_of_registering(p, connection_in_use(app, ask))
    &&& (!(ask is HasSeat) ==> p(EffectModel::FlushWayland(app.wl)))
    &&& p(EffectModel::DestroyWayland(app.wl))
    &&& p(EffectModel::DestroyWayland(None))
    &&& (sees_to_logind(ask) ==> p(EffectModel::DestroyLogind(app.logind)))
    &&& (ask is HasIdle ==> p(EffectModel::DestroyWayland(Some(ask->HasIdle_0))))
    &&& (ask is HasSeat ==> p(EffectModel::DestroyWayland(Some(ask->HasSeat_0))))
    &&& (calls_for_a_command(app, ask, answer) ==> forall|e: EffectModel|
        e is Exec ==> #[trigger] p(e))
}

pub(crate) proof fn lemma_every_reconnecting(
    app: AppModel,
    reason: Seq<char>,
    p: spec_fn(EffectModel) -> bool,
)
    requires
        forall|e: EffectModel| e is Log ==> #[trigger] p(e),
        forall|e: EffectModel| e is DestroyNotification ==> #[trigger] p(e),
        p(EffectModel::DestroyWayland(app.wl)),
        p(EffectModel::DestroyWayland(None)),
    ensures
        every(reconnecting(app, reason).effects, p),
{
    let middle = dismissals(app.timeouts, app.timeouts.len());
    lemma_every_dismissal(app.timeouts, app.timeouts.len(), p);
    let effects = reconnecting(app, reason).effects;
    assert forall|i: int| 0 <= i < effects.len() implies p(#[trigger] effects[i]) by {
        if 2 <= i < 2 + middle.len() {
            assert(effects[i] == middle[i - 2]);
        }
    }
}

pub(crate) proof fn lemma_every_synced(app: AppModel, after: AfterSync, p: spec_fn(EffectModel) -> bool)
    requires
        forall|e: EffectModel| e is Log ==> #[trigger] p(e),
        forall|e: EffectModel| e is DestroyNotification ==> #[trigger] p(e),
        p(EffectModel::DestroyWayland(app.wl)),
        p(EffectModel::DestroyWayland(None)),
    ensures
        every(synced(app, after).effects, p),
        every(look_at_fullscreen(app, after).effects, p),
{
    lemma_every_reconnecting(app, "Wayland connection closed, reconnecting"@, p);
}

/// What holds of all that a turn of the loop can need holds of all that it does.
proof fn lemma_every_turn(
    app: AppModel,
    ask: Ask,
    answer: Answer,
    p: spec_fn(EffectModel) -> bool,
)
    requires
        holds_of_turn(p, app, ask, answer),
    ensures
        every(turn(app, ask, answer).effects, p),
{
    let n = app.timeouts.len();
    match (ask, answer) {
        (Ask::Terminate, Answer::Flag(terminate)) => {
            if terminate {
                lemma_every_resumption(app, n, p);
            }
        },
        (Ask::ForceIdle, Answer::Flag(force)) => {
            let change = registering_all(app, true);
            lemma_every_registration(app, n, true, p);
            lemma_every_synced(change.app, AfterSync::Drain, p);
            let first = change.effects.push(EffectModel::FlushWayland(app.wl));
            assert(every(first, p));
            lemma_every_of_both(
                first,
                look_at_fullscreen(change.app, AfterSync::Drain).effects,
                p,
            );
        },
        (Ask::SyncFullscreen { after, .. }, Answer::Code(ret)) => {
            let change = syncing(app, ret != 0);
            lemma_every_release(app, n, p);
            assert(every(change.effects, p));
        },
        (Ask::Closed { wayland, logind }, Answer::Done) => {
            lemma_every_synced(app, AfterSync::Closed { wayland, logind }, p);
        },
        (Ask::IdleFullscreen { idx, .. }, Answer::Code(ret)) => {
            assert(every(idling(app, idx as int, ret != 0).effects, p));
        },
        (Ask::NextCallback(after), Answer::Callback(event)) => {
            match event {
                None => {
                    assert(every(drained(app, after).effects, p));
                },
                Some(CallbackEvent::Idle(idx)) => {
                    if app.fullscreen_policy == FullscreenPolicy::Suppress {
                        assert(idx >= app.timeouts.len() ==> idling(
                            app,
                            idx as int,
                            false,
                        ).effects.len() == 0);
                    } else {
                        assert(every(idling(app, idx as int, false).effects, p));
                    }
                },
                Some(CallbackEvent::Resume(idx)) => {
                    assert(every(resuming(app, idx as int).effects, p));
                },
                Some(CallbackEvent::Logind(number)) => {
                    assert(every(run(app, logind_command(app, number as int)), p));
                },
            }
        },
        (Ask::Poll { logind_fd, .. }, Answer::Polled { wayland, logind }) => {
            let shown = if logind_fd is Some {
                Some(logind)
            } else {
                None
            };
            lemma_every_synced(app, AfterSync::Closed { wayland, logind: shown }, p);
        },
        (Ask::Dispatch { wayland, logind, .. }, Answer::Code(ret)) => {
            let after = AfterSync::Closed { wayland, logind };
            lemma_every_reconnecting(app, "Wayland dispatch failed, reconnecting"@, p);
            lemma_every_synced(app, after, p);
            let first = seq![EffectModel::FlushWayland(app.wl)];
            assert(every(first, p));
            lemma_every_of_both(first, look_at_fullscreen(app, after).effects, p);
        },
        (Ask::HasSeat(wl), Answer::Code(ret)) => {
            let taken = AppModel { wl: Some(wl), ..app };
            lemma_every_registration(taken, n, false, p);
        },
        _ => {},
    }
}

/// Whether an effect of a turn is about a connection that is at hand.
pub open spec fn live(app: AppModel, ask: Ask, e: EffectModel) -> bool {
    match e {
        EffectModel::CreateNotification { wl, .. } => wl is Some && wl == connection_in_use(
            app,
            ask,
        ),
        EffectModel::FlushWayland(wl) => wl is Some && wl == app.wl,
        EffectModel::DestroyWayland(Some(wl)) => connection_at_hand(app, ask, wl),
        EffectModel::DestroyLogind(logind) => logind is Some && logind == app.logind,
        _ => true,
    }
}

/// Whatever the answer, everything that a turn does with a connection it does with one
/// that is at hand.
pub proof fn law_turns_use_live_connections(app: AppModel, ask: Ask, answer: Answer)
    requires
        loop_invariant(app, ask),
    ensures
        every(turn(app, ask, answer).effects, |e: EffectModel| live(app, ask, e)),
{
    let p = |e: EffectModel| live(app, ask, e);
    if connection_in_use(app, ask) is Some {
        lemma_every_turn(app, ask, answer, p);
    } else {
        let effects = turn(app, ask, answer).effects;
        match ask {
            Ask::HasIdle(wl) => {
                assert forall|i: int| 0 <= i < effects.len() implies p(#[trigger] effects[i]) by {
                    assert(effects[i] == EffectModel::DestroyWayland(Some(wl)));
                }
            },
            _ => {
                assert(effects.len() == 0);
            },
        }
    }
}

/// Whether nothing on the list comes behind giving up a connection but giving up
/// notifications, and giving up no connection.
pub open spec fn nothing_used_after_giving_up(effects: Seq<EffectModel>) -> bool {
    forall|i: int, j: int|
        0 <= i < j < effects.len() && (#[trigger] effects[i]) is DestroyWayland
            && effects[i]->DestroyWayland_0 is Some ==> {
            ||| (#[trigger] effects[j]) is DestroyNotification
            ||| effects[j] == EffectModel::DestroyWayland(None)
        }
}

/// Giving up a connection comes last, however much was done ahead of it.
proof fn lemma_giving_up_comes_last(
    first: Seq<EffectModel>,
    reconnect: Seq<EffectModel>,
    app: AppModel,
    reason: Seq<char>,
)
    requires
        every(first, |e: EffectModel| !(e is DestroyWayland)),
        reconnect == reconnecting(app, reason).effects || reconnect.len() == 0,
    ensures
        nothing_used_after_giving_up(first + reconnect),
{
    let all = first + reconnect;
    let q = |e: EffectModel| !(e is DestroyWayland);
    let middle = dismissals(app.timeouts, app.timeouts.len());
    let r = |e: EffectModel| e is DestroyNotification;
    lemma_every_dismissal(app.timeouts, app.timeouts.len(), r);
    assert forall|i: int, j: int|
        0 <= i < j < all.len() && (#[trigger] all[i]) is DestroyWayland
            && all[i]->DestroyWayland_0 is Some implies {
        ||| (#[trigger] all[j]) is DestroyNotification
        ||| all[j] == EffectModel::DestroyWayland(None)
    } by {
        if i < first.len() {
            assert(all[i] == first[i]);
            assert(q(first[i]));
        } else {
            let a = i - first.len();
            let b = j - first.len();
            assert(all[i] == reconnect[a]);
            assert(all[j] == reconnect[b]);
            if 2 <= a < 2 + middle.len() {
                assert(reconnect[a] == middle[a - 2]);
                assert(r(middle[a - 2]));
            }
            if 2 <= b < 2 + middle.len() {
                assert(reconnect[b] == middle[b - 2]);
                assert(r(middle[b - 2]));
            }
        }
    }
}

/// Once a turn has given up a connection, it does nothing more with it, but for giving up
/// the notifications that were held over it.
pub proof fn law_nothing_is_used_after_giving_up(app: AppModel, ask: Ask, answer: Answer)
    ensures
        nothing_used_after_giving_up(turn(app, ask, answer).effects),
{
    let n = app.timeouts.len();
    let q = |e: EffectModel| !(e is DestroyWayland);
    let closed = "Wayland connection closed, reconnecting"@;
    let failed = "Wayland dispatch failed, reconnecting"@;
    let empty = Seq::<EffectModel>::empty();
    let all = turn(app, ask, answer).effects;
    match (ask, answer) {
        (Ask::Terminate, Answer::Flag(terminate)) => {
            if terminate {
                lemma_every_resumption(app, n, q);
            }
            lemma_giving_up_comes_last(all, empty, app, closed);
            assert(all + empty == all);
        },
        (Ask::ForceIdle, Answer::Flag(force)) => {
            if force {
                lemma_every_registration(app, n, true, q);
                let change = registering_all(app, true);
                let first = change.effects.push(EffectModel::FlushWayland(app.wl));
                let second = look_at_fullscreen(change.app, AfterSync::Drain).effects;
                assert(every(first, q));
                lemma_giving_up_comes_last(first, second, change.app, closed);
            }
        },
        (Ask::SyncFullscreen { after, .. }, Answer::Code(ret)) => {
            let change = syncing(app, ret != 0);
            lemma_every_release(app, n, q);
            assert(every(change.effects, q));
            lemma_giving_up_comes_last(all, empty, app, closed);
            assert(all + empty == all);
        },
        (Ask::Closed { wayland, logind }, Answer::Done) => {
            lemma_giving_up_comes_last(empty, all, app, closed);
            assert(empty + all == all);
        },
        (Ask::IdleFullscreen { idx, .. }, Answer::Code(ret)) => {
            assert(every(idling(app, idx as int, ret != 0).effects, q));
            lemma_giving_up_comes_last(all, empty, app, closed);
            assert(all + empty == all);
        },
        (Ask::NextCallback(after), Answer::Callback(event)) => {
            match event {
                None => {
                    assert(every(drained(app, after).effects, q));
                },
                Some(CallbackEvent::Idle(idx)) => {
                    assert(every(idling(app, idx as int, false).effects, q));
                },
                Some(CallbackEvent::Resume(idx)) => {
                    assert(every(resuming(app, idx as int).effects, q));
                },
                Some(CallbackEvent::Logind(number)) => {
                    assert(every(run(app, logind_command(app, number as int)), q));
                },
            }
            assert(every(all, q));
            lemma_giving_up_comes_last(all, empty, app, closed);
            assert(all + empty == all);
        },
        (Ask::Poll { logind_fd, .. }, Answer::Polled { wayland, logind }) => {
            lemma_giving_up_comes_last(empty, all, app, closed);
            assert(empty + all == all);
        },
        (Ask::Dispatch { wayland, logind, .. }, Answer::Code(ret)) => {
            let after = AfterSync::Closed { wayland, logind };
            if ret < 0 {
                lemma_giving_up_comes_last(empty, all, app, failed);
                assert(empty + all == all);
            } else {
                let first = seq![EffectModel::FlushWayland(app.wl)];
                lemma_giving_up_comes_last(
                    first,
                    look_at_fullscreen(app, after).effects,
                    app,
                    closed,
                );
            }
        },
        (Ask::HasSeat(wl), Answer::Code(ret)) => {
            if ret != 0 {
                let taken = AppModel { wl: Some(wl), ..app };
                lemma_every_registration(taken, n, false, q);
                lemma_giving_up_comes_last(all, empty, app, closed);
                assert(all + empty == all);
            }
        },
        _ => {},
    }
}

/// A command is run on nothing but a cause for one. In particular, under the policy to
/// suppress, a timeout that fires while a window is fullscreen runs no command.
pub proof fn law_commands_have_a_cause(app: AppModel, ask: Ask, answer: Answer)
    ensures
        !calls_for_a_command(app, ask, answer) ==> every(
            turn(app, ask, answer).effects,
            |e: EffectModel| !(e is Exec),
        ),
{
    if !calls_for_a_command(app, ask, answer) {
        lemma_every_turn(app, ask, answer, |e: EffectModel| !(e is Exec));
    }
}

/// A report that is waiting, and what is met with when it is seen to: what the compositor
/// answers about fullscreen windows, and what comes of a notification that is asked for.
pub struct Report {
    pub event: CallbackEvent,
    pub fullscreen: i32,
    pub notification: Option<usize>,
}

/// A change whose effects have been performed in order, where each notification that was
/// asked for has become `notification`, and this was heard, and seen to, at once.
pub open spec fn performed(
    app: AppModel,
    effects: Seq<EffectModel>,
    notification: Option<usize>,
) -> Change
    decreases effects.len(),
{
    if effects.len() == 0 {
        Change { app, effects: seq![] }
    } else {
        let earlier = performed(app, effects.drop_last(), notification);
        let done = earlier.effects.push(effects.last());
        match effects.last() {
            EffectModel::CreateNotification { idx, timeout_ms, .. } => {
                let heard = created(earlier.app, idx, timeout_ms, notification);
                Change { app: heard.app, effects: done + heard.effects }
            },
            _ => Change { app: earlier.app, effects: done },
        }
    }
}

/// A turn whose effects have been performed.
pub open spec fn performed_turn(turn: Turn, notification: Option<usize>) -> Turn {
    after_change(performed(turn.app, turn.effects, notification), turn.next)
}

/// The loop hears of a report and, where it asks about fullscreen windows, the answer.
pub open spec fn hearing(app: AppModel, report: Report, after: AfterDrain) -> Turn {
    let first = performed_turn(
        turn(app, Ask::NextCallback(after), Answer::Callback(Some(report.event))),
        report.notification,
    );
    if first.next is IdleFullscreen {
        let second = performed_turn(
            turn(first.app, first.next, Answer::Code(report.fullscreen)),
            report.notification,
        );
        preceded(first.effects, second)
    } else {
        first
    }
}

/// The loop hears of the reports in `queue`, from front to back, for as long as it asks for
/// the next one.
pub open spec fn draining(app: AppModel, ask: Ask, queue: Seq<Report>) -> Turn
    decreases queue.len(),
{
    match ask {
        Ask::NextCallback(after) => if queue.len() == 0 {
            on(app, ask)
        } else {
            let first = hearing(app, queue[0], after);
            preceded(first.effects, draining(first.app, first.next, queue.skip(1)))
        },
        _ => on(app, ask),
    }
}

/// What is to be done about a report: that its timeout has fired, that the user has become
/// active again after it, or that the login manager has an event.
pub open spec fn handling(app: AppModel, report: Report) -> Change {
    match report.event {
        CallbackEvent::Idle(idx) => idling(app, idx as int, report.fullscreen != 0),
        CallbackEvent::Resume(idx) => resuming(app, idx as int),
        CallbackEvent::Logind(event) => Change {
            app,
            effects: run(app, logind_command(app, event as int)),
        },
    }
}

/// A session after the reports in `queue`, each handled once and in order, and everything
/// that was done about them.
pub open spec fn handled(app: AppModel, queue: Seq<Report>) -> Change
    decreases queue.len(),
{
    if queue.len() == 0 {
        Change { app, effects: seq![] }
    } else {
        let change = handling(app, queue[0]);
        let first = performed(change.app, change.effects, queue[0].notification);
        let rest = handled(first.app, queue.skip(1));
        Change { app: rest.app, effects: first.effects + rest.effects }
    }
}

/// Hearing of one report is handling it, and the loop goes on to the next.
proof fn lemma_hearing_is_handling(app: AppModel, report: Report, after: AfterDrain)
    ensures
        ({
            let change = handling(app, report);
            hearing(app, report, after) == after_change(
                performed(change.app, change.effects, report.notification),
                Ask::NextCallback(after),
            )
        }),
{
    if let CallbackEvent::Idle(idx) = report.event {
        if idx < app.timeouts.len() && app.fullscreen_policy == FullscreenPolicy::Suppress {
            let change = handling(app, report);
            let done = performed(change.app, change.effects, report.notification);
            assert(performed(app, seq![], report.notification).app == app);
            assert(Seq::<EffectModel>::empty() + done.effects =~= done.effects);
        }
    }
}

/// A queue of reports is seen to as a whole: from front to back, each report is handled
/// once, and nothing else is done; no report is left, and the loop goes on as it was to.
/// Where no report is waiting, nothing changes.
pub proof fn law_queue_is_drained_in_order(app: AppModel, queue: Seq<Report>, after: AfterDrain)
    ensures
        draining(app, Ask::NextCallback(after), queue) == after_change(
            handled(app, queue),
            Ask::NextCallback(after),
        ),
        turn(handled(app, queue).app, Ask::NextCallback(after), Answer::Callback(None)) == drained(
            handled(app, queue).app,
            after,
        ),
        queue.len() == 0 ==> handled(app, queue) == (Change { app, effects: seq![] }),
    decreases queue.len(),
{
    if queue.len() > 0 {
        lemma_hearing_is_handling(app, queue[0], after);
        let first = hearing(app, queue[0], after);
        law_queue_is_drained_in_order(first.app, queue.skip(1), after);
    }
}

} // verus!
