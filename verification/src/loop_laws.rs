//! What the event loop asks next, and what it does, on every answer to every question.

use vstd::prelude::*;

use crate::app::{
    all_dismissed, dismissals, idling, registering_all, resuming, resuming_pending, syncing,
    AppModel, EffectModel,
};
use crate::config::FullscreenPolicy;
use crate::effect_laws::{just, law_login_events_run_their_commands, line};
use crate::event_loop::{
    beginning, turn, AfterDrain, AfterSync, Answer, Ask, CallbackEvent, LoopError, Turn,
};
use crate::log::LogLevel;
use crate::timeout_laws::{asks_for, law_suppressed_timeouts_start_again};

verus! {

/// The loop goes on to `next`, and neither the session changes nor is anything done.
pub open spec fn only_asks(after: Turn, app: AppModel, next: Ask) -> bool {
    after.app == app && after.effects.len() == 0 && after.next == next
}

/// The loop begins with asking for all notifications and a round trip. Where that or the flush
/// behind it fails, the loop gives up; else it asks whether it is to terminate.
pub proof fn law_loop_starts(app: AppModel, wl: Option<usize>, ret: i32)
    ensures
        beginning(app) == (Turn {
            app: registering_all(app, false).app,
            effects: registering_all(app, false).effects,
            next: Ask::Roundtrip(app.wl),
        }),
        only_asks(
            turn(app, Ask::Roundtrip(wl), Answer::Code(ret)),
            app,
            if ret < 0 {
                Ask::Failed(LoopError::RoundtripFailed)
            } else {
                Ask::Flush(app.wl)
            },
        ),
        only_asks(
            turn(app, Ask::Flush(wl), Answer::Code(ret)),
            app,
            if ret < 0 {
                Ask::Failed(LoopError::FlushFailed)
            } else {
                Ask::Terminate
            },
        ),
{
}

/// A loop that is told to terminate runs the resumes that are owed and ends; another one goes
/// on, whatever the session holds.
pub proof fn law_loop_ends_when_told(app: AppModel)
    ensures
        turn(app, Ask::Terminate, Answer::Flag(true)) == (Turn {
            app: resuming_pending(app).app,
            effects: resuming_pending(app).effects,
            next: Ask::Finished,
        }),
        only_asks(turn(app, Ask::Terminate, Answer::Flag(false)), app, Ask::ForceIdle),
{
}

/// Timeouts that are to fire at once are all asked for by force, and the connection is
/// flushed. Then, under the policy to suppress, the loop looks whether a window is fullscreen,
/// whatever else the session holds.
pub proof fn law_forced_idle_is_asked_for(app: AppModel)
    ensures
        ({
            let after = turn(app, Ask::ForceIdle, Answer::Flag(true));
            &&& after.app == registering_all(app, true).app
            &&& after.effects == registering_all(app, true).effects.push(
                EffectModel::FlushWayland(app.wl),
            )
            &&& after.next == if app.fullscreen_policy == FullscreenPolicy::Suppress {
                Ask::SyncFullscreen { wl: app.wl, after: AfterSync::Drain }
            } else {
                Ask::NextCallback(AfterDrain::Poll)
            }
        }),
        only_asks(
            turn(app, Ask::ForceIdle, Answer::Flag(false)),
            app,
            Ask::NextCallback(AfterDrain::Poll),
        ),
{
    let after = turn(app, Ask::ForceIdle, Answer::Flag(true));
    assert(after.effects =~= registering_all(app, true).effects.push(
        EffectModel::FlushWayland(app.wl),
    ));
}

/// After every dispatch that succeeds the connection is flushed and, under the policy to
/// suppress, the loop looks whether a window is fullscreen, whatever else the session holds.
pub proof fn law_dispatch_leads_to_a_look_at_windows(
    app: AppModel,
    wl: Option<usize>,
    wayland: i16,
    logind: Option<i16>,
    ret: i32,
)
    requires
        ret >= 0,
        app.fullscreen_policy == FullscreenPolicy::Suppress,
    ensures
        turn(app, Ask::Dispatch { wl, wayland, logind }, Answer::Code(ret)) == (Turn {
            app,
            effects: seq![EffectModel::FlushWayland(app.wl)],
            next: Ask::SyncFullscreen {
                wl: app.wl,
                after: AfterSync::Closed { wayland, logind },
            },
        }),
{
    assert(turn(app, Ask::Dispatch { wl, wayland, logind }, Answer::Code(ret)).effects =~= seq![
        EffectModel::FlushWayland(app.wl),
    ]);
}

/// What the loop has seen of windows is taken note of, and then the loop goes on.
pub proof fn law_look_at_windows_is_noted(
    app: AppModel,
    wl: Option<usize>,
    wayland: i16,
    logind: Option<i16>,
    ret: i32,
)
    ensures
        turn(app, Ask::SyncFullscreen { wl, after: AfterSync::Drain }, Answer::Code(ret)) == (
        Turn {
            app: syncing(app, ret != 0).app,
            effects: syncing(app, ret != 0).effects,
            next: Ask::NextCallback(AfterDrain::Poll),
        }),
        turn(
            app,
            Ask::SyncFullscreen { wl, after: AfterSync::Closed { wayland, logind } },
            Answer::Code(ret),
        ) == (Turn {
            app: syncing(app, ret != 0).app,
            effects: syncing(app, ret != 0).effects,
            next: Ask::Closed { wayland, logind },
        }),
{
}

/// A timeout that a fullscreen window has suppressed is asked for again, in its own time, two
/// turns after a dispatch, or a request to fire at once, that finds the last such window gone,
/// whatever else the session holds.
pub proof fn law_dispatch_starts_the_suppressed_again(
    app: AppModel,
    wl: Option<usize>,
    wayland: i16,
    logind: Option<i16>,
    ret: i32,
    idx: int,
)
    requires
        ret >= 0,
        0 <= idx < app.timeouts.len(),
        app.timeouts[idx].suppressed_by_fullscreen,
        app.timeouts[idx].timeout_ms >= 0,
        app.fullscreen_active,
        app.fullscreen_policy == FullscreenPolicy::Suppress,
    ensures
        ({
            let dispatched = turn(app, Ask::Dispatch { wl, wayland, logind }, Answer::Code(ret));
            let seen = turn(dispatched.app, dispatched.next, Answer::Code(0));
            &&& asks_for(seen.effects, app, idx)
            &&& !seen.app.timeouts[idx].suppressed_by_fullscreen
        }),
        ({
            let forced = turn(app, Ask::ForceIdle, Answer::Flag(true));
            let seen = turn(forced.app, forced.next, Answer::Code(0));
            &&& asks_for(seen.effects, app, idx)
            &&& !seen.app.timeouts[idx].suppressed_by_fullscreen
        }),
{
    law_dispatch_leads_to_a_look_at_windows(app, wl, wayland, logind, ret);
    law_suppressed_timeouts_start_again(
        app,
        app.wl,
        AfterSync::Closed { wayland, logind },
        idx,
    );
    law_forced_idle_is_asked_for(app);
    let forced = turn(app, Ask::ForceIdle, Answer::Flag(true)).app;
    law_suppressed_timeouts_start_again(forced, app.wl, AfterSync::Drain, idx);
}

/// The session gives up its connection, for the reason that is logged, then every notification
/// that was held over it, and nothing else changes; the loop then connects anew.
pub open spec fn starts_over(after: Turn, app: AppModel, reason: Seq<char>) -> bool {
    &&& after.next == Ask::Connect
    &&& after.app == (AppModel { wl: None, ..all_dismissed(app) })
    &&& after.effects == seq![
        line(app, LogLevel::Error, reason),
        EffectModel::DestroyWayland(app.wl),
    ] + dismissals(app.timeouts, app.timeouts.len()) + seq![EffectModel::DestroyWayland(None)]
}

/// Whether a descriptor shows an error, that the other side has hung up, or that it is invalid.
pub open spec fn shows_closed(shown: i16) -> bool {
    shown & 0x008 != 0 || shown & 0x010 != 0 || shown & 0x020 != 0
}

/// The three signs of a closed connection are looked for together.
proof fn lemma_closed_bits(shown: i16)
    ensures
        shows_closed(shown) <==> shown & 0x038 != 0,
{
    assert((shown & 0x008 != 0 || shown & 0x010 != 0 || shown & 0x020 != 0) <==> shown & 0x038
        != 0) by (bit_vector);
}

/// A dispatch that fails, and a descriptor that shows that the connection was closed, make the
/// loop connect anew. Where nothing is wrong with the connection, the loop goes on to the
/// reports that are waiting.
pub proof fn law_lost_connection_is_made_anew(
    app: AppModel,
    wl: Option<usize>,
    wayland: i16,
    logind: Option<i16>,
    ret: i32,
)
    ensures
        ret < 0 ==> starts_over(
            turn(app, Ask::Dispatch { wl, wayland, logind }, Answer::Code(ret)),
            app,
            "Wayland dispatch failed, reconnecting"@,
        ),
        shows_closed(wayland) ==> starts_over(
            turn(app, Ask::Closed { wayland, logind }, Answer::Done),
            app,
            "Wayland connection closed, reconnecting"@,
        ),
        !shows_closed(wayland) ==> only_asks(
            turn(app, Ask::Closed { wayland, logind }, Answer::Done),
            app,
            Ask::NextCallback(AfterDrain::Logind(logind)),
        ),
        ret >= 0 && app.fullscreen_policy == FullscreenPolicy::Ignore ==> {
            let after = turn(app, Ask::Dispatch { wl, wayland, logind }, Answer::Code(ret));
            let rest = turn(app, Ask::Closed { wayland, logind }, Answer::Done);
            &&& after.app == rest.app
            &&& after.next == rest.next
            &&& after.effects == seq![EffectModel::FlushWayland(app.wl)] + rest.effects
        },
{
    lemma_closed_bits(wayland);
    let n = app.timeouts.len();
    let failed = turn(app, Ask::Dispatch { wl, wayland, logind }, Answer::Code(ret));
    let closed = turn(app, Ask::Closed { wayland, logind }, Answer::Done);
    let tail = dismissals(app.timeouts, n) + seq![EffectModel::DestroyWayland(None)];
    if ret < 0 {
        assert(failed.effects =~= seq![
            line(app, LogLevel::Error, "Wayland dispatch failed, reconnecting"@),
            EffectModel::DestroyWayland(app.wl),
        ] + tail);
        assert(failed.effects =~= seq![
            line(app, LogLevel::Error, "Wayland dispatch failed, reconnecting"@),
            EffectModel::DestroyWayland(app.wl),
        ] + dismissals(app.timeouts, n) + seq![EffectModel::DestroyWayland(None)]);
    }
    if shows_closed(wayland) {
        assert(closed.effects =~= seq![
            line(app, LogLevel::Error, "Wayland connection closed, reconnecting"@),
            EffectModel::DestroyWayland(app.wl),
        ] + tail);
        assert(closed.effects =~= seq![
            line(app, LogLevel::Error, "Wayland connection closed, reconnecting"@),
            EffectModel::DestroyWayland(app.wl),
        ] + dismissals(app.timeouts, n) + seq![EffectModel::DestroyWayland(None)]);
    }
}

/// A new connection is taken up only where it offers idle notifications and has a seat; then
/// all notifications are asked for over it, and the loop goes on. Another one is given up
/// again, and with it the loop.
pub proof fn law_new_connection_is_looked_over(app: AppModel, wl: usize, ret: i32)
    ensures
        only_asks(
            turn(app, Ask::Connect, Answer::Handle(None)),
            app,
            Ask::Failed(LoopError::ReconnectFailed),
        ),
        only_asks(turn(app, Ask::Connect, Answer::Handle(Some(wl))), app, Ask::HasIdle(wl)),
        ret != 0 ==> only_asks(
            turn(app, Ask::HasIdle(wl), Answer::Code(ret)),
            app,
            Ask::HasSeat(wl),
        ),
        turn(app, Ask::HasIdle(wl), Answer::Code(0)) == (Turn {
            app,
            effects: seq![EffectModel::DestroyWayland(Some(wl))],
            next: Ask::Failed(LoopError::NoIdleNotify),
        }),
        turn(app, Ask::HasSeat(wl), Answer::Code(0)) == (Turn {
            app,
            effects: seq![EffectModel::DestroyWayland(Some(wl))],
            next: Ask::Failed(LoopError::NoSeat),
        }),
        ret != 0 ==> turn(app, Ask::HasSeat(wl), Answer::Code(ret)) == (Turn {
            app: registering_all(AppModel { wl: Some(wl), ..app }, false).app,
            effects: registering_all(AppModel { wl: Some(wl), ..app }, false).effects,
            next: Ask::Terminate,
        }),
{
}

/// A report that a timeout has fired makes the loop look, under the policy to suppress, whether
/// a window is fullscreen, and then handle it; under the other policy it is handled at once.
/// Then the next report is asked for.
pub proof fn law_fired_timeout_is_handled(
    app: AppModel,
    wl: Option<usize>,
    idx: usize,
    drain: AfterDrain,
    ret: i32,
)
    ensures
        ({
            let fired = Answer::Callback(Some(CallbackEvent::Idle(idx)));
            let heard = turn(app, Ask::NextCallback(drain), fired);
            let looks = idx < app.timeouts.len() && app.fullscreen_policy
                == FullscreenPolicy::Suppress;
            &&& looks ==> only_asks(heard, app, Ask::IdleFullscreen { wl: app.wl, idx, drain })
            &&& !looks ==> heard == (Turn {
                app: idling(app, idx as int, ret != 0).app,
                effects: idling(app, idx as int, ret != 0).effects,
                next: Ask::NextCallback(drain),
            })
        }),
        turn(app, Ask::IdleFullscreen { wl, idx, drain }, Answer::Code(ret)) == (Turn {
            app: idling(app, idx as int, ret != 0).app,
            effects: idling(app, idx as int, ret != 0).effects,
            next: Ask::NextCallback(drain),
        }),
{
}

/// A report that the user is active again is handled, and the next report is asked for.
pub proof fn law_resume_is_handled(app: AppModel, idx: usize, drain: AfterDrain)
    ensures
        turn(
            app,
            Ask::NextCallback(drain),
            Answer::Callback(Some(CallbackEvent::Resume(idx))),
        ) == (Turn {
            app: resuming(app, idx as int).app,
            effects: resuming(app, idx as int).effects,
            next: Ask::NextCallback(drain),
        }),
{
}

/// On each event of the login manager its own command is run and nothing else, whatever the
/// session holds besides, and the session does not change: before sleep, after sleep, on lock
/// and on unlock. On an event without a command, or of any other number, nothing is run.
pub proof fn law_login_events_are_handled(app: AppModel, event: i32, drain: AfterDrain)
    ensures
        turn(
            app,
            Ask::NextCallback(drain),
            Answer::Callback(Some(CallbackEvent::Logind(event))),
        ) == (Turn {
            app,
            effects: if event == 1 {
                just(app, app.before_sleep_cmd)
            } else if event == 2 {
                just(app, app.after_resume_cmd)
            } else if event == 3 {
                just(app, app.lock_cmd)
            } else if event == 4 {
                just(app, app.unlock_cmd)
            } else {
                seq![]
            },
            next: Ask::NextCallback(drain),
        }),
{
    law_login_events_run_their_commands(app, event as int);
}

/// When no report is waiting, the loop goes on to poll, or to the login manager. A login
/// manager whose connection was closed is logged and given up; one that has something to say
/// is heard; for another one, or none, there is nothing to do.
pub proof fn law_drained_loop_goes_on(app: AppModel, shown: i16)
    ensures
        only_asks(
            turn(app, Ask::NextCallback(AfterDrain::Poll), Answer::Callback(None)),
            app,
            Ask::WaylandFd(app.wl),
        ),
        only_asks(
            turn(app, Ask::NextCallback(AfterDrain::Logind(None)), Answer::Callback(None)),
            app,
            Ask::Terminate,
        ),
        ({
            let after = turn(
                app,
                Ask::NextCallback(AfterDrain::Logind(Some(shown))),
                Answer::Callback(None),
            );
            &&& shows_closed(shown) ==> loses_login_manager(after, app, "logind connection closed"@)
            &&& !shows_closed(shown) && shown & 0x001 != 0 ==> only_asks(
                after,
                app,
                Ask::LogindProcess(app.logind),
            )
            &&& !shows_closed(shown) && shown & 0x001 == 0 ==> only_asks(
                after,
                app,
                Ask::Terminate,
            )
        }),
{
    lemma_closed_bits(shown);
}

/// The session gives up the login manager, for the reason that is logged, nothing else changes,
/// and the loop goes on.
pub open spec fn loses_login_manager(after: Turn, app: AppModel, reason: Seq<char>) -> bool {
    after == (Turn {
        app: AppModel { logind: None, ..app },
        effects: seq![
            line(app, LogLevel::Error, reason),
            EffectModel::DestroyLogind(app.logind),
        ],
        next: Ask::Terminate,
    })
}

/// A login manager whose events cannot be processed is given up; else the loop goes on.
pub proof fn law_login_manager_is_processed(app: AppModel, logind: Option<usize>, ret: i32)
    ensures
        ret < 0 ==> loses_login_manager(
            turn(app, Ask::LogindProcess(logind), Answer::Code(ret)),
            app,
            "login1 D-Bus dispatch failed"@,
        ),
        ret >= 0 ==> only_asks(
            turn(app, Ask::LogindProcess(logind), Answer::Code(ret)),
            app,
            Ask::Terminate,
        ),
{
}

/// The loop polls the connection and, where there is one with a descriptor, the login manager.
/// Without a descriptor for the connection it gives up.
pub proof fn law_loop_polls_both(
    app: AppModel,
    wl: Option<usize>,
    handle: Option<usize>,
    wayland_fd: i32,
    fd: i32,
)
    ensures
        only_asks(
            turn(app, Ask::WaylandFd(wl), Answer::Code(fd)),
            app,
            if fd < 0 {
                Ask::Failed(LoopError::ConnectionLost)
            } else if app.logind is Some {
                Ask::LogindFd { handle: app.logind, wayland_fd: fd }
            } else {
                Ask::Poll { wayland_fd: fd, logind_fd: None }
            },
        ),
        only_asks(
            turn(app, Ask::LogindFd { handle, wayland_fd }, Answer::Code(fd)),
            app,
            Ask::Poll {
                wayland_fd,
                logind_fd: if fd < 0 {
                    None
                } else {
                    Some(fd)
                },
            },
        ),
{
}

/// A poll that fails is logged, unless a signal has interrupted it, and the loop goes on. What
/// the descriptors show is seen to: something to read is dispatched, and else the loop looks
/// whether the connection was closed. What the login manager's descriptor shows counts where
/// it was polled.
pub proof fn law_poll_is_seen_to(
    app: AppModel,
    wayland_fd: i32,
    logind_fd: Option<i32>,
    wayland: i16,
    logind: i16,
    failure: Answer,
)
    requires
        failure is PollFailed,
    ensures
        ({
            let after = turn(app, Ask::Poll { wayland_fd, logind_fd }, failure);
            &&& after.app == app
            &&& after.next == Ask::Terminate
            &&& failure->errno == Some(4i32) ==> after.effects.len() == 0
            &&& failure->errno != Some(4i32) ==> after.effects == seq![
                line(app, LogLevel::Error, "poll failed: "@ + failure->text@),
            ]
        }),
        ({
            let shown = if logind_fd is Some {
                Some(logind)
            } else {
                None
            };
            let after = turn(
                app,
                Ask::Poll { wayland_fd, logind_fd },
                Answer::Polled { wayland, logind },
            );
            &&& wayland & 0x001 != 0 ==> only_asks(
                after,
                app,
                Ask::Dispatch { wl: app.wl, wayland, logind: shown },
            )
            &&& wayland & 0x001 == 0 ==> after == turn(
                app,
                Ask::Closed { wayland, logind: shown },
                Answer::Done,
            )
        }),
{
}

} // verus!
