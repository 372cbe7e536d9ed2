//! The event loop of a session.
//!
//! The loop asks one question at a time and goes on when it hears the answer. Between an
//! answer and the next question it hands out effects, which are to be performed in order
//! before the question is looked into.

use vstd::prelude::*;

use crate::app::{
    all_dismissed, dismissals, effects_of, idling, logged, logind_command, registering_all,
    resuming, resuming_pending, run, syncing, App, AppModel, Change, Effect, EffectModel,
};
use crate::config::FullscreenPolicy;
use crate::log::LogLevel;
use crate::text::join;

verus! {

/// There is something to read.
pub const POLLIN: i16 = 0x001;

/// An error has occurred, the other side has hung up, or the descriptor is invalid.
pub const POLL_CLOSED: i16 = 0x038;

/// The error of a call that a signal has interrupted.
pub const EINTR: i32 = 4;

/// Something that a connection has reported.
#[derive(Clone, Copy, Debug, PartialEq, Eq, Structural)]
pub enum CallbackEvent {
    /// The timeout of this index has fired.
    Idle(usize),
    /// The user has become active again after the timeout of this index.
    Resume(usize),
    /// The login manager has reported this event.
    Logind(i32),
}

/// Where the loop goes on when no more reports are waiting.
#[derive(Clone, Copy, Debug, PartialEq, Eq, Structural)]
pub enum AfterDrain {
    /// Wait for something to happen.
    Poll,
    /// See to the login manager, whose descriptor showed this, if it was polled.
    Logind(Option<i16>),
}

/// Where the loop goes on after a look at fullscreen windows.
#[derive(Clone, Copy, Debug, PartialEq, Eq, Structural)]
pub enum AfterSync {
    /// See to the reports that are waiting.
    Drain,
    /// See whether the connection was closed, when its descriptor and that of the login
    /// manager showed this.
    Closed { wayland: i16, logind: Option<i16> },
}

/// Why the loop has given up.
#[derive(Clone, Copy, Debug, PartialEq, Eq, Structural)]
pub enum LoopError {
    RoundtripFailed,
    FlushFailed,
    ConnectionLost,
    ReconnectFailed,
    NoIdleNotify,
    NoSeat,
}

/// What the loop wants to know next.
#[derive(Clone, Copy, Debug, PartialEq, Eq, Structural)]
pub enum Ask {
    /// What a round trip to the compositor returns.
    Roundtrip(Option<usize>),
    /// What flushing the connection returns.
    Flush(Option<usize>),
    /// Whether the daemon was told to terminate.
    Terminate,
    /// Whether the timeouts were told to fire at once. The request is used up.
    ForceIdle,
    /// Whether a window is fullscreen, to take note of it.
    SyncFullscreen { wl: Option<usize>, after: AfterSync },
    /// Whether a window is fullscreen, when the timeout `idx` has fired.
    IdleFullscreen { wl: Option<usize>, idx: usize, drain: AfterDrain },
    /// The oldest report that is waiting.
    NextCallback(AfterDrain),
    /// The descriptor of the connection.
    WaylandFd(Option<usize>),
    /// The descriptor of the login manager.
    LogindFd { handle: Option<usize>, wayland_fd: i32 },
    /// What the descriptors show, once one of them shows something.
    Poll { wayland_fd: i32, logind_fd: Option<i32> },
    /// That everything has been done, to see whether the connection was closed, when its
    /// descriptor and that of the login manager showed this.
    Closed { wayland: i16, logind: Option<i16> },
    /// What dispatching the events of the compositor returns.
    Dispatch { wl: Option<usize>, wayland: i16, logind: Option<i16> },
    /// What processing the events of the login manager returns.
    LogindProcess(Option<usize>),
    /// A new connection to the compositor, for whatever seat.
    Connect,
    /// Whether the new connection offers idle notifications.
    HasIdle(usize),
    /// Whether the new connection has a seat.
    HasSeat(usize),
    /// Nothing: the loop has ended as it was told to.
    Finished,
    /// Nothing: the loop has given up.
    Failed(LoopError),
}

/// The answer to a question of the loop.
pub enum Answer {
    /// What a call has returned.
    Code(i32),
    /// Yes or no.
    Flag(bool),
    /// Everything has been done.
    Done,
    /// The oldest report, if any is waiting.
    Callback(Option<CallbackEvent>),
    /// A new connection, if there is one.
    Handle(Option<usize>),
    /// Polling has failed, with this error number and this error text.
    PollFailed { errno: Option<i32>, text: String },
    /// What the two descriptors show. That of the login manager counts if it was polled.
    Polled { wayland: i16, logind: i16 },
}

/// What the loop does next: first the effects, then the question.
pub struct Step {
    pub effects: Vec<Effect>,
    pub next: Ask,
}

/// A session after an answer, what is to be done outside, and the next question.
#[verifier::ext_equal]
pub struct Turn {
    pub app: AppModel,
    pub effects: Seq<EffectModel>,
    pub next: Ask,
}

/// The message about a loop that has given up.
pub open spec fn loop_error_text(error: LoopError) -> Seq<char> {
    match error {
        LoopError::RoundtripFailed => "Wayland roundtrip failed"@,
        LoopError::FlushFailed => "Wayland flush failed"@,
        LoopError::ConnectionLost => "Wayland connection lost"@,
        LoopError::ReconnectFailed => "Wayland reconnect failed"@,
        LoopError::NoIdleNotify => "Wayland reconnect: no ext-idle-notify"@,
        LoopError::NoSeat => "Wayland reconnect: no seat"@,
    }
}

impl LoopError {
    /// The message about a loop that has given up.
    pub fn message(&self) -> (r: String)
        ensures
            r@ == loop_error_text(*self),
    {
        match self {
            LoopError::RoundtripFailed => "Wayland roundtrip failed".to_string(),
            LoopError::FlushFailed => "Wayland flush failed".to_string(),
            LoopError::ConnectionLost => "Wayland connection lost".to_string(),
            LoopError::ReconnectFailed => "Wayland reconnect failed".to_string(),
            LoopError::NoIdleNotify => "Wayland reconnect: no ext-idle-notify".to_string(),
            LoopError::NoSeat => "Wayland reconnect: no seat".to_string(),
        }
    }
}

/// Going on to `next` with nothing else to do.
pub open spec fn on(app: AppModel, next: Ask) -> Turn {
    Turn { app, effects: seq![], next }
}

/// Going on to `next` after a change.
pub open spec fn after_change(change: Change, next: Ask) -> Turn {
    Turn { app: change.app, effects: change.effects, next }
}

/// `turn`, with more to be done ahead of it.
pub open spec fn preceded(effects: Seq<EffectModel>, turn: Turn) -> Turn {
    Turn { effects: effects + turn.effects, ..turn }
}

/// The loop begins: it asks for all notifications.
pub open spec fn beginning(app: AppModel) -> Turn {
    after_change(registering_all(app, false), Ask::Roundtrip(app.wl))
}

/// After the first round trip.
pub open spec fn after_roundtrip(app: AppModel, ret: int) -> Turn {
    on(
        app,
        if ret < 0 {
            Ask::Failed(LoopError::RoundtripFailed)
        } else {
            Ask::Flush(app.wl)
        },
    )
}

/// After the first flush.
pub open spec fn after_flush(app: AppModel, ret: int) -> Turn {
    on(
        app,
        if ret < 0 {
            Ask::Failed(LoopError::FlushFailed)
        } else {
            Ask::Terminate
        },
    )
}

/// Told to terminate or not. Every resume that is still owed takes place at the end.
pub open spec fn after_terminate(app: AppModel, terminate: bool) -> Turn {
    if terminate {
        after_change(resuming_pending(app), Ask::Finished)
    } else {
        on(app, Ask::ForceIdle)
    }
}

/// Told to make the timeouts fire or not.
pub open spec fn after_force_idle(app: AppModel, force: bool) -> Turn {
    if force {
        let change = registering_all(app, true);
        preceded(
            change.effects.push(EffectModel::FlushWayland(app.wl)),
            look_at_fullscreen(change.app, AfterSync::Drain),
        )
    } else {
        on(app, Ask::NextCallback(AfterDrain::Poll))
    }
}

/// Looks at fullscreen windows, unless they make no difference.
pub open spec fn look_at_fullscreen(app: AppModel, after: AfterSync) -> Turn {
    if app.fullscreen_policy == FullscreenPolicy::Ignore {
        synced(app, after)
    } else {
        on(app, Ask::SyncFullscreen { wl: app.wl, after })
    }
}

/// Goes on after a look at fullscreen windows.
pub open spec fn synced(app: AppModel, after: AfterSync) -> Turn {
    match after {
        AfterSync::Drain => on(app, Ask::NextCallback(AfterDrain::Poll)),
        AfterSync::Closed { wayland, logind } => if wayland & POLL_CLOSED != 0 {
            reconnecting(app, "Wayland connection closed, reconnecting"@)
        } else {
            on(app, Ask::NextCallback(AfterDrain::Logind(logind)))
        },
    }
}

/// A window is fullscreen or not. Whether the connection was closed is seen to once it is
/// known what came of the notifications that are asked for here.
pub open spec fn after_sync(app: AppModel, active: bool, after: AfterSync) -> Turn {
    after_change(
        syncing(app, active),
        match after {
            AfterSync::Drain => Ask::NextCallback(AfterDrain::Poll),
            AfterSync::Closed { wayland, logind } => Ask::Closed { wayland, logind },
        },
    )
}

/// Gives up the connection, for the reason that is logged, and all notifications with it,
/// and connects anew.
pub open spec fn reconnecting(app: AppModel, reason: Seq<char>) -> Turn {
    Turn {
        app: AppModel { wl: None, ..all_dismissed(app) },
        effects: seq![
            logged(app, LogLevel::Error, reason),
            EffectModel::DestroyWayland(app.wl),
        ] + dismissals(app.timeouts, app.timeouts.len()).push(EffectModel::DestroyWayland(None)),
        next: Ask::Connect,
    }
}

/// Connected anew or not.
pub open spec fn after_connect(app: AppModel, wl: Option<usize>) -> Turn {
    on(
        app,
        match wl {
            Some(handle) => Ask::HasIdle(handle),
            None => Ask::Failed(LoopError::ReconnectFailed),
        },
    )
}

/// Gives up a new connection that is of no use.
pub open spec fn rejected(app: AppModel, wl: usize, error: LoopError) -> Turn {
    Turn {
        app,
        effects: seq![EffectModel::DestroyWayland(Some(wl))],
        next: Ask::Failed(error),
    }
}

/// The new connection offers idle notifications or not.
pub open spec fn after_has_idle(app: AppModel, wl: usize, ret: int) -> Turn {
    if ret == 0 {
        rejected(app, wl, LoopError::NoIdleNotify)
    } else {
        on(app, Ask::HasSeat(wl))
    }
}

/// The new connection has a seat or not. If it has, it is taken up, and all notifications
/// are asked for.
pub open spec fn after_has_seat(app: AppModel, wl: usize, ret: int) -> Turn {
    if ret == 0 {
        rejected(app, wl, LoopError::NoSeat)
    } else {
        after_change(
            registering_all(AppModel { wl: Some(wl), ..app }, false),
            Ask::Terminate,
        )
    }
}

/// Goes on when no more reports are waiting.
pub open spec fn drained(app: AppModel, after: AfterDrain) -> Turn {
    match after {
        AfterDrain::Poll => on(app, Ask::WaylandFd(app.wl)),
        AfterDrain::Logind(Some(revents)) => if revents & POLL_CLOSED != 0 {
            logind_lost(app, "logind connection closed"@)
        } else if revents & POLLIN != 0 {
            on(app, Ask::LogindProcess(app.logind))
        } else {
            on(app, Ask::Terminate)
        },
        AfterDrain::Logind(None) => on(app, Ask::Terminate),
    }
}

/// Gives up the connection to the login manager, for the reason that is logged.
pub open spec fn logind_lost(app: AppModel, reason: Seq<char>) -> Turn {
    Turn {
        app: AppModel { logind: None, ..app },
        effects: seq![
            logged(app, LogLevel::Error, reason),
            EffectModel::DestroyLogind(app.logind),
        ],
        next: Ask::Terminate,
    }
}

/// Whether it matters for a timeout that has fired that a window is fullscreen.
pub open spec fn fullscreen_matters(app: AppModel, idx: int) -> bool {
    idx < app.timeouts.len() && app.fullscreen_policy == FullscreenPolicy::Suppress
}

/// Sees to one report, or to what comes behind the last one.
pub open spec fn after_callback(
    app: AppModel,
    event: Option<CallbackEvent>,
    after: AfterDrain,
) -> Turn {
    match event {
        None => drained(app, after),
        Some(CallbackEvent::Idle(idx)) => if fullscreen_matters(app, idx as int) {
            on(app, Ask::IdleFullscreen { wl: app.wl, idx, drain: after })
        } else {
            after_change(idling(app, idx as int, false), Ask::NextCallback(after))
        },
        Some(CallbackEvent::Resume(idx)) => after_change(
            resuming(app, idx as int),
            Ask::NextCallback(after),
        ),
        Some(CallbackEvent::Logind(event)) => Turn {
            app,
            effects: run(app, logind_command(app, event as int)),
            next: Ask::NextCallback(after),
        },
    }
}

/// A window is fullscreen or not, when the timeout `idx` has fired.
pub open spec fn after_idle_fullscreen(
    app: AppModel,
    idx: int,
    active: bool,
    after: AfterDrain,
) -> Turn {
    after_change(idling(app, idx, active), Ask::NextCallback(after))
}

/// The descriptor of the connection is known, or there is none.
pub open spec fn after_wayland_fd(app: AppModel, fd: i32) -> Turn {
    on(
        app,
        if fd < 0 {
            Ask::Failed(LoopError::ConnectionLost)
        } else if app.logind is Some {
            Ask::LogindFd { handle: app.logind, wayland_fd: fd }
        } else {
            Ask::Poll { wayland_fd: fd, logind_fd: None }
        },
    )
}

/// The descriptor of the login manager is known, or there is none.
pub open spec fn after_logind_fd(app: AppModel, wayland_fd: i32, fd: i32) -> Turn {
    on(
        app,
        Ask::Poll {
            wayland_fd,
            logind_fd: if fd >= 0 {
                Some(fd)
            } else {
                None
            },
        },
    )
}

/// Polling has failed. A signal is no failure.
pub open spec fn after_poll_failure(app: AppModel, errno: Option<i32>, text: Seq<char>) -> Turn {
    Turn {
        app,
        effects: if errno == Some(EINTR) {
            seq![]
        } else {
            seq![logged(app, LogLevel::Error, "poll failed: "@ + text)]
        },
        next: Ask::Terminate,
    }
}

/// The descriptors show this.
pub open spec fn after_poll(app: AppModel, wayland: i16, logind: Option<i16>) -> Turn {
    if wayland & POLLIN != 0 {
        on(app, Ask::Dispatch { wl: app.wl, wayland, logind })
    } else {
        synced(app, AfterSync::Closed { wayland, logind })
    }
}

/// The events of the compositor were dispatched or not.
pub open spec fn after_dispatch(
    app: AppModel,
    ret: int,
    wayland: i16,
    logind: Option<i16>,
) -> Turn {
    if ret < 0 {
        reconnecting(app, "Wayland dispatch failed, reconnecting"@)
    } else {
        preceded(
            seq![EffectModel::FlushWayland(app.wl)],
            look_at_fullscreen(app, AfterSync::Closed { wayland, logind }),
        )
    }
}

/// The events of the login manager were processed or not.
pub open spec fn after_logind_process(app: AppModel, ret: int) -> Turn {
    if ret < 0 {
        logind_lost(app, "login1 D-Bus dispatch failed"@)
    } else {
        on(app, Ask::Terminate)
    }
}

/// What the loop does when it hears `answer` to the question `ask`. An answer of another
/// kind than the question calls for is no answer, and the loop asks again.
pub open spec fn turn(app: AppModel, ask: Ask, answer: Answer) -> Turn {
    match (ask, answer) {
        (Ask::Roundtrip(_), Answer::Code(ret)) => after_roundtrip(app, ret as int),
        (Ask::Flush(_), Answer::Code(ret)) => after_flush(app, ret as int),
        (Ask::Terminate, Answer::Flag(terminate)) => after_terminate(app, terminate),
        (Ask::ForceIdle, Answer::Flag(force)) => after_force_idle(app, force),
        (Ask::SyncFullscreen { after, .. }, Answer::Code(ret)) => after_sync(
            app,
            ret != 0,
            after,
        ),
        (Ask::IdleFullscreen { idx, drain, .. }, Answer::Code(ret)) => after_idle_fullscreen(
            app,
            idx as int,
            ret != 0,
            drain,
        ),
        (Ask::NextCallback(after), Answer::Callback(event)) => after_callback(app, event, after),
        (Ask::WaylandFd(_), Answer::Code(fd)) => after_wayland_fd(app, fd),
        (Ask::LogindFd { wayland_fd, .. }, Answer::Code(fd)) => after_logind_fd(
            app,
            wayland_fd,
            fd,
        ),
        (Ask::Poll { .. }, Answer::PollFailed { errno, text }) => after_poll_failure(
            app,
            errno,
            text@,
        ),
        (Ask::Poll { logind_fd, .. }, Answer::Polled { wayland, logind }) => after_poll(
            app,
            wayland,
            if logind_fd is Some {
                Some(logind)
            } else {
                None
            },
        ),
        (Ask::Closed { wayland, logind }, Answer::Done) => synced(
            app,
            AfterSync::Closed { wayland, logind },
        ),
        (Ask::Dispatch { wayland, logind, .. }, Answer::Code(ret)) => after_dispatch(
            app,
            ret as int,
            wayland,
            logind,
        ),
        (Ask::LogindProcess(_), Answer::Code(ret)) => after_logind_process(app, ret as int),
        (Ask::Connect, Answer::Handle(wl)) => after_connect(app, wl),
        (Ask::HasIdle(wl), Answer::Code(ret)) => after_has_idle(app, wl, ret as int),
        (Ask::HasSeat(wl), Answer::Code(ret)) => after_has_seat(app, wl, ret as int),
        _ => on(app, ask),
    }
}

/// What `step` says, and the session that it leaves.
pub open spec fn turn_of(app: AppModel, step: Step) -> Turn {
    Turn { app, effects: effects_of(step.effects@), next: step.next }
}

/// Going on to `next` with nothing else to do.
fn next_step(next: Ask) -> (r: Step)
    ensures
        effects_of(r.effects@) == Seq::<EffectModel>::empty(),
        r.next == next,
{
    let effects: Vec<Effect> = Vec::new();
    assert(effects_of(effects@) =~= seq![]);
    Step { effects, next }
}

/// `step`, with more to be done ahead of it.
fn put_ahead(effects: Vec<Effect>, step: Step) -> (r: Step)
    ensures
        effects_of(r.effects@) == effects_of(effects@) + effects_of(step.effects@),
        r.next == step.next,
{
    let mut all = effects;
    let mut more = step.effects;
    all.append(&mut more);
    assert(effects_of(all@) =~= effects_of(effects@) + effects_of(step.effects@));
    Step { effects: all, next: step.next }
}

impl App {
    /// Begins the event loop.
    pub fn begin(&mut self) -> (r: Step)
        ensures
            turn_of(final(self)@, r) == beginning(old(self)@),
    {
        let effects = self.register_all();
        Step { effects, next: Ask::Roundtrip(self.wl) }
    }

    /// Gives up the connection and all notifications, and connects anew.
    fn reconnect_wayland(&mut self, reason: &str) -> (r: Step)
        ensures
            turn_of(final(self)@, r) == reconnecting(old(self)@, reason@),
    {
        let mut effects: Vec<Effect> = Vec::new();
        effects.push(self.note(LogLevel::Error, reason));
        effects.push(Effect::DestroyWayland(self.wl));
        self.wl = None;
        let mut part = self.destroy_notifications();
        effects.append(&mut part);
        effects.push(Effect::DestroyWayland(self.wl));
        assert(effects_of(effects@) =~= reconnecting(old(self)@, reason@).effects);
        Step { effects, next: Ask::Connect }
    }

    /// Gives up the connection to the login manager.
    fn lose_logind(&mut self, reason: &str) -> (r: Step)
        ensures
            turn_of(final(self)@, r) == logind_lost(old(self)@, reason@),
    {
        let mut effects: Vec<Effect> = Vec::new();
        effects.push(self.note(LogLevel::Error, reason));
        effects.push(Effect::DestroyLogind(self.logind));
        self.logind = None;
        assert(effects_of(effects@) =~= logind_lost(old(self)@, reason@).effects);
        Step { effects, next: Ask::Terminate }
    }

    /// Goes on after a look at fullscreen windows.
    fn go_on_synced(&mut self, after: AfterSync) -> (r: Step)
        ensures
            turn_of(final(self)@, r) == synced(old(self)@, after),
    {
        match after {
            AfterSync::Drain => next_step(Ask::NextCallback(AfterDrain::Poll)),
            AfterSync::Closed { wayland, logind } => if wayland & POLL_CLOSED != 0 {
                self.reconnect_wayland("Wayland connection closed, reconnecting")
            } else {
                next_step(Ask::NextCallback(AfterDrain::Logind(logind)))
            },
        }
    }

    /// Looks at fullscreen windows, unless they make no difference.
    fn ask_fullscreen(&mut self, after: AfterSync) -> (r: Step)
        ensures
            turn_of(final(self)@, r) == look_at_fullscreen(old(self)@, after),
    {
        if self.fullscreen_policy == FullscreenPolicy::Ignore {
            self.go_on_synced(after)
        } else {
            next_step(Ask::SyncFullscreen { wl: self.wl, after })
        }
    }

    /// Told to terminate or not.
    fn on_terminate(&mut self, terminate: bool) -> (r: Step)
        ensures
            turn_of(final(self)@, r) == after_terminate(old(self)@, terminate),
    {
        if terminate {
            let effects = self.run_pending_resume();
            Step { effects, next: Ask::Finished }
        } else {
            next_step(Ask::ForceIdle)
        }
    }

    /// Told to make the timeouts fire or not.
    fn on_force_idle(&mut self, force: bool) -> (r: Step)
        ensures
            turn_of(final(self)@, r) == after_force_idle(old(self)@, force),
    {
        if force {
            let mut effects = self.force_idle();
            let ghost forced = effects@;
            effects.push(Effect::FlushWayland(self.wl));
            assert(effects_of(effects@) =~= effects_of(forced).push(
                EffectModel::FlushWayland(self.wl),
            ));
            let step = self.ask_fullscreen(AfterSync::Drain);
            put_ahead(effects, step)
        } else {
            next_step(Ask::NextCallback(AfterDrain::Poll))
        }
    }

    /// A window is fullscreen or not.
    fn on_sync(&mut self, active: bool, after: AfterSync) -> (r: Step)
        ensures
            turn_of(final(self)@, r) == after_sync(old(self)@, active, after),
    {
        let effects = self.sync_fullscreen_state(active);
        let next = match after {
            AfterSync::Drain => Ask::NextCallback(AfterDrain::Poll),
            AfterSync::Closed { wayland, logind } => Ask::Closed { wayland, logind },
        };
        Step { effects, next }
    }

    /// The new connection offers idle notifications or not.
    fn on_has_idle(&self, wl: usize, ret: i32) -> (r: Step)
        ensures
            turn_of(self@, r) == after_has_idle(self@, wl, ret as int),
    {
        if ret == 0 {
            self.reject(wl, LoopError::NoIdleNotify)
        } else {
            next_step(Ask::HasSeat(wl))
        }
    }

    /// Gives up a new connection that is of no use.
    fn reject(&self, wl: usize, error: LoopError) -> (r: Step)
        ensures
            turn_of(self@, r) == rejected(self@, wl, error),
    {
        let mut effects: Vec<Effect> = Vec::new();
        effects.push(Effect::DestroyWayland(Some(wl)));
        assert(effects_of(effects@) =~= rejected(self@, wl, error).effects);
        Step { effects, next: Ask::Failed(error) }
    }

    /// The new connection has a seat or not.
    fn on_has_seat(&mut self, wl: usize, ret: i32) -> (r: Step)
        ensures
            turn_of(final(self)@, r) == after_has_seat(old(self)@, wl, ret as int),
    {
        if ret == 0 {
            self.reject(wl, LoopError::NoSeat)
        } else {
            self.wl = Some(wl);
            let effects = self.register_all();
            Step { effects, next: Ask::Terminate }
        }
    }

    /// Goes on when no more reports are waiting.
    fn go_on_drained(&mut self, after: AfterDrain) -> (r: Step)
        ensures
            turn_of(final(self)@, r) == drained(old(self)@, after),
    {
        match after {
            AfterDrain::Poll => next_step(Ask::WaylandFd(self.wl)),
            AfterDrain::Logind(Some(revents)) => if revents & POLL_CLOSED != 0 {
                self.lose_logind("logind connection closed")
            } else if revents & POLLIN != 0 {
                next_step(Ask::LogindProcess(self.logind))
            } else {
                next_step(Ask::Terminate)
            },
            AfterDrain::Logind(None) => next_step(Ask::Terminate),
        }
    }

    /// Sees to the oldest report that is waiting, or to what comes behind the last one.
    pub fn drain_events(&mut self, event: Option<CallbackEvent>, after: AfterDrain) -> (r: Step)
        ensures
            turn_of(final(self)@, r) == after_callback(old(self)@, event, after),
    {
        match event {
            None => self.go_on_drained(after),
            Some(CallbackEvent::Idle(idx)) => if idx < self.timeouts.len()
                && self.fullscreen_policy == FullscreenPolicy::Suppress {
                next_step(Ask::IdleFullscreen { wl: self.wl, idx, drain: after })
            } else {
                let effects = self.handle_idle(idx, false);
                Step { effects, next: Ask::NextCallback(after) }
            },
            Some(CallbackEvent::Resume(idx)) => {
                let effects = self.handle_resume(idx);
                Step { effects, next: Ask::NextCallback(after) }
            },
            Some(CallbackEvent::Logind(event)) => {
                let effects = self.handle_logind_event(event);
                Step { effects, next: Ask::NextCallback(after) }
            },
        }
    }

    /// The descriptor of the connection is known, or there is none.
    fn on_wayland_fd(&self, fd: i32) -> (r: Step)
        ensures
            turn_of(self@, r) == after_wayland_fd(self@, fd),
    {
        if fd < 0 {
            next_step(Ask::Failed(LoopError::ConnectionLost))
        } else if self.logind.is_some() {
            next_step(Ask::LogindFd { handle: self.logind, wayland_fd: fd })
        } else {
            next_step(Ask::Poll { wayland_fd: fd, logind_fd: None })
        }
    }

    /// Polling has failed.
    fn on_poll_failure(&self, errno: Option<i32>, text: &str) -> (r: Step)
        ensures
            turn_of(self@, r) == after_poll_failure(self@, errno, text@),
    {
        let mut effects: Vec<Effect> = Vec::new();
        let interrupted = match errno {
            Some(number) => number == EINTR,
            None => false,
        };
        if !interrupted {
            let message = join("poll failed: ", text);
            effects.push(self.note(LogLevel::Error, message.as_str()));
        }
        assert(effects_of(effects@) =~= after_poll_failure(self@, errno, text@).effects);
        Step { effects, next: Ask::Terminate }
    }

    /// The descriptors show this.
    fn on_poll(&mut self, wayland: i16, logind: Option<i16>) -> (r: Step)
        ensures
            turn_of(final(self)@, r) == after_poll(old(self)@, wayland, logind),
    {
        if wayland & POLLIN != 0 {
            next_step(Ask::Dispatch { wl: self.wl, wayland, logind })
        } else {
            self.go_on_synced(AfterSync::Closed { wayland, logind })
        }
    }

    /// The events of the compositor were dispatched or not.
    fn on_dispatch(&mut self, ret: i32, wayland: i16, logind: Option<i16>) -> (r: Step)
        ensures
            turn_of(final(self)@, r) == after_dispatch(old(self)@, ret as int, wayland, logind),
    {
        if ret < 0 {
            self.reconnect_wayland("Wayland dispatch failed, reconnecting")
        } else {
            let mut effects: Vec<Effect> = Vec::new();
            effects.push(Effect::FlushWayland(self.wl));
            assert(effects_of(effects@) =~= seq![EffectModel::FlushWayland(self.wl)]);
            let step = self.ask_fullscreen(AfterSync::Closed { wayland, logind });
            put_ahead(effects, step)
        }
    }

    /// Hears `answer` to the question `ask`, and goes on to the next question.
    pub fn event_loop(&mut self, ask: Ask, answer: Answer) -> (r: Step)
        ensures
            turn_of(final(self)@, r) == turn(old(self)@, ask, answer),
    {
        match (ask, answer) {
            (Ask::Roundtrip(_), Answer::Code(ret)) => if ret < 0 {
                next_step(Ask::Failed(LoopError::RoundtripFailed))
            } else {
                next_step(Ask::Flush(self.wl))
            },
            (Ask::Flush(_), Answer::Code(ret)) => if ret < 0 {
                next_step(Ask::Failed(LoopError::FlushFailed))
            } else {
                next_step(Ask::Terminate)
            },
            (Ask::Terminate, Answer::Flag(terminate)) => self.on_terminate(terminate),
            (Ask::ForceIdle, Answer::Flag(force)) => self.on_force_idle(force),
            (Ask::SyncFullscreen { after, .. }, Answer::Code(ret)) => self.on_sync(ret != 0, after),
            (Ask::IdleFullscreen { idx, drain, .. }, Answer::Code(ret)) => {
                let effects = self.handle_idle(idx, ret != 0);
                Step { effects, next: Ask::NextCallback(drain) }
            },
            (Ask::NextCallback(after), Answer::Callback(event)) => self.drain_events(event, after),
            (Ask::WaylandFd(_), Answer::Code(fd)) => self.on_wayland_fd(fd),
            (Ask::LogindFd { wayland_fd, .. }, Answer::Code(fd)) => next_step(
                Ask::Poll {
                    wayland_fd,
                    logind_fd: if fd >= 0 {
                        Some(fd)
                    } else {
                        None
                    },
                },
            ),
            (Ask::Poll { .. }, Answer::PollFailed { errno, text }) => self.on_poll_failure(
                errno,
                text.as_str(),
            ),
            (Ask::Poll { logind_fd, .. }, Answer::Polled { wayland, logind }) => self.on_poll(
                wayland,
                if logind_fd.is_some() {
                    Some(logind)
                } else {
                    None
                },
            ),
            (Ask::Closed { wayland, logind }, Answer::Done) => self.go_on_synced(
                AfterSync::Closed { wayland, logind },
            ),
            (Ask::Dispatch { wayland, logind, .. }, Answer::Code(ret)) => self.on_dispatch(
                ret,
                wayland,
                logind,
            ),
            (Ask::LogindProcess(_), Answer::Code(ret)) => if ret < 0 {
                self.lose_logind("login1 D-Bus dispatch failed")
            } else {
                next_step(Ask::Terminate)
            },
            (Ask::Connect, Answer::Handle(wl)) => match wl {
                Some(handle) => next_step(Ask::HasIdle(handle)),
                None => next_step(Ask::Failed(LoopError::ReconnectFailed)),
            },
            (Ask::HasIdle(wl), Answer::Code(ret)) => self.on_has_idle(wl, ret),
            (Ask::HasSeat(wl), Answer::Code(ret)) => self.on_has_seat(wl, ret),
            _ => next_step(ask),
        }
    }
}

} // verus!
