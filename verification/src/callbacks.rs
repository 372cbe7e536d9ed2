//! What signals and connections report, as it reaches the event loop.

use std::collections::VecDeque;

use vstd::prelude::*;

use crate::app::{registration, AppModel};
use crate::event_loop::CallbackEvent;

verus! {

pub const SIGINT: i32 = 2;

pub const SIGABRT: i32 = 6;

pub const SIGBUS: i32 = 7;

pub const SIGUSR1: i32 = 10;

pub const SIGSEGV: i32 = 11;

pub const SIGTERM: i32 = 15;

/// What a signal asks of the daemon.
#[derive(Clone, Copy, Debug, PartialEq, Eq, Structural)]
pub enum SignalRequest {
    /// To end.
    Terminate,
    /// To make the timeouts fire at once.
    ForceIdle,
    /// Nothing.
    Nothing,
}

/// What the signal `sig` asks of the daemon.
pub open spec fn signal_request(sig: i32) -> SignalRequest {
    if sig == SIGINT || sig == SIGTERM {
        SignalRequest::Terminate
    } else if sig == SIGUSR1 {
        SignalRequest::ForceIdle
    } else {
        SignalRequest::Nothing
    }
}

/// Says what the signal `sig` asks of the daemon.
pub fn signal_handler(sig: i32) -> (r: SignalRequest)
    ensures
        r == signal_request(sig),
{
    if sig == SIGINT || sig == SIGTERM {
        SignalRequest::Terminate
    } else if sig == SIGUSR1 {
        SignalRequest::ForceIdle
    } else {
        SignalRequest::Nothing
    }
}

/// The last words of a daemon that crashes on the signal `sig`.
pub open spec fn crash_text(sig: i32) -> Seq<char> {
    if sig == SIGSEGV {
        "[CRASH] dozed received SIGSEGV (segmentation fault)\n"@
    } else if sig == SIGBUS {
        "[CRASH] dozed received SIGBUS (bus error)\n"@
    } else if sig == SIGABRT {
        "[CRASH] dozed received SIGABRT (abort)\n"@
    } else {
        "[CRASH] dozed received unknown signal\n"@
    }
}

/// The last words of a daemon that crashes on the signal `sig`.
pub fn crash_signal_handler(sig: i32) -> (r: &'static str)
    ensures
        r@ == crash_text(sig),
{
    if sig == SIGSEGV {
        "[CRASH] dozed received SIGSEGV (segmentation fault)\n"
    } else if sig == SIGBUS {
        "[CRASH] dozed received SIGBUS (bus error)\n"
    } else if sig == SIGABRT {
        "[CRASH] dozed received SIGABRT (abort)\n"
    } else {
        "[CRASH] dozed received unknown signal\n"
    }
}

/// What a notification that carries `data` reports. The data is the index of the timeout,
/// counted from one.
pub open spec fn idle_event(data: usize, idled: i32) -> Option<CallbackEvent> {
    if data == 0 {
        None
    } else if idled != 0 {
        Some(CallbackEvent::Idle((data - 1) as usize))
    } else {
        Some(CallbackEvent::Resume((data - 1) as usize))
    }
}

/// A notification that carries `data` reports that the user is idle or active.
pub fn idle_callback(queue: &mut VecDeque<CallbackEvent>, data: usize, idled: i32)
    ensures
        final(queue)@ == match idle_event(data, idled) {
            Some(event) => old(queue)@.push(event),
            None => old(queue)@,
        },
{
    if data == 0 {
        return;
    }
    let event = if idled != 0 {
        CallbackEvent::Idle(data - 1)
    } else {
        CallbackEvent::Resume(data - 1)
    };
    queue.push_back(event);
}

/// The login manager reports an event.
pub fn logind_callback(queue: &mut VecDeque<CallbackEvent>, event: i32)
    ensures
        final(queue)@ == old(queue)@.push(CallbackEvent::Logind(event)),
{
    queue.push_back(CallbackEvent::Logind(event));
}

/// Takes the oldest report off the queue, if any is waiting.
pub fn next_callback(queue: &mut VecDeque<CallbackEvent>) -> (r: Option<CallbackEvent>)
    ensures
        match r {
            Some(event) => old(queue)@.len() > 0 && event == old(queue)@[0] && final(queue)@
                == old(queue)@.skip(1),
            None => old(queue)@.len() == 0 && final(queue)@ == old(queue)@,
        },
{
    queue.pop_front()
}

/// What a notification reports is about the timeout that it was asked for.
pub proof fn law_report_is_about_its_timeout(
    app: AppModel,
    idx: usize,
    timeout_ms: int,
    obey_inhibitors: bool,
    i: int,
    idled: i32,
)
    requires
        idx < usize::MAX,
        0 <= i < registration(app, idx as int, timeout_ms, obey_inhibitors).len(),
        registration(app, idx as int, timeout_ms, obey_inhibitors)[i] is CreateNotification,
    ensures
        ({
            let asked = registration(app, idx as int, timeout_ms, obey_inhibitors)[i];
            let data = asked->CreateNotification_data;
            &&& 0 < data <= usize::MAX
            &&& idle_event(data as usize, idled) == Some(
                if idled != 0 {
                    CallbackEvent::Idle(idx)
                } else {
                    CallbackEvent::Resume(idx)
                },
            )
        }),
{
}

/// An interrupt and a request to terminate end the daemon, the first user signal makes the
/// timeouts fire, and no other signal asks for anything.
pub proof fn law_signals_ask_for_what_they_say(sig: i32)
    ensures
        signal_request(sig) == SignalRequest::Terminate <==> sig == 2 || sig == 15,
        signal_request(sig) == SignalRequest::ForceIdle <==> sig == 10,
        signal_request(sig) == SignalRequest::Nothing <==> sig != 2 && sig != 15 && sig != 10,
{
}

/// A crash is told by the name of its signal, and otherwise as unknown.
pub proof fn law_crash_is_told_by_its_signal(sig: i32)
    ensures
        crash_text(11) == "[CRASH] dozed received SIGSEGV (segmentation fault)\n"@,
        crash_text(7) == "[CRASH] dozed received SIGBUS (bus error)\n"@,
        crash_text(6) == "[CRASH] dozed received SIGABRT (abort)\n"@,
        sig != 11 && sig != 7 && sig != 6 ==> crash_text(sig)
            == "[CRASH] dozed received unknown signal\n"@,
{
}

/// A notification that carries the index of a timeout, counted from one, reports that this
/// timeout has fired, or that the user is active again after it. One that carries nothing
/// reports nothing.
pub proof fn law_data_names_the_timeout(idx: usize, idled: i32)
    requires
        idx < usize::MAX,
    ensures
        idled != 0 ==> idle_event((idx + 1) as usize, idled) == Some(CallbackEvent::Idle(idx)),
        idle_event((idx + 1) as usize, 0) == Some(CallbackEvent::Resume(idx)),
        idle_event(0, idled) is None,
{
}

} // verus!
