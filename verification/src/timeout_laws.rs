//! What holds of the timeouts of a session: their notifications are neither lost nor given
//! up twice, suppressed ones start again, and no resume is forgotten.

use vstd::multiset::Multiset;
use vstd::prelude::*;

use crate::app::{
    created, dismissal, dismissals, idling, new_app, registering, registering_all, registration,
    registrations, release_effects, released, releases, resumed, resuming, resuming_pending,
    resumption, resumptions, run, syncing, AppModel, Change, EffectModel,
};
use crate::config::{fresh_timeout, session_of, ConfigModel, FullscreenPolicy, TimeoutModel};
use crate::event_loop::{
    after_change, beginning, drained, look_at_fullscreen, reconnecting, synced, turn, AfterDrain, AfterSync,
    Answer, Ask, CallbackEvent, Turn,
};
use crate::laws::{
    every, law_commands_have_a_cause, lemma_every_of_both, lemma_every_reconnecting,
    lemma_every_synced, loop_invariant,
};

verus! {

/// The handle that a timeout holds, if any.
pub open spec fn handle_of(t: TimeoutModel) -> Multiset<usize> {
    match t.notification {
        Some(handle) => Multiset::singleton(handle),
        None => Multiset::empty(),
    }
}

/// The handles of the notifications that timeouts hold.
pub open spec fn held(timeouts: Seq<TimeoutModel>) -> Multiset<usize>
    decreases timeouts.len(),
{
    if timeouts.len() == 0 {
        Multiset::empty()
    } else {
        held(timeouts.drop_last()).add(handle_of(timeouts.last()))
    }
}

/// The handle that an effect gives up, if any.
pub open spec fn handle_given_up(e: EffectModel) -> Multiset<usize> {
    match e {
        EffectModel::DestroyNotification(handle) => Multiset::singleton(handle),
        _ => Multiset::empty(),
    }
}

/// The handles of the notifications that effects give up.
pub open spec fn given_up(effects: Seq<EffectModel>) -> Multiset<usize>
    decreases effects.len(),
{
    if effects.len() == 0 {
        Multiset::empty()
    } else {
        given_up(effects.drop_last()).add(handle_given_up(effects.last()))
    }
}

/// Whether the notifications that were held are those that are held now and those that
/// were given up on the way, each of them once.
pub open spec fn accounted_for(
    before: Seq<TimeoutModel>,
    after: Seq<TimeoutModel>,
    effects: Seq<EffectModel>,
) -> bool {
    held(before) =~= held(after).add(given_up(effects))
}

proof fn lemma_given_up_by_both(a: Seq<EffectModel>, b: Seq<EffectModel>)
    ensures
        given_up(a + b) =~= given_up(a).add(given_up(b)),
    decreases b.len(),
{
    if b.len() == 0 {
        assert(a + b == a);
    } else {
        lemma_given_up_by_both(a, b.drop_last());
        assert((a + b).drop_last() == a + b.drop_last());
        assert((a + b).last() == b.last());
    }
}

/// Effects that give up no notification.
proof fn lemma_nothing_given_up(effects: Seq<EffectModel>)
    requires
        forall|i: int|
            0 <= i < effects.len() ==> !((#[trigger] effects[i]) is DestroyNotification),
    ensures
        given_up(effects) =~= Multiset::empty(),
    decreases effects.len(),
{
    if effects.len() > 0 {
        assert(!(effects[effects.len() - 1] is DestroyNotification));
        assert forall|i: int| 0 <= i < effects.drop_last().len() implies !((
        #[trigger] effects.drop_last()[i]) is DestroyNotification) by {
            assert(effects.drop_last()[i] == effects[i]);
        }
        lemma_nothing_given_up(effects.drop_last());
    }
}

proof fn lemma_given_up_by_dismissal(t: TimeoutModel)
    ensures
        given_up(dismissal(t)) =~= handle_of(t),
{
    if let Some(handle) = t.notification {
        let effects = dismissal(t);
        assert(effects.drop_last() == Seq::<EffectModel>::empty());
        assert(given_up(effects.drop_last()) =~= Multiset::empty());
        assert(effects.last() == EffectModel::DestroyNotification(handle));
    }
}

proof fn lemma_given_up_by_registration(app: AppModel, idx: int, timeout_ms: int, obey: bool)
    ensures
        given_up(registration(app, idx, timeout_ms, obey)) =~= handle_of(app.timeouts[idx]),
{
    let first = dismissal(app.timeouts[idx]);
    let all = registration(app, idx, timeout_ms, obey);
    let second = all.skip(first.len() as int);
    assert(all == first + second);
    assert forall|i: int| 0 <= i < second.len() implies !((
    #[trigger] second[i]) is DestroyNotification) by {
        assert(second[i] == all[first.len() + i]);
    }
    lemma_nothing_given_up(second);
    lemma_given_up_by_both(first, second);
    lemma_given_up_by_dismissal(app.timeouts[idx]);
}

/// Giving up the handles of the first `n` timeouts gives up what these hold.
proof fn lemma_given_up_by_all(app: AppModel, n: nat, forced: bool)
    requires
        n <= app.timeouts.len(),
    ensures
        given_up(dismissals(app.timeouts, n)) =~= held(app.timeouts.take(n as int)),
        given_up(registrations(app, n, forced)) =~= held(app.timeouts.take(n as int)),
    decreases n,
{
    if n > 0 {
        let m = (n - 1) as nat;
        lemma_given_up_by_all(app, m, forced);
        let front = app.timeouts.take(n as int);
        assert(front.drop_last() == app.timeouts.take(m as int));
        assert(front.last() == app.timeouts[n - 1]);
        lemma_given_up_by_both(dismissals(app.timeouts, m), dismissal(app.timeouts[n - 1]));
        lemma_given_up_by_dismissal(app.timeouts[n - 1]);
        let timeout_ms = if forced {
            0
        } else {
            app.timeouts[n - 1].timeout_ms
        };
        let part = registration(app, n - 1, timeout_ms, !forced);
        lemma_given_up_by_both(registrations(app, m, forced), part);
        lemma_given_up_by_registration(app, n - 1, timeout_ms, !forced);
    } else {
        assert(app.timeouts.take(0).len() == 0);
    }
}

/// Timeouts without notifications hold no handle.
proof fn lemma_nothing_held(timeouts: Seq<TimeoutModel>)
    requires
        forall|i: int|
            0 <= i < timeouts.len() ==> (#[trigger] timeouts[i]).notification is None,
    ensures
        held(timeouts) =~= Multiset::empty(),
    decreases timeouts.len(),
{
    if timeouts.len() > 0 {
        assert(timeouts[timeouts.len() - 1].notification is None);
        assert forall|i: int| 0 <= i < timeouts.drop_last().len() implies (
        #[trigger] timeouts.drop_last()[i]).notification is None by {
            assert(timeouts.drop_last()[i] == timeouts[i]);
        }
        lemma_nothing_held(timeouts.drop_last());
    }
}

/// What is held where one timeout has become another.
proof fn lemma_held_after_update(timeouts: Seq<TimeoutModel>, idx: int, t: TimeoutModel)
    requires
        0 <= idx < timeouts.len(),
    ensures
        held(timeouts.update(idx, t)).add(handle_of(timeouts[idx])) =~= held(timeouts).add(
            handle_of(t),
        ),
    decreases timeouts.len(),
{
    let changed = timeouts.update(idx, t);
    let front = held(timeouts.drop_last());
    let gone = handle_of(timeouts[idx]);
    let come = handle_of(t);
    if idx == timeouts.len() - 1 {
        assert(changed.drop_last() == timeouts.drop_last());
        assert(changed.last() == t);
        assert(front.add(come).add(gone) =~= front.add(gone).add(come));
    } else {
        lemma_held_after_update(timeouts.drop_last(), idx, t);
        assert(changed.drop_last() == timeouts.drop_last().update(idx, t));
        assert(changed.last() == timeouts.last());
        let changed_front = held(changed.drop_last());
        let last = handle_of(timeouts.last());
        assert(changed_front.add(gone) =~= front.add(come));
        assert(changed_front.add(last).add(gone) =~= changed_front.add(gone).add(last));
        assert(front.add(last).add(come) =~= front.add(come).add(last));
    }
}

/// A list of timeouts, each of which may have changed, with what was done for each.
spec fn changed_up_to(
    before: Seq<TimeoutModel>,
    after: Seq<TimeoutModel>,
    parts: spec_fn(int) -> Seq<EffectModel>,
    effects: spec_fn(nat) -> Seq<EffectModel>,
) -> bool {
    &&& before.len() == after.len()
    &&& effects(0).len() == 0
    &&& forall|n: nat|
        0 < n <= before.len() ==> #[trigger] effects(n) == effects((n - 1) as nat) + parts(n - 1)
    &&& forall|i: int|
        0 <= i < before.len() ==> handle_of(#[trigger] before[i]) =~= handle_of(after[i]).add(
            given_up(parts(i)),
        )
}

/// Where each timeout is accounted for, the first `n` of them are together.
proof fn lemma_accounted_for_one_by_one(
    before: Seq<TimeoutModel>,
    after: Seq<TimeoutModel>,
    parts: spec_fn(int) -> Seq<EffectModel>,
    effects: spec_fn(nat) -> Seq<EffectModel>,
    n: nat,
)
    requires
        changed_up_to(before, after, parts, effects),
        n <= before.len(),
    ensures
        accounted_for(before.take(n as int), after.take(n as int), effects(n)),
    decreases n,
{
    if n == 0 {
        assert(before.take(0).len() == 0);
        assert(after.take(0).len() == 0);
    } else {
        let m = (n - 1) as nat;
        lemma_accounted_for_one_by_one(before, after, parts, effects, m);
        assert(before.take(n as int).drop_last() == before.take(m as int));
        assert(after.take(n as int).drop_last() == after.take(m as int));
        assert(before.take(n as int).last() == before[n - 1]);
        assert(after.take(n as int).last() == after[n - 1]);
        lemma_given_up_by_both(effects(m), parts(n - 1));
        assert(effects(n) == effects(m) + parts(n - 1));
        let a = held(after.take(m as int));
        let b = given_up(effects(m));
        let c = handle_of(after[n - 1]);
        let d = given_up(parts(n - 1));
        assert(a.add(b).add(c.add(d)) =~= a.add(c).add(b.add(d)));
    }
}

/// Where only the notification of one timeout changes, the handles that it held are
/// accounted for.
proof fn lemma_one_timeout_accounted_for(
    timeouts: Seq<TimeoutModel>,
    idx: int,
    t: TimeoutModel,
    effects: Seq<EffectModel>,
)
    requires
        0 <= idx < timeouts.len(),
        handle_of(timeouts[idx]) =~= handle_of(t).add(given_up(effects)),
    ensures
        accounted_for(timeouts, timeouts.update(idx, t), effects),
{
    lemma_held_after_update(timeouts, idx, t);
    let a = held(timeouts.update(idx, t));
    let b = handle_of(t);
    let c = given_up(effects);
    assert(a.add(b.add(c)) =~= held(timeouts).add(b));
    assert(a.add(b.add(c)) =~= a.add(c).add(b));
    assert forall|h: usize| held(timeouts).count(h) == a.add(c).count(h) by {
        assert(held(timeouts).add(b).count(h) == a.add(c).add(b).count(h));
    }
}

/// The handles that a timeout of its own resume gives up.
proof fn lemma_given_up_by_resumption(app: AppModel, idx: int)
    ensures
        handle_of(app.timeouts[idx]) =~= handle_of(resumed(app.timeouts[idx])).add(
            given_up(resumption(app, idx)),
        ),
{
    let t = app.timeouts[idx];
    let all = resumption(app, idx);
    let middle = if t.registered_timeout_ms == t.timeout_ms {
        Seq::<EffectModel>::empty()
    } else {
        registration(app, idx, t.timeout_ms, true)
    };
    let first = all.take(1);
    let last = run(app, t.resume_cmd);
    assert(all == first + middle + last);
    lemma_nothing_given_up(first);
    lemma_nothing_given_up(last);
    lemma_given_up_by_both(first + middle, last);
    lemma_given_up_by_both(first, middle);
    lemma_given_up_by_registration(app, idx, t.timeout_ms, true);
    lemma_nothing_given_up(seq![]);
}

/// A timeout that fires loses no notification and gives up none twice.
pub proof fn law_idling_accounts_for_notifications(app: AppModel, idx: int, fullscreen: bool)
    ensures
        accounted_for(
            app.timeouts,
            idling(app, idx, fullscreen).app.timeouts,
            idling(app, idx, fullscreen).effects,
        ),
{
    let change = idling(app, idx, fullscreen);
    if 0 <= idx < app.timeouts.len() {
        let first = change.effects.take(1);
        let second = change.effects.skip(1);
        assert(change.effects == first + second);
        lemma_nothing_given_up(first);
        lemma_given_up_by_both(first, second);
        if app.fullscreen_policy == FullscreenPolicy::Suppress && fullscreen {
            assert(second == dismissal(app.timeouts[idx]));
            lemma_given_up_by_dismissal(app.timeouts[idx]);
        } else {
            assert(second == run(app, app.timeouts[idx].idle_cmd));
            lemma_nothing_given_up(second);
        }
        lemma_one_timeout_accounted_for(
            app.timeouts,
            idx,
            change.app.timeouts[idx],
            change.effects,
        );
    } else {
        lemma_nothing_given_up(change.effects);
    }
}

/// A resume loses no notification and gives up none twice.
pub proof fn law_resuming_accounts_for_notifications(app: AppModel, idx: int)
    ensures
        accounted_for(
            app.timeouts,
            resuming(app, idx).app.timeouts,
            resuming(app, idx).effects,
        ),
{
    let change = resuming(app, idx);
    if 0 <= idx < app.timeouts.len() {
        lemma_given_up_by_resumption(app, idx);
        lemma_one_timeout_accounted_for(
            app.timeouts,
            idx,
            resumed(app.timeouts[idx]),
            change.effects,
        );
    } else {
        lemma_nothing_given_up(change.effects);
    }
}

/// Asking for all notifications gives up each that was held, and holds none until the
/// answers come in.
pub proof fn law_registering_all_accounts_for_notifications(app: AppModel, forced: bool)
    ensures
        held(registering_all(app, forced).app.timeouts) =~= Multiset::empty(),
        accounted_for(
            app.timeouts,
            registering_all(app, forced).app.timeouts,
            registering_all(app, forced).effects,
        ),
{
    let change = registering_all(app, forced);
    lemma_nothing_held(change.app.timeouts);
    lemma_given_up_by_all(app, app.timeouts.len(), forced);
    assert(app.timeouts.take(app.timeouts.len() as int) == app.timeouts);
}

/// Running the resumes that are owed loses no notification and gives up none twice.
pub proof fn law_pending_resumes_account_for_notifications(app: AppModel)
    ensures
        accounted_for(
            app.timeouts,
            resuming_pending(app).app.timeouts,
            resuming_pending(app).effects,
        ),
{
    let change = resuming_pending(app);
    let n = app.timeouts.len();
    let parts = |i: int|
        if app.timeouts[i].resume_pending {
            resumption(app, i)
        } else {
            Seq::<EffectModel>::empty()
        };
    let effects = |k: nat| resumptions(app, k);
    assert forall|i: int| 0 <= i < n implies handle_of(#[trigger] app.timeouts[i]) =~= handle_of(
        change.app.timeouts[i],
    ).add(given_up(parts(i))) by {
        lemma_given_up_by_resumption(app, i);
        lemma_nothing_given_up(seq![]);
    }
    lemma_accounted_for_one_by_one(app.timeouts, change.app.timeouts, parts, effects, n);
    assert(app.timeouts.take(n as int) == app.timeouts);
    assert(change.app.timeouts.take(n as int) == change.app.timeouts);
}

/// A look at fullscreen windows loses no notification and gives up none twice.
pub proof fn law_syncing_accounts_for_notifications(app: AppModel, active: bool)
    ensures
        accounted_for(
            app.timeouts,
            syncing(app, active).app.timeouts,
            syncing(app, active).effects,
        ),
{
    let change = syncing(app, active);
    let n = app.timeouts.len();
    if app.fullscreen_policy != FullscreenPolicy::Ignore && app.fullscreen_active && !active {
        let parts = |i: int|
            if app.timeouts[i].suppressed_by_fullscreen {
                registration(app, i, app.timeouts[i].timeout_ms, true)
            } else {
                Seq::<EffectModel>::empty()
            };
        let effects = |k: nat| releases(app, k);
        assert forall|i: int| 0 <= i < n implies handle_of(#[trigger] app.timeouts[i])
            =~= handle_of(change.app.timeouts[i]).add(given_up(parts(i))) by {
            assert(change.app.timeouts[i] == released(app.timeouts[i]));
            lemma_given_up_by_registration(app, i, app.timeouts[i].timeout_ms, true);
            lemma_nothing_given_up(seq![]);
        }
        lemma_accounted_for_one_by_one(app.timeouts, change.app.timeouts, parts, effects, n);
        assert(app.timeouts.take(n as int) == app.timeouts);
        assert(change.app.timeouts.take(n as int) == change.app.timeouts);
        let flush = seq![EffectModel::FlushWayland(app.wl)];
        assert(change.effects == releases(app, n) + flush);
        lemma_nothing_given_up(flush);
        lemma_given_up_by_both(releases(app, n), flush);
    } else {
        lemma_nothing_given_up(change.effects);
    }
}

/// Giving up the connection gives up every notification.
proof fn lemma_reconnecting_accounts(app: AppModel, reason: Seq<char>)
    ensures
        accounted_for(
            app.timeouts,
            reconnecting(app, reason).app.timeouts,
            reconnecting(app, reason).effects,
        ),
{
    let turn = reconnecting(app, reason);
    let n = app.timeouts.len();
    let first = turn.effects.take(2);
    let middle = dismissals(app.timeouts, n);
    let last = seq![EffectModel::DestroyWayland(None)];
    assert(turn.effects == first + middle + last);
    lemma_nothing_given_up(first);
    lemma_nothing_given_up(last);
    lemma_given_up_by_both(first + middle, last);
    lemma_given_up_by_both(first, middle);
    lemma_given_up_by_all(app, n, false);
    assert(app.timeouts.take(n as int) == app.timeouts);
    lemma_nothing_held(turn.app.timeouts);
}

proof fn lemma_synced_accounts(app: AppModel, after: AfterSync)
    ensures
        accounted_for(app.timeouts, synced(app, after).app.timeouts, synced(app, after).effects),
        accounted_for(
            app.timeouts,
            look_at_fullscreen(app, after).app.timeouts,
            look_at_fullscreen(app, after).effects,
        ),
{
    lemma_reconnecting_accounts(app, "Wayland connection closed, reconnecting"@);
    lemma_nothing_given_up(seq![]);
}

/// What is accounted for twice in a row is accounted for from the first to the last.
proof fn lemma_accounted_for_twice(
    a: Seq<TimeoutModel>,
    b: Seq<TimeoutModel>,
    c: Seq<TimeoutModel>,
    first: Seq<EffectModel>,
    second: Seq<EffectModel>,
)
    requires
        accounted_for(a, b, first),
        accounted_for(b, c, second),
    ensures
        accounted_for(a, c, first + second),
{
    lemma_given_up_by_both(first, second);
    let x = held(c);
    assert(x.add(given_up(second)).add(given_up(first)) =~= x.add(
        given_up(first).add(given_up(second)),
    ));
}

/// Whatever the answer, a turn of the loop loses no notification and gives up none twice:
/// what was held before it is held after it or was given up in it.
pub proof fn law_turns_account_for_notifications(app: AppModel, ask: Ask, answer: Answer)
    ensures
        accounted_for(
            app.timeouts,
            turn(app, ask, answer).app.timeouts,
            turn(app, ask, answer).effects,
        ),
{
    let all = turn(app, ask, answer);
    lemma_nothing_given_up(seq![]);
    match (ask, answer) {
        (Ask::Terminate, Answer::Flag(terminate)) => {
            law_pending_resumes_account_for_notifications(app);
        },
        (Ask::ForceIdle, Answer::Flag(force)) => {
            if force {
                let change = registering_all(app, true);
                let flush = seq![EffectModel::FlushWayland(app.wl)];
                let second = look_at_fullscreen(change.app, AfterSync::Drain);
                law_registering_all_accounts_for_notifications(app, true);
                lemma_nothing_given_up(flush);
                lemma_given_up_by_both(change.effects, flush);
                assert(change.effects.push(EffectModel::FlushWayland(app.wl)) == change.effects
                    + flush);
                lemma_synced_accounts(change.app, AfterSync::Drain);
                lemma_accounted_for_twice(
                    app.timeouts,
                    change.app.timeouts,
                    second.app.timeouts,
                    change.effects + flush,
                    second.effects,
                );
            }
        },
        (Ask::SyncFullscreen { after, .. }, Answer::Code(ret)) => {
            law_syncing_accounts_for_notifications(app, ret != 0);
        },
        (Ask::Closed { wayland, logind }, Answer::Done) => {
            lemma_synced_accounts(app, AfterSync::Closed { wayland, logind });
        },
        (Ask::IdleFullscreen { idx, .. }, Answer::Code(ret)) => {
            law_idling_accounts_for_notifications(app, idx as int, ret != 0);
        },
        (Ask::NextCallback(after), Answer::Callback(event)) => {
            match event {
                None => {
                    lemma_nothing_given_up(drained(app, after).effects);
                },
                Some(CallbackEvent::Idle(idx)) => {
                    law_idling_accounts_for_notifications(app, idx as int, false);
                },
                Some(CallbackEvent::Resume(idx)) => {
                    law_resuming_accounts_for_notifications(app, idx as int);
                },
                Some(CallbackEvent::Logind(_)) => {
                    lemma_nothing_given_up(all.effects);
                },
            }
        },
        (Ask::Poll { .. }, Answer::PollFailed { .. }) => {
            lemma_nothing_given_up(all.effects);
        },
        (Ask::Poll { logind_fd, .. }, Answer::Polled { wayland, logind }) => {
            let shown = if logind_fd is Some {
                Some(logind)
            } else {
                None
            };
            lemma_synced_accounts(app, AfterSync::Closed { wayland, logind: shown });
        },
        (Ask::Dispatch { wayland, logind, .. }, Answer::Code(ret)) => {
            if ret < 0 {
                lemma_reconnecting_accounts(app, "Wayland dispatch failed, reconnecting"@);
            } else {
                let flush = seq![EffectModel::FlushWayland(app.wl)];
                let after = AfterSync::Closed { wayland, logind };
                let second = look_at_fullscreen(app, after);
                lemma_nothing_given_up(flush);
                lemma_synced_accounts(app, after);
                lemma_accounted_for_twice(
                    app.timeouts,
                    app.timeouts,
                    second.app.timeouts,
                    flush,
                    second.effects,
                );
            }
        },
        (Ask::LogindProcess(_), Answer::Code(ret)) => {
            lemma_nothing_given_up(all.effects);
        },
        (Ask::HasIdle(_), Answer::Code(ret)) => {
            lemma_nothing_given_up(all.effects);
        },
        (Ask::HasSeat(wl), Answer::Code(ret)) => {
            if ret == 0 {
                lemma_nothing_given_up(all.effects);
            } else {
                law_registering_all_accounts_for_notifications(
                    AppModel { wl: Some(wl), ..app },
                    false,
                );
            }
        },
        _ => {},
    }
}

/// Whether effects ask for notifications over `wl` for some of the first `n` timeouts, in
/// the order of the timeouts and so at most once for each, and only where the timeout holds
/// none.
pub open spec fn asks_in_place(
    effects: Seq<EffectModel>,
    wl: Option<usize>,
    timeouts: Seq<TimeoutModel>,
    n: int,
) -> bool {
    &&& forall|i: int|
        0 <= i < effects.len() && (#[trigger] effects[i]) is CreateNotification ==> {
            let idx = effects[i]->idx;
            &&& effects[i]->CreateNotification_wl == wl
            &&& 0 <= idx < n
            &&& timeouts[idx].notification is None
        }
    &&& forall|i: int, j: int|
        0 <= i < j < effects.len() && (#[trigger] effects[i]) is CreateNotification && (
        #[trigger] effects[j]) is CreateNotification ==> effects[i]->idx < effects[j]->idx
}

/// Asking for the notification of one timeout behind those of timeouts ahead of it.
proof fn lemma_asks_for_one_more(
    front: Seq<EffectModel>,
    part: Seq<EffectModel>,
    wl: Option<usize>,
    timeouts: Seq<TimeoutModel>,
    idx: int,
)
    requires
        0 <= idx,
        asks_in_place(front, wl, timeouts, idx),
        asks_in_place(part, wl, timeouts, idx + 1),
        forall|i: int|
            0 <= i < part.len() && (#[trigger] part[i]) is CreateNotification ==> part[i]->idx
                == idx,
    ensures
        asks_in_place(front + part, wl, timeouts, idx + 1),
{
    let all = front + part;
    assert forall|i: int| 0 <= i < all.len() && (#[trigger] all[i]) is CreateNotification implies {
        &&& all[i]->CreateNotification_wl == wl
        &&& 0 <= all[i]->idx < idx + 1
        &&& timeouts[all[i]->idx].notification is None
    } by {
        assert(all[i] == if i < front.len() {
            front[i]
        } else {
            part[i - front.len()]
        });
    }
    assert forall|i: int, j: int|
        0 <= i < j < all.len() && (#[trigger] all[i]) is CreateNotification && (
        #[trigger] all[j]) is CreateNotification implies all[i]->idx < all[j]->idx by {
        if j < front.len() {
            assert(all[i] == front[i] && all[j] == front[j]);
        } else if i < front.len() {
            assert(all[i] == front[i] && all[j] == part[j - front.len()]);
        } else {
            assert(all[i] == part[i - front.len()] && all[j] == part[j - front.len()]);
        }
    }
}

proof fn lemma_registrations_are_in_place(
    app: AppModel,
    n: nat,
    forced: bool,
    timeouts: Seq<TimeoutModel>,
)
    requires
        n <= timeouts.len(),
        forall|i: int|
            0 <= i < timeouts.len() ==> (#[trigger] timeouts[i]).notification is None,
    ensures
        asks_in_place(registrations(app, n, forced), app.wl, timeouts, n as int),
    decreases n,
{
    if n > 0 {
        let m = (n - 1) as nat;
        lemma_registrations_are_in_place(app, m, forced, timeouts);
        let timeout_ms = if forced {
            0
        } else {
            app.timeouts[n - 1].timeout_ms
        };
        let part = registration(app, n - 1, timeout_ms, !forced);
        assert(timeouts[n - 1].notification is None);
        lemma_asks_for_one_more(
            registrations(app, m, forced),
            part,
            app.wl,
            timeouts,
            n - 1,
        );
    }
}

proof fn lemma_releases_are_in_place(app: AppModel, n: nat, timeouts: Seq<TimeoutModel>)
    requires
        n <= timeouts.len() == app.timeouts.len(),
        forall|i: int|
            0 <= i < timeouts.len() ==> #[trigger] timeouts[i] == released(app.timeouts[i]),
    ensures
        asks_in_place(releases(app, n), app.wl, timeouts, n as int),
    decreases n,
{
    if n > 0 {
        let m = (n - 1) as nat;
        lemma_releases_are_in_place(app, m, timeouts);
        let part = if app.timeouts[n - 1].suppressed_by_fullscreen {
            registration(app, n - 1, app.timeouts[n - 1].timeout_ms, true)
        } else {
            seq![]
        };
        assert(timeouts[n - 1] == released(app.timeouts[n - 1]));
        lemma_asks_for_one_more(releases(app, m), part, app.wl, timeouts, n - 1);
    }
}

proof fn lemma_resumption_is_in_place(app: AppModel, idx: int, timeouts: Seq<TimeoutModel>)
    requires
        0 <= idx < timeouts.len() == app.timeouts.len(),
        timeouts[idx] == resumed(app.timeouts[idx]),
    ensures
        asks_in_place(resumption(app, idx), app.wl, timeouts, idx + 1),
        forall|i: int|
            0 <= i < resumption(app, idx).len() && (#[trigger] resumption(app, idx)[i])
                is CreateNotification ==> resumption(app, idx)[i]->idx == idx,
{
}

proof fn lemma_resumptions_are_in_place(app: AppModel, n: nat, timeouts: Seq<TimeoutModel>)
    requires
        n <= timeouts.len() == app.timeouts.len(),
        forall|i: int|
            0 <= i < timeouts.len() && app.timeouts[i].resume_pending ==> #[trigger] timeouts[i]
                == resumed(app.timeouts[i]),
    ensures
        asks_in_place(resumptions(app, n), app.wl, timeouts, n as int),
    decreases n,
{
    if n > 0 {
        let m = (n - 1) as nat;
        lemma_resumptions_are_in_place(app, m, timeouts);
        if app.timeouts[n - 1].resume_pending {
            assert(timeouts[n - 1] == resumed(app.timeouts[n - 1]));
            lemma_resumption_is_in_place(app, n - 1, timeouts);
            lemma_asks_for_one_more(
                resumptions(app, m),
                resumption(app, n - 1),
                app.wl,
                timeouts,
                n - 1,
            );
        } else {
            assert(resumptions(app, n) =~= resumptions(app, m));
        }
    }
}

/// Whatever the answer, what comes of each notification that a turn asks for can be taken
/// up when it is heard: the turn asks over the connection that it leaves, at most once for
/// each timeout, and leaves that timeout without a notification.
pub proof fn law_reports_find_their_place(app: AppModel, ask: Ask, answer: Answer)
    requires
        loop_invariant(app, ask),
    ensures
        ({
            let after = turn(app, ask, answer);
            &&& asks_in_place(
                after.effects,
                after.app.wl,
                after.app.timeouts,
                after.app.timeouts.len() as int,
            )
            &&& after.app.wl is None ==> every(
                after.effects,
                |e: EffectModel| !(e is CreateNotification),
            )
        }),
{
    let n = app.timeouts.len();
    let p = |e: EffectModel| !(e is CreateNotification);
    let after = turn(app, ask, answer);
    match (ask, answer) {
        (Ask::Terminate, Answer::Flag(terminate)) => {
            if terminate {
                lemma_resumptions_are_in_place(app, n, after.app.timeouts);
            }
        },
        (Ask::ForceIdle, Answer::Flag(force)) => {
            if force {
                let change = registering_all(app, true);
                lemma_registrations_are_in_place(app, n, true, change.app.timeouts);
                assert(after.effects =~= change.effects.push(EffectModel::FlushWayland(app.wl)));
            }
        },
        (Ask::SyncFullscreen { after: _, .. }, Answer::Code(ret)) => {
            if app.fullscreen_policy != FullscreenPolicy::Ignore && app.fullscreen_active && ret
                == 0 {
                lemma_releases_are_in_place(app, n, after.app.timeouts);
            }
        },
        (Ask::NextCallback(drain), Answer::Callback(event)) => {
            if let Some(CallbackEvent::Resume(idx)) = event {
                if idx < n {
                    lemma_resumption_is_in_place(app, idx as int, after.app.timeouts);
                }
            }
        },
        (Ask::Closed { wayland, logind }, Answer::Done) => {
            lemma_every_synced(app, AfterSync::Closed { wayland, logind }, p);
            assert(every(after.effects, p));
        },
        (Ask::Poll { logind_fd, .. }, Answer::Polled { wayland, logind }) => {
            let shown = if logind_fd is Some {
                Some(logind)
            } else {
                None
            };
            lemma_every_synced(app, AfterSync::Closed { wayland, logind: shown }, p);
            assert(every(after.effects, p));
        },
        (Ask::Dispatch { wayland, logind, .. }, Answer::Code(ret)) => {
            let sync = AfterSync::Closed { wayland, logind };
            lemma_every_reconnecting(app, "Wayland dispatch failed, reconnecting"@, p);
            lemma_every_synced(app, sync, p);
            let flush = seq![EffectModel::FlushWayland(app.wl)];
            lemma_every_of_both(flush, look_at_fullscreen(app, sync).effects, p);
            assert(every(after.effects, p));
        },
        (Ask::HasSeat(wl), Answer::Code(ret)) => {
            if ret != 0 {
                let taken = AppModel { wl: Some(wl), ..app };
                lemma_registrations_are_in_place(taken, n, false, after.app.timeouts);
            }
        },
        _ => {},
    }
}

/// A notification that is created for a timeout that holds none is held from then on, next
/// to those that were held before.
pub proof fn law_created_notification_is_held(
    app: AppModel,
    idx: int,
    timeout_ms: int,
    handle: usize,
)
    requires
        0 <= idx < app.timeouts.len(),
        app.timeouts[idx].notification is None,
    ensures
        held(created(app, idx, timeout_ms, Some(handle)).app.timeouts) =~= held(
            app.timeouts,
        ).insert(handle),
{
    let after = created(app, idx, timeout_ms, Some(handle)).app.timeouts;
    lemma_held_after_update(app.timeouts, idx, after[idx]);
    assert(held(after).add(Multiset::empty()) =~= held(after));
}

/// A session that is released gives up everything that it holds: each notification once,
/// and the two connections where there are any.
pub proof fn law_release_gives_up_everything(app: AppModel)
    ensures
        given_up(release_effects(app)) =~= held(app.timeouts),
        app.logind is Some ==> release_effects(app).contains(
            EffectModel::DestroyLogind(app.logind),
        ),
        app.wl is Some ==> release_effects(app).last() == EffectModel::DestroyWayland(app.wl),
{
    let n = app.timeouts.len();
    let first = dismissals(app.timeouts, n);
    let all = release_effects(app);
    let rest = all.skip(first.len() as int);
    assert(all == first + rest);
    assert forall|i: int| 0 <= i < rest.len() implies !((
    #[trigger] rest[i]) is DestroyNotification) by {
        assert(rest[i] == all[first.len() + i]);
    }
    lemma_nothing_given_up(rest);
    lemma_given_up_by_both(first, rest);
    lemma_given_up_by_all(app, n, false);
    assert(app.timeouts.take(n as int) == app.timeouts);
    if app.logind is Some {
        assert(all[first.len() as int] == EffectModel::DestroyLogind(app.logind));
    }
}

/// Whether the notification of the timeout `idx` is asked for, for its configured time.
pub open spec fn asks_for(effects: Seq<EffectModel>, app: AppModel, idx: int) -> bool {
    effects.contains(
        EffectModel::CreateNotification {
            wl: app.wl,
            idx,
            data: idx + 1,
            timeout_ms: app.timeouts[idx].timeout_ms,
            obey_inhibitors: true,
        },
    )
}

proof fn lemma_registration_asks(app: AppModel, idx: int)
    requires
        app.timeouts[idx].timeout_ms >= 0,
    ensures
        asks_for(registration(app, idx, app.timeouts[idx].timeout_ms, true), app, idx),
{
    let effects = registration(app, idx, app.timeouts[idx].timeout_ms, true);
    assert(effects[effects.len() - 1] is CreateNotification);
}

proof fn lemma_releases_ask(app: AppModel, n: nat, idx: int)
    requires
        0 <= idx < n <= app.timeouts.len(),
        app.timeouts[idx].suppressed_by_fullscreen,
        app.timeouts[idx].timeout_ms >= 0,
    ensures
        asks_for(releases(app, n), app, idx),
    decreases n,
{
    let wanted = EffectModel::CreateNotification {
        wl: app.wl,
        idx,
        data: idx + 1,
        timeout_ms: app.timeouts[idx].timeout_ms,
        obey_inhibitors: true,
    };
    let m = (n - 1) as nat;
    let front = releases(app, m);
    let all = releases(app, n);
    if idx == n - 1 {
        lemma_registration_asks(app, idx);
        let part = registration(app, idx, app.timeouts[idx].timeout_ms, true);
        let k = choose|k: int| 0 <= k < part.len() && part[k] == wanted;
        assert(all[front.len() + k] == wanted);
    } else {
        lemma_releases_ask(app, m, idx);
        let k = choose|k: int| 0 <= k < front.len() && front[k] == wanted;
        assert(all[k] == wanted);
    }
}

/// Whether it is known of every timeout that is suppressed that a window was fullscreen.
pub open spec fn suppression_is_known(app: AppModel) -> bool {
    forall|i: int|
        0 <= i < app.timeouts.len() && (#[trigger] app.timeouts[i]).suppressed_by_fullscreen
            ==> app.fullscreen_active
}

/// A session starts with no timeout suppressed.
pub proof fn law_session_starts_unsuppressed(config: ConfigModel, wl: Option<usize>)
    ensures
        suppression_is_known(new_app(session_of(config), wl)),
        suppression_is_known(beginning(new_app(session_of(config), wl)).app),
{
}

/// Whatever the answer, a timeout that is suppressed after a turn is one that the session
/// knows a fullscreen window to stand against, so that it is not left behind when that
/// window goes.
pub proof fn law_turns_know_of_suppression(app: AppModel, ask: Ask, answer: Answer)
    requires
        suppression_is_known(app),
    ensures
        suppression_is_known(turn(app, ask, answer).app),
{
    match (ask, answer) {
        (Ask::Terminate, Answer::Flag(_)) => {
            assert(suppression_is_known(resuming_pending(app).app));
        },
        (Ask::ForceIdle, Answer::Flag(_)) => {
            assert(suppression_is_known(registering_all(app, true).app));
        },
        (Ask::SyncFullscreen { .. }, Answer::Code(ret)) => {
            assert(suppression_is_known(syncing(app, ret != 0).app));
        },
        (Ask::IdleFullscreen { idx, .. }, Answer::Code(ret)) => {
            assert(suppression_is_known(idling(app, idx as int, ret != 0).app));
        },
        _ => {},
    }
}

/// Hearing what came of asking for a notification suppresses nothing.
pub proof fn law_reports_know_of_suppression(
    app: AppModel,
    idx: int,
    timeout_ms: int,
    notification: Option<usize>,
)
    requires
        suppression_is_known(app),
        0 <= idx < app.timeouts.len(),
    ensures
        suppression_is_known(created(app, idx, timeout_ms, notification).app),
{
}

/// Every timeout that fullscreen windows have suppressed starts again, for its configured
/// time, when the loop sees that no window is fullscreen any more, whatever has happened
/// since it was suppressed.
pub proof fn law_suppressed_timeouts_start_again(
    app: AppModel,
    wl: Option<usize>,
    after: AfterSync,
    idx: int,
)
    requires
        0 <= idx < app.timeouts.len(),
        app.timeouts[idx].suppressed_by_fullscreen,
        app.timeouts[idx].timeout_ms >= 0,
        app.fullscreen_active,
        app.fullscreen_policy == FullscreenPolicy::Suppress,
    ensures
        asks_for(syncing(app, false).effects, app, idx),
        !syncing(app, false).app.timeouts[idx].suppressed_by_fullscreen,
        ({
            let seen = turn(app, Ask::SyncFullscreen { wl, after }, Answer::Code(0));
            &&& asks_for(seen.effects, app, idx)
            &&& !seen.app.timeouts[idx].suppressed_by_fullscreen
        }),
{
    let n = app.timeouts.len();
    lemma_releases_ask(app, n, idx);
    let front = releases(app, n);
    let all = syncing(app, false).effects;
    let wanted = EffectModel::CreateNotification {
        wl: app.wl,
        idx,
        data: idx + 1,
        timeout_ms: app.timeouts[idx].timeout_ms,
        obey_inhibitors: true,
    };
    let k = choose|k: int| 0 <= k < front.len() && front[k] == wanted;
    assert(all[k] == wanted);
}

/// A timeout that a fullscreen window has just suppressed starts again, for its configured
/// time, when the loop sees that no window is fullscreen any more.
pub proof fn law_suppressed_timeout_starts_again(app: AppModel, idx: int)
    requires
        0 <= idx < app.timeouts.len(),
        app.timeouts[idx].timeout_ms >= 0,
        app.fullscreen_policy == FullscreenPolicy::Suppress,
    ensures
        ({
            let suppressed = idling(app, idx, true).app;
            let change = syncing(suppressed, false);
            &&& asks_for(change.effects, app, idx)
            &&& !change.app.timeouts[idx].suppressed_by_fullscreen
        }),
{
    let suppressed = idling(app, idx, true).app;
    law_suppressed_timeouts_start_again(suppressed, app.wl, AfterSync::Drain, idx);
}

/// While a window is fullscreen, no idle command is run under the policy to suppress: a
/// timeout that fires makes the loop ask about such windows before anything else is done;
/// where there is one, the timeout is suppressed, nothing is run and no resume comes to be
/// owed; where there is none, the command is run.
pub proof fn law_fullscreen_window_suppresses_idle_command(
    app: AppModel,
    idx: usize,
    drain: AfterDrain,
    ret: i32,
)
    requires
        idx < app.timeouts.len(),
        app.fullscreen_policy == FullscreenPolicy::Suppress,
    ensures
        ({
            let fired = Answer::Callback(Some(CallbackEvent::Idle(idx)));
            let asked = Ask::IdleFullscreen { wl: app.wl, idx, drain };
            let answered = turn(app, asked, Answer::Code(ret));
            &&& turn(app, Ask::NextCallback(drain), fired) == (Turn {
                app,
                effects: seq![],
                next: asked,
            })
            &&& answered.next == Ask::NextCallback(drain)
            &&& if ret != 0 {
                &&& every(answered.effects, |e: EffectModel| !(e is Exec))
                &&& answered.app.timeouts[idx as int] == (TimeoutModel {
                    suppressed_by_fullscreen: true,
                    notification: None,
                    ..app.timeouts[idx as int]
                })
            } else {
                answered == after_change(
                    idling(app, idx as int, false),
                    Ask::NextCallback(drain),
                )
            }
        }),
{
    let asked = Ask::IdleFullscreen { wl: app.wl, idx, drain };
    law_commands_have_a_cause(app, asked, Answer::Code(ret));
}

/// Under the policy to ignore them, fullscreen windows make no difference.
pub proof fn law_ignored_windows_make_no_difference(app: AppModel, idx: int, active: bool)
    requires
        app.fullscreen_policy == FullscreenPolicy::Ignore,
    ensures
        idling(app, idx, true) == idling(app, idx, false),
        syncing(app, active) == (Change { app, effects: seq![] }),
{
}

/// A timeout that was made to fire at once goes back to its configured time when the user
/// becomes active again; one that never fires by itself goes back to holding nothing.
pub proof fn law_forced_timeout_goes_back(app: AppModel, idx: int, handle: usize)
    requires
        0 <= idx < app.timeouts.len(),
        app.timeouts[idx].timeout_ms != 0,
    ensures
        ({
            let asked = registering(app, idx, 0, false).app;
            let forced = created(asked, idx, 0, Some(handle)).app;
            let change = resuming(forced, idx);
            &&& app.timeouts[idx].timeout_ms > 0 ==> asks_for(change.effects, app, idx)
            &&& change.effects.contains(EffectModel::DestroyNotification(handle))
            &&& change.app.timeouts[idx].notification is None
        }),
{
    let asked = registering(app, idx, 0, false).app;
    let forced = created(asked, idx, 0, Some(handle)).app;
    let change = resuming(forced, idx);
    assert(change.effects[1] == EffectModel::DestroyNotification(handle));
    if app.timeouts[idx].timeout_ms > 0 {
        assert(change.effects[3] is CreateNotification);
    }
}

proof fn lemma_registrations_ask(app: AppModel, n: nat, forced: bool, idx: int)
    requires
        0 <= idx < n <= app.timeouts.len(),
        forced || app.timeouts[idx].timeout_ms >= 0,
    ensures
        registrations(app, n, forced).contains(
            EffectModel::CreateNotification {
                wl: app.wl,
                idx,
                data: idx + 1,
                timeout_ms: if forced {
                    0
                } else {
                    app.timeouts[idx].timeout_ms
                },
                obey_inhibitors: !forced,
            },
        ),
    decreases n,
{
    let timeout_ms = if forced {
        0
    } else {
        app.timeouts[idx].timeout_ms
    };
    let wanted = EffectModel::CreateNotification {
        wl: app.wl,
        idx,
        data: idx + 1,
        timeout_ms,
        obey_inhibitors: !forced,
    };
    let m = (n - 1) as nat;
    let front = registrations(app, m, forced);
    let all = registrations(app, n, forced);
    if idx == n - 1 {
        let part = registration(app, idx, timeout_ms, !forced);
        assert(part[part.len() - 1] == wanted);
        assert(all[front.len() + part.len() - 1] == wanted);
    } else {
        lemma_registrations_ask(app, m, forced, idx);
        let k = choose|k: int| 0 <= k < front.len() && front[k] == wanted;
        assert(all[k] == wanted);
    }
}

/// Every timeout that can fire is registered for its configured time; by force, every
/// timeout is, at once and past all inhibitors.
pub proof fn law_every_timeout_is_registered(app: AppModel, idx: int)
    requires
        0 <= idx < app.timeouts.len(),
    ensures
        app.timeouts[idx].timeout_ms >= 0 ==> asks_for(
            registering_all(app, false).effects,
            app,
            idx,
        ),
        registering_all(app, true).effects.contains(
            EffectModel::CreateNotification {
                wl: app.wl,
                idx,
                data: idx + 1,
                timeout_ms: 0,
                obey_inhibitors: false,
            },
        ),
{
    let n = app.timeouts.len();
    lemma_registrations_ask(app, n, true, idx);
    if app.timeouts[idx].timeout_ms >= 0 {
        lemma_registrations_ask(app, n, false, idx);
    }
}

/// A session starts with the timeouts as they were configured, holding no notification,
/// suppressing nothing and owing nothing.
pub proof fn law_session_starts_afresh(config: ConfigModel, wl: Option<usize>, idx: int)
    requires
        0 <= idx < config.timeouts.len(),
    ensures
        ({
            let app = new_app(session_of(config), wl);
            let t = config.timeouts[idx];
            &&& app.timeouts.len() == config.timeouts.len()
            &&& app.timeouts[idx] == fresh_timeout(t.timeout_ms, t.idle_cmd, t.resume_cmd)
            &&& held(app.timeouts) =~= Multiset::empty()
            &&& app.wl == wl
            &&& app.logind is None
        }),
{
    lemma_nothing_held(new_app(session_of(config), wl).timeouts);
}

/// Once the resumes that are owed have been run, none is owed, and running them again does
/// nothing.
pub proof fn law_pending_resumes_are_run_once(app: AppModel)
    ensures
        ({
            let after = resuming_pending(app).app;
            &&& forall|i: int|
                0 <= i < after.timeouts.len() ==> !(#[trigger] after.timeouts[i]).resume_pending
            &&& resuming_pending(after) == (Change { app: after, effects: seq![] })
        }),
{
    let after = resuming_pending(app).app;
    assert forall|i: int| 0 <= i < after.timeouts.len() implies !(
    #[trigger] after.timeouts[i]).resume_pending by {
        assert(after.timeouts[i] == if app.timeouts[i].resume_pending {
            resumed(app.timeouts[i])
        } else {
            app.timeouts[i]
        });
    }
    lemma_nothing_owed(after, after.timeouts.len());
    assert(resuming_pending(after).app.timeouts =~= after.timeouts);
}

proof fn lemma_nothing_owed(app: AppModel, n: nat)
    requires
        n <= app.timeouts.len(),
        forall|i: int|
            0 <= i < app.timeouts.len() ==> !(#[trigger] app.timeouts[i]).resume_pending,
    ensures
        resumptions(app, n) =~= seq![],
    decreases n,
{
    if n > 0 {
        lemma_nothing_owed(app, (n - 1) as nat);
        assert(!app.timeouts[n - 1].resume_pending);
    }
}

/// Whether the resume command of the timeout `idx` is run, where it has one.
pub open spec fn runs_resume(effects: Seq<EffectModel>, app: AppModel, idx: int) -> bool {
    match app.timeouts[idx].resume_cmd {
        Some(command) => effects.contains(
            EffectModel::Exec { command, wait: app.wait, level: app.log_level },
        ),
        None => true,
    }
}

proof fn lemma_resumption_runs(app: AppModel, idx: int)
    ensures
        runs_resume(resumption(app, idx), app, idx),
{
    if app.timeouts[idx].resume_cmd is Some {
        let effects = resumption(app, idx);
        assert(effects[effects.len() - 1] is Exec);
    }
}

proof fn lemma_resumptions_run(app: AppModel, n: nat, idx: int)
    requires
        0 <= idx < n <= app.timeouts.len(),
        app.timeouts[idx].resume_pending,
    ensures
        runs_resume(resumptions(app, n), app, idx),
    decreases n,
{
    if let Some(command) = app.timeouts[idx].resume_cmd {
        let wanted = EffectModel::Exec { command, wait: app.wait, level: app.log_level };
        let m = (n - 1) as nat;
        let front = resumptions(app, m);
        let all = resumptions(app, n);
        if idx == n - 1 {
            lemma_resumption_runs(app, idx);
            let part = resumption(app, idx);
            let k = choose|k: int| 0 <= k < part.len() && part[k] == wanted;
            assert(all[front.len() + k] == wanted);
        } else {
            lemma_resumptions_run(app, m, idx);
            let k = choose|k: int| 0 <= k < front.len() && front[k] == wanted;
            assert(all[k] == wanted);
        }
    }
}

/// A timeout whose idle command was run owes a resume.
pub proof fn law_idle_command_owes_a_resume(app: AppModel, idx: int, fullscreen: bool)
    requires
        0 <= idx < app.timeouts.len(),
        app.fullscreen_policy == FullscreenPolicy::Ignore || !fullscreen,
    ensures
        idling(app, idx, fullscreen).app.timeouts[idx].resume_pending,
        app.timeouts[idx].idle_cmd is Some ==> idling(app, idx, fullscreen).effects.contains(
            EffectModel::Exec {
                command: app.timeouts[idx].idle_cmd->0,
                wait: app.wait,
                level: app.log_level,
            },
        ),
{
    if app.timeouts[idx].idle_cmd is Some {
        assert(idling(app, idx, fullscreen).effects[1] is Exec);
    }
}

/// No resume is forgotten: a resume that is owed is still owed after a turn, or its command
/// was run in it. When the daemon ends, none is owed any more.
pub proof fn law_no_resume_is_forgotten(app: AppModel, ask: Ask, answer: Answer, idx: int)
    requires
        0 <= idx < app.timeouts.len(),
        app.timeouts[idx].resume_pending,
    ensures
        turn(app, ask, answer).app.timeouts[idx].resume_pending || runs_resume(
            turn(app, ask, answer).effects,
            app,
            idx,
        ),
        ask != Ask::Finished && turn(app, ask, answer).next == Ask::Finished
            ==> !turn(app, ask, answer).app.timeouts[idx].resume_pending,
{
    let n = app.timeouts.len();
    match (ask, answer) {
        (Ask::Terminate, Answer::Flag(terminate)) => {
            lemma_resumptions_run(app, n, idx);
        },
        (Ask::ForceIdle, Answer::Flag(force)) => {
            let change = registering_all(app, true);
            assert(change.app.timeouts[idx].resume_pending);
        },
        (Ask::SyncFullscreen { after, .. }, Answer::Code(ret)) => {
            let change = syncing(app, ret != 0);
            assert(change.app.timeouts[idx].resume_pending);
        },
        (Ask::NextCallback(after), Answer::Callback(event)) => {
            lemma_resumption_runs(app, idx);
        },
        _ => {},
    }
}

} // verus!
