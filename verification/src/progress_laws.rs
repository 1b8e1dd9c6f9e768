//! Why every call of the threads that share a mutex ends.

use crate::access::{Access, Reply};
use crate::lock::{enqueue_onto, LockRequest, LockState};
use crate::parker::{ParkRequest, ParkState, UnparkState, WaitState, UNPARKED};
use crate::system::{is_run, taken_by, Activity, Step, System, Thread};
use crate::system_laws::{
    hand_over, is_sound, law_word_returns_to_zero, lemma_idle_word, lemma_run,
    lemma_somebody_is_awake, lemma_start, lemma_step, parker_fits, popper_fits, queued_at, tenant,
    Holders,
};
use crate::unlock::{UnlockRequest, UnlockState};
use crate::word::{head_of, is_node_address};
use vstd::prelude::*;

verus! {

/// How many rounds of waiting a thread has left before it queues up.
pub open spec fn rounds_left(spin_count: usize) -> nat {
    if spin_count <= 30 {
        (30 - spin_count) as nat
    } else {
        0
    }
}

/// How much a thread has still to do, whatever the word says.
///
/// A call of lock costs more than the release that follows it, and a release more than the
/// waiter that it may wake can waste before it sleeps again.
pub open spec fn effort<T>(thread: Thread<T>) -> nat {
    match thread.activity {
        Activity::Idle => 0,
        Activity::Unlocking(u) => match u {
            UnlockState::Done => 1,
            UnlockState::Waking { .. } => match thread.unpark {
                UnparkState::Done => 2,
                UnparkState::Waking => 3,
                UnparkState::Start => 103,
            },
            UnlockState::Popping { .. } => 104,
            UnlockState::QueueSeen { .. } => 104,
            UnlockState::QueueLocked => 105,
            UnlockState::Seen { .. } => 106,
            UnlockState::Reload => 107,
            UnlockState::Start => 108,
        },
        Activity::Locking(l) => match l {
            LockState::Held => 109,
            LockState::Queued => if thread.cell != UNPARKED {
                match thread.park {
                    ParkState::Start => 113,
                    ParkState::Claim => 112,
                    _ => 111,
                }
            } else {
                match thread.park {
                    ParkState::Start => 181,
                    ParkState::Claim => 181,
                    ParkState::Waiting => match thread.wait {
                        WaitState::Blocked => 180,
                        WaitState::Recheck => 179,
                        WaitState::Done => 178,
                    },
                    ParkState::Done => 177,
                }
            },
            LockState::Seen { spin_count, .. } => 114 + 2 * rounds_left(spin_count),
            LockState::Reload { spin_count } => 115 + 2 * rounds_left(spin_count),
            LockState::Start => 176,
        },
    }
}

/// How far what a thread has seen lags behind what the word says.
pub open spec fn lag<T>(thread: Thread<T>, word: usize) -> nat {
    match thread.activity {
        Activity::Locking(LockState::Seen { state, .. }) => if state == word {
            0
        } else {
            1
        },
        Activity::Unlocking(UnlockState::Seen { state }) => if state == word {
            0
        } else {
            1
        },
        Activity::Unlocking(UnlockState::QueueSeen { state }) => if state == word {
            0
        } else {
            2
        },
        Activity::Unlocking(UnlockState::Popping { state, .. }) => if state == word {
            0
        } else {
            1
        },
        _ => 0,
    }
}

/// Whether a thread has yet to read where the first node leads.
pub open spec fn unread<T>(thread: Thread<T>) -> nat {
    match thread.activity {
        Activity::Unlocking(UnlockState::QueueSeen { .. }) => 1,
        _ => 0,
    }
}

pub open spec fn sum(s: Seq<nat>) -> nat
    decreases s.len(),
{
    if s.len() == 0 {
        0
    } else {
        sum(s.drop_last()) + s.last()
    }
}

/// How much all threads together have still to do.
pub open spec fn total_effort<T>(s: System<T>) -> nat {
    sum(Seq::new(s.threads.len(), |t: int| effort(s.threads[t])))
}

/// How far all threads together lag behind.
pub open spec fn total_lag<T>(s: System<T>) -> nat {
    sum(Seq::new(s.threads.len(), |t: int| lag(s.threads[t], s.word)))
}

/// How many threads have yet to read where the first node leads.
pub open spec fn total_unread<T>(s: System<T>) -> nat {
    sum(Seq::new(s.threads.len(), |t: int| unread(s.threads[t])))
}

/// Whether the threads are as close to the end in `later`.
pub open spec fn is_as_close<T>(later: System<T>, earlier: System<T>) -> bool {
    total_effort(later) == total_effort(earlier) && total_lag(later) == total_lag(earlier)
}

/// Whether the threads are closer to the end in `later`.
pub open spec fn is_closer<T>(later: System<T>, earlier: System<T>) -> bool {
    ||| total_effort(later) < total_effort(earlier)
    ||| total_effort(later) == total_effort(earlier) && total_lag(later) < total_lag(earlier)
}

/// Whether an exchange failed although the cell held the expected value.
pub open spec fn fails_for_no_reason<V>(access: Access<V>, reply: Reply<V>) -> bool {
    access matches Access::CompareExchangeWeak { current, .. } && reply == Reply::Refused(current)
}

/// Steps that a thread takes because an exchange failed for no reason.
pub open spec fn is_spurious<T>(s: System<T>, step: Step<T>) -> bool {
    match step {
        Step::LockWord { t, reply, .. } => s.threads[t].activity matches Activity::Locking(l)
            && l.asks() matches LockRequest::Word(access) && fails_for_no_reason(access, reply),
        Step::Enqueue { t, node, reply, .. } => s.threads[t].activity matches Activity::Locking(l)
            && fails_for_no_reason(enqueue_onto(l->state, node), reply),
        Step::UnlockWord { t, reply, .. } => s.threads[t].activity matches Activity::Unlocking(u)
            && u.asks() matches UnlockRequest::Word(access) && fails_for_no_reason(access, reply),
        Step::ParkCell { t, reply, .. } => s.threads[t].park.asks() matches ParkRequest::Cell(
            access,
        ) && fails_for_no_reason(access, reply),
        _ => false,
    }
}

/// Steps that start a call: `lock`, or a `try_lock` that succeeds.
pub open spec fn is_new_call<T>(step: Step<T>) -> bool {
    match step {
        Step::Arrive { .. } => true,
        Step::TryLock { reply, .. } => reply is Exchanged,
        _ => false,
    }
}

/// Steps that leave everything as it was: a `try_lock` that fails, what a thread does about its
/// parker while nobody has marked it as woken, waking up for no reason, and the use of the value
/// by its holder.
pub open spec fn is_idle<T>(s: System<T>, step: Step<T>) -> bool {
    match step {
        Step::TryLock { reply, .. } => reply is Refused,
        Step::WaitCell { t, .. } => s.threads[t].sleeps(),
        Step::WaitBlock { t } => s.threads[t].sleeps(),
        Step::FallAsleep { .. } => true,
        Step::WakeUp { .. } => true,
        Step::Read { .. } => true,
        Step::Write { .. } => true,
        _ => false,
    }
}

/// Steps in which a thread reads where the first node leads, knowing what the word says. It does
/// so each time before it tries to take that node off the queue.
pub open spec fn is_preparation<T>(s: System<T>, step: Step<T>) -> bool {
    &&& step matches Step::ReadNext { t, .. }
    &&& s.threads[t].activity matches Activity::Unlocking(u)
    &&& u matches UnlockState::QueueSeen { state }
    &&& state == s.word
}

/// Steps in which a thread tries an exchange.
pub open spec fn is_exchange<T>(s: System<T>, step: Step<T>) -> bool {
    match step {
        Step::LockWord { t, .. } => s.threads[t].activity matches Activity::Locking(l)
            && l.asks() matches LockRequest::Word(access) && access is CompareExchangeWeak,
        Step::Enqueue { .. } => true,
        Step::UnlockWord { t, .. } => s.threads[t].activity matches Activity::Unlocking(u)
            && u.asks() matches UnlockRequest::Word(access) && access is CompareExchangeWeak,
        Step::ParkCell { t, .. } => s.threads[t].park.asks() matches ParkRequest::Cell(access)
            && access is CompareExchangeWeak,
        _ => false,
    }
}

/// Whether the step brings the threads closer to the end.
pub open spec fn is_useful<T>(s: System<T>, step: Step<T>) -> bool {
    !is_new_call(step) && !is_spurious(s, step) && !is_idle(s, step) && !is_preparation(s, step)
}

pub(crate) proof fn lemma_sum_update(s: Seq<nat>, i: int, v: nat)
    requires
        0 <= i < s.len(),
    ensures
        sum(s.update(i, v)) + s[i] == sum(s) + v,
    decreases s.len(),
{
    let s2 = s.update(i, v);
    if i == s.len() - 1 {
        assert(s2.drop_last() =~= s.drop_last());
    } else {
        lemma_sum_update(s.drop_last(), i, v);
        assert(s2.drop_last() =~= s.drop_last().update(i, v));
    }
}

/// When one thread changes, so does the sum of what all have to do.
proof fn lemma_effort_of_one<T>(s: System<T>, s2: System<T>, t: int)
    requires
        s.has(t),
        s2.threads == s.threads.update(t, s2.threads[t]),
    ensures
        total_effort(s2) + effort(s.threads[t]) == total_effort(s) + effort(s2.threads[t]),
        s2.word == s.word ==> total_lag(s2) + lag(s.threads[t], s.word) == total_lag(s) + lag(
            s2.threads[t],
            s.word,
        ),
        total_unread(s2) + unread(s.threads[t]) == total_unread(s) + unread(s2.threads[t]),
{
    let r = Seq::new(s.threads.len(), |t: int| unread(s.threads[t]));
    let r2 = Seq::new(s2.threads.len(), |t: int| unread(s2.threads[t]));
    lemma_sum_update(r, t, unread(s2.threads[t]));
    assert(r2 =~= r.update(t, unread(s2.threads[t])));
    let e = Seq::new(s.threads.len(), |t: int| effort(s.threads[t]));
    let e2 = Seq::new(s2.threads.len(), |t: int| effort(s2.threads[t]));
    lemma_sum_update(e, t, effort(s2.threads[t]));
    assert(e2 =~= e.update(t, effort(s2.threads[t])));
    if s2.word == s.word {
        let l = Seq::new(s.threads.len(), |t: int| lag(s.threads[t], s.word));
        let l2 = Seq::new(s2.threads.len(), |t: int| lag(s2.threads[t], s2.word));
        lemma_sum_update(l, t, lag(s2.threads[t], s.word));
        assert(l2 =~= l.update(t, lag(s2.threads[t], s.word)));
    }
}

proof fn lemma_one_thread<T>(s: System<T>, h: Holders, step: Step<T>)
    requires
        is_sound(s, h),
        s.allows(step),
        !(step is UnparkCell),
        !(step is UnparkWake),
        !is_new_call(step),
    ensures
        is_closer(s.take(step), s) || is_as_close(s.take(step), s),
        is_useful(s, step) ==> is_closer(s.take(step), s),
        is_preparation(s, step) ==> total_unread(s.take(step)) < total_unread(s),
{
    let s2 = s.take(step);
    let t = taken_by(step);
    assert(s.has(t));
    assert(s2.threads =~= s.threads.update(t, s2.threads[t]));
    lemma_effort_of_one(s, s2, t);
    if s.threads[t].waits() {
        assert(parker_fits(s.threads[t]));
    }
}

/// Steps that change two threads: one that unparks, and the one that it unparks.
proof fn lemma_two_threads<T>(s: System<T>, h: Holders, step: Step<T>)
    requires
        is_sound(s, h),
        s.allows(step),
        step is UnparkCell || step is UnparkWake,
    ensures
        total_effort(s.take(step)) < total_effort(s),
{
    let s2 = s.take(step);
    let t = taken_by(step);
    assert(s.has(t));
    let target = match step {
        Step::UnparkCell { target, .. } => Some(target),
        Step::UnparkWake { target, .. } => target,
        _ => None,
    };
    match target {
        Some(v) => {
            assert(s.has(v));
            let middle = s.with(v, s2.threads[v]);
            assert(middle.threads =~= s.threads.update(v, middle.threads[v]));
            assert(s2.threads =~= middle.threads.update(t, s2.threads[t]));
            lemma_effort_of_one(s, middle, v);
            lemma_effort_of_one(middle, s2, t);
        },
        None => {
            assert(s2.threads =~= s.threads.update(t, s2.threads[t]));
            lemma_effort_of_one(s, s2, t);
        },
    }
}

proof fn lemma_cost<T>(s: System<T>, h: Holders, step: Step<T>)
    requires
        is_sound(s, h),
        s.allows(step),
        !is_new_call(step),
    ensures
        is_closer(s.take(step), s) || is_as_close(s.take(step), s),
        is_useful(s, step) ==> is_closer(s.take(step), s),
        is_preparation(s, step) ==> total_unread(s.take(step)) < total_unread(s),
{
    if step is UnparkCell || step is UnparkWake {
        lemma_two_threads(s, h, step);
    } else {
        lemma_one_thread(s, h, step);
    }
}

/// Every step counts: only new calls take the threads further from the end, and every useful step
/// brings them closer to it.
pub proof fn law_every_step_counts<T>(systems: Seq<System<T>>, steps: Seq<Step<T>>, i: int)
    requires
        is_run(systems, steps),
        0 <= i < steps.len(),
        !is_new_call(steps[i]),
    ensures
        is_closer(systems[i + 1], systems[i]) || is_as_close(systems[i + 1], systems[i]),
        is_useful(systems[i], steps[i]) ==> is_closer(systems[i + 1], systems[i]),
{
    let h = lemma_run(systems, steps, i);
    assert(systems[i].allows(steps[i]));
    lemma_cost(systems[i], h, steps[i]);
}

/// Whether the step brings its thread on.
pub open spec fn is_progress<T>(s: System<T>, step: Step<T>) -> bool {
    is_useful(s, step) || is_preparation(s, step)
}

/// Some thread that waits with a node at this address.
spec fn waiter_at<T>(s: System<T>, node: usize) -> int {
    choose|u: int| #[trigger] s.has(u) && s.threads[u].sleeps() && s.threads[u].node == node
}

/// What an exchange does to a word and replies when it does not fail for no reason.
spec fn exchanged(word: usize, access: Access<usize>) -> (usize, Reply<usize>) {
    if word == access->current {
        (access->CompareExchangeWeak_new, Reply::Exchanged(word))
    } else {
        (word, Reply::Refused(word))
    }
}

/// A step that brings thread `t` on, if it is awake and busy.
spec fn good_step<T>(s: System<T>, t: int, address: usize) -> Step<T> {
    let thread = s.threads[t];
    let cell = thread.cell;
    match thread.activity {
        Activity::Idle => Step::Arrive { t },
        Activity::Locking(l) => match l.asks() {
            LockRequest::Word(Access::Load) => Step::LockWord {
                t,
                word: s.word,
                reply: Reply::Value(s.word),
            },
            LockRequest::Word(access) => Step::LockWord {
                t,
                word: exchanged(s.word, access).0,
                reply: exchanged(s.word, access).1,
            },
            LockRequest::Spin { .. } => Step::LockPause { t },
            LockRequest::Yield => Step::LockPause { t },
            LockRequest::Enqueue { .. } => Step::Enqueue {
                t,
                node: address,
                word: exchanged(s.word, enqueue_onto(l->state, address)).0,
                reply: exchanged(s.word, enqueue_onto(l->state, address)).1,
            },
            LockRequest::Park => match thread.park {
                ParkState::Start => Step::ParkCell { t, cell, reply: Reply::Value(cell) },
                ParkState::Claim => Step::ParkCell { t, cell, reply: Reply::Refused(cell) },
                ParkState::Waiting => match thread.wait {
                    WaitState::Recheck => Step::WaitCell { t, reply: Reply::Value(cell) },
                    WaitState::Blocked => Step::WaitBlock { t },
                    WaitState::Done => Step::WaitOver { t },
                },
                ParkState::Done => Step::ParkOver { t },
            },
            LockRequest::Nothing => Step::Depart { t },
        },
        Activity::Unlocking(u) => match u.asks() {
            UnlockRequest::FetchSub { .. } => Step::Release { t },
            UnlockRequest::Word(Access::Load) => Step::UnlockWord {
                t,
                word: s.word,
                reply: Reply::Value(s.word),
            },
            UnlockRequest::Word(access) => Step::UnlockWord {
                t,
                word: exchanged(s.word, access).0,
                reply: exchanged(s.word, access).1,
            },
            UnlockRequest::ReadNext { node } => Step::ReadNext { t, from: waiter_at(s, node) },
            UnlockRequest::Unpark { node } => match thread.unpark {
                UnparkState::Start => Step::UnparkCell {
                    t,
                    target: waiter_at(s, node),
                    cell: UNPARKED,
                    reply: Reply::Value(s.threads[waiter_at(s, node)].cell),
                },
                UnparkState::Waking => Step::UnparkWake { t, target: tenant(s, node, t) },
                UnparkState::Done => Step::UnparkOver { t },
            },
            UnlockRequest::Nothing => Step::Leave { t },
        },
    }
}

proof fn lemma_good_step<T>(s: System<T>, h: Holders, t: int, address: usize)
    requires
        is_sound(s, h),
        s.has(t),
        s.threads[t].activity != Activity::Idle,
        !s.threads[t].sleeps(),
        !s.threads[t].asleep,
        is_node_address(address),
        s.is_vacant(address, t),
    ensures
        s.allows(good_step(s, t, address)),
        taken_by(good_step(s, t, address)) == t,
        is_progress(s, good_step(s, t, address)),
{
    let thread = s.threads[t];
    if thread.waits() {
        assert(parker_fits(thread));
    }
    if thread.activity is Unlocking {
        let u = thread.activity->Unlocking_0;
        assert(popper_fits(s, h.queue, u));
        if u.asks() is ReadNext {
            let state = u->QueueSeen_state;
            let k = choose|k: int| queued_at(s, h.queue, k, head_of(state));
            assert(s.has(h.queue[k]));
        }
        if u is Waking && thread.unpark is Start {
            assert(thread.wakes(u->Waking_node));
        }
    }
}

/// A thread that is awake and busy can always do something that brings it on.
pub proof fn law_awake_thread_can_progress<T>(
    systems: Seq<System<T>>,
    steps: Seq<Step<T>>,
    i: int,
    t: int,
    address: usize,
)
    requires
        is_run(systems, steps),
        0 <= i < systems.len(),
        systems[i].has(t),
        systems[i].threads[t].activity != Activity::Idle,
        !systems[i].threads[t].sleeps(),
        !systems[i].threads[t].asleep,
        is_node_address(address),
        systems[i].is_vacant(address, t),
    ensures
        exists|step: Step<T>| #[trigger]
            systems[i].allows(step) && taken_by(step) == t && is_progress(systems[i], step),
{
    let h = lemma_run(systems, steps, i);
    lemma_good_step(systems[i], h, t, address);
    assert(systems[i].allows(good_step(systems[i], t, address)));
}

/// Whether every thread is through.
pub open spec fn all_idle<T>(s: System<T>) -> bool {
    forall|t: int| #[trigger] s.has(t) ==> s.threads[t].activity == Activity::Idle
}

/// Whether no node that others may know of lives at this address.
pub open spec fn is_free<T>(s: System<T>, address: usize) -> bool {
    forall|u: int| #[trigger]
        s.has(u) && s.threads[u].waits() ==> s.threads[u].node != address
}

/// While not every thread is through, some thread can do something that brings all closer to the
/// end and needs no further node.
proof fn lemma_next_step<T>(s: System<T>, h: Holders, address: usize) -> (step: Step<T>)
    requires
        is_sound(s, h),
        !all_idle(s),
        is_node_address(address),
        is_free(s, address),
    ensures
        s.allows(step),
        is_progress(s, step),
        is_free(s.take(step), address),
{
    let t = if exists|t: int| #[trigger] s.has(t) && s.threads[t].activity is Unlocking {
        choose|t: int| #[trigger] s.has(t) && s.threads[t].activity is Unlocking
    } else if exists|t: int| #[trigger] s.has(t) && s.threads[t].holds() {
        choose|t: int| #[trigger] s.has(t) && s.threads[t].holds()
    } else {
        let busy = choose|t: int| #[trigger] s.has(t) && s.threads[t].activity != Activity::Idle;
        lemma_somebody_is_awake(s, h, busy)
    };
    lemma_good_step(s, h, t, address);
    let step = good_step(s, t, address);
    let s2 = s.take(step);
    assert(forall|u: int| s2.has(u) == s.has(u));
    if h.owner is Some {
        assert(s.has(h.owner->0));
    }
    step
}

proof fn lemma_finish<T>(
    systems: Seq<System<T>>,
    steps: Seq<Step<T>>,
    h: Holders,
    address: usize,
) -> (rest: (Seq<System<T>>, Seq<Step<T>>))
    requires
        is_run(systems, steps),
        is_sound(systems.last(), h),
        is_node_address(address),
        is_free(systems.last(), address),
    ensures
        is_run(rest.0, rest.1),
        systems.is_prefix_of(rest.0),
        steps.is_prefix_of(rest.1),
        all_idle(rest.0.last()),
    decreases
            total_effort(systems.last()),
            total_lag(systems.last()),
            total_unread(systems.last()),
{
    let s = systems.last();
    if all_idle(s) {
        (systems, steps)
    } else {
        let step = lemma_next_step(s, h, address);
        lemma_cost(s, h, step);
        lemma_step(s, h, step);
        let systems2 = systems.push(s.take(step));
        let steps2 = steps.push(step);
        assert forall|i: int| 0 <= i < steps2.len() implies systems2[i].allows(
            #[trigger] steps2[i],
        ) && systems2[i + 1] == systems2[i].take(steps2[i]) by {
            if i < steps.len() {
                assert(steps2[i] == steps[i]);
            }
        }
        let rest = lemma_finish(systems2, steps2, hand_over(s, h, step), address);
        assert(systems.is_prefix_of(rest.0)) by {
            assert forall|i: int| 0 <= i < systems.len() implies systems[i] == rest.0[i] by {
                assert(systems2[i] == rest.0[i]);
            }
        }
        assert(steps.is_prefix_of(rest.1)) by {
            assert forall|i: int| 0 <= i < steps.len() implies steps[i] == rest.1[i] by {
                assert(steps2[i] == rest.1[i]);
            }
        }
        rest
    }
}

/// No run has reached a dead end: whatever happened so far, it can go on such that every call
/// returns, every guard is given back, and the word is what it was at the start.
pub proof fn law_every_run_can_end<T>(
    systems: Seq<System<T>>,
    steps: Seq<Step<T>>,
    address: usize,
)
    requires
        is_run(systems, steps),
        is_node_address(address),
        is_free(systems.last(), address),
    ensures
        exists|more_systems: Seq<System<T>>, more_steps: Seq<Step<T>>| #[trigger]
            is_run(more_systems, more_steps) && systems.is_prefix_of(more_systems)
                && steps.is_prefix_of(more_steps) && all_idle(more_systems.last())
                && more_systems.last().word == 0,
{
    let h = lemma_run(systems, steps, systems.len() - 1);
    let rest = lemma_finish(systems, steps, h, address);
    law_word_returns_to_zero(rest.0, rest.1, rest.0.len() - 1);
    assert(is_run(rest.0, rest.1));
}

/// Whether these systems follow on one another without end, from a mutex that nobody has used
/// yet, by these steps. Now and then nothing may happen.
pub open spec fn is_endless_run<T>(
    systems: spec_fn(nat) -> System<T>,
    steps: spec_fn(nat) -> Option<Step<T>>,
) -> bool {
    &&& systems(0).starts()
    &&& forall|i: nat| goes_to(systems(i), #[trigger] steps(i), systems(i + 1))
}

pub open spec fn goes_to<T>(s: System<T>, step: Option<Step<T>>, s2: System<T>) -> bool {
    match step {
        Some(step) => s.allows(step) && s2 == s.take(step),
        None => s2 == s,
    }
}

/// Whether the thread is in a call and not blocked in the kernel.
pub open spec fn is_running<T>(s: System<T>, t: int) -> bool {
    s.has(t) && s.threads[t].activity != Activity::Idle && !s.threads[t].asleep
}

/// Whether thread `t` takes a step.
pub open spec fn moves<T>(step: Option<Step<T>>, t: int) -> bool {
    step matches Some(step) && taken_by(step) == t && !(step is WakeUp)
}

/// Whether thread `t` holds the mutex.
pub open spec fn is_holding<T>(s: System<T>, t: int) -> bool {
    s.has(t) && s.threads[t].activity == Activity::Locking(LockState::Held)
}

/// Whether thread `t` starts to release the mutex.
pub open spec fn departs<T>(step: Option<Step<T>>, t: int) -> bool {
    step == Some(Step::<T>::Depart { t })
}

/// Whether an exchange of thread `t` fails for no reason.
pub open spec fn fails<T>(s: System<T>, step: Option<Step<T>>, t: int) -> bool {
    step matches Some(step) && taken_by(step) == t && is_spurious(s, step)
}

/// Whether an exchange of thread `t` does what it should: it takes place, or the cell has changed.
pub open spec fn exchanges<T>(s: System<T>, step: Option<Step<T>>, t: int) -> bool {
    step matches Some(step) && taken_by(step) == t && is_exchange(s, step) && !is_spurious(s, step)
}

/// Whether the scheduler is fair: a thread that is in a call and not blocked in the kernel sooner
/// or later takes a step.
pub open spec fn is_fair<T>(
    systems: spec_fn(nat) -> System<T>,
    steps: spec_fn(nat) -> Option<Step<T>>,
) -> bool {
    forall|i: nat, t: int| #[trigger]
        is_running(systems(i), t) ==> exists|j: nat| i <= j && #[trigger] moves(steps(j), t)
}

/// Whether every holder sooner or later gives its guard back.
pub open spec fn guards_are_dropped<T>(
    systems: spec_fn(nat) -> System<T>,
    steps: spec_fn(nat) -> Option<Step<T>>,
) -> bool {
    forall|i: nat, t: int| #[trigger]
        is_holding(systems(i), t) ==> exists|j: nat| i <= j && #[trigger] departs(steps(j), t)
}

/// Whether no thread's exchanges fail for no reason for ever: after one that does, one sooner or
/// later does not.
pub open spec fn exchanges_get_through<T>(
    systems: spec_fn(nat) -> System<T>,
    steps: spec_fn(nat) -> Option<Step<T>>,
) -> bool {
    forall|i: nat, t: int| #[trigger]
        fails(systems(i), steps(i), t) ==> exists|j: nat|
            i <= j && #[trigger] exchanges(systems(j), steps(j), t)
}

/// Whether no call begins from `start` on.
pub open spec fn calls_end<T>(steps: spec_fn(nat) -> Option<Step<T>>, start: nat) -> bool {
    forall|i: nat| start <= i ==> !begins(#[trigger] steps(i))
}

pub open spec fn begins<T>(step: Option<Step<T>>) -> bool {
    step matches Some(step) && is_new_call(step)
}

spec fn helps<T>(s: System<T>, step: Option<Step<T>>) -> bool {
    step matches Some(step) && is_useful(s, step)
}

/// Whether thread `t` is in a call, does not hold the mutex, and nothing keeps it from going on.
spec fn is_pressing<T>(s: System<T>, t: int) -> bool {
    is_running(s, t) && !s.threads[t].sleeps() && !is_holding(s, t)
}

spec fn is_popping<T>(s: System<T>, t: int) -> bool {
    &&& s.has(t)
    &&& s.threads[t].activity matches Activity::Unlocking(u)
    &&& u is Popping
}

proof fn lemma_endless_run<T>(
    systems: spec_fn(nat) -> System<T>,
    steps: spec_fn(nat) -> Option<Step<T>>,
    i: nat,
) -> (h: Holders)
    requires
        is_endless_run(systems, steps),
    ensures
        is_sound(systems(i), h),
    decreases i,
{
    if i == 0 {
        lemma_start(systems(0));
        Holders { queue: Seq::empty(), owner: None, popper: None }
    } else {
        let k = (i - 1) as nat;
        let h = lemma_endless_run(systems, steps, k);
        assert(goes_to(systems(k), steps(k), systems(k + 1)));
        match steps(k) {
            Some(step) => {
                lemma_step(systems(k), h, step);
                hand_over(systems(k), h, step)
            },
            None => h,
        }
    }
}

/// From `i` to `j` the threads get no further from the end.
proof fn lemma_closer_by<T>(
    systems: spec_fn(nat) -> System<T>,
    steps: spec_fn(nat) -> Option<Step<T>>,
    i: nat,
    j: nat,
)
    requires
        is_endless_run(systems, steps),
        calls_end(steps, i),
        i <= j,
    ensures
        is_closer(systems(j), systems(i)) || is_as_close(systems(j), systems(i)),
    decreases j - i,
{
    if i < j {
        let k = (j - 1) as nat;
        lemma_closer_by(systems, steps, i, k);
        let h = lemma_endless_run(systems, steps, k);
        assert(goes_to(systems(k), steps(k), systems(k + 1)));
        assert(!begins(steps(k)));
        if let Some(step) = steps(k) {
            lemma_cost(systems(k), h, step);
        }
    }
}

/// A step that is of no use keeps no thread from going on, and does not change what a thread is
/// about to exchange that does not take the step.
proof fn lemma_useless_step<T>(s: System<T>, h: Holders, step: Step<T>, t: int)
    requires
        is_sound(s, h),
        s.allows(step),
        !is_new_call(step),
        !is_useful(s, step),
    ensures
        is_pressing(s, t) ==> is_pressing(s.take(step), t),
        is_pressing(s, t) && is_popping(s, t) && taken_by(step) != t ==> is_popping(
            s.take(step),
            t,
        ),
{
    let s2 = s.take(step);
    let u = taken_by(step);
    assert(s.has(u));
    assert(s2.threads =~= s.threads.update(u, s2.threads[u]));
}

proof fn lemma_presses_on<T>(
    systems: spec_fn(nat) -> System<T>,
    steps: spec_fn(nat) -> Option<Step<T>>,
    i: nat,
    j: nat,
    t: int,
)
    requires
        is_endless_run(systems, steps),
        calls_end(steps, i),
        forall|k: nat| i <= k ==> !(#[trigger] helps(systems(k), steps(k))),
        is_pressing(systems(i), t),
        i <= j,
    ensures
        is_pressing(systems(j), t),
    decreases j - i,
{
    if i < j {
        let k = (j - 1) as nat;
        lemma_presses_on(systems, steps, i, k, t);
        let h = lemma_endless_run(systems, steps, k);
        assert(goes_to(systems(k), steps(k), systems(k + 1)));
        assert(!begins(steps(k)));
        assert(!helps(systems(k), steps(k)));
        if let Some(step) = steps(k) {
            lemma_useless_step(systems(k), h, step, t);
        }
    }
}

/// The next step of a thread that is about to take a node off the queue, no later than `j`.
proof fn lemma_next_exchange<T>(
    systems: spec_fn(nat) -> System<T>,
    steps: spec_fn(nat) -> Option<Step<T>>,
    i: nat,
    j: nat,
    t: int,
) -> (k: nat)
    requires
        is_endless_run(systems, steps),
        calls_end(steps, i),
        forall|k: nat| i <= k ==> !(#[trigger] helps(systems(k), steps(k))),
        is_pressing(systems(i), t),
        is_popping(systems(i), t),
        i <= j,
        moves(steps(j), t),
    ensures
        i <= k,
        is_pressing(systems(k), t),
        is_popping(systems(k), t),
        moves(steps(k), t),
    decreases j - i,
{
    if moves(steps(i), t) {
        i
    } else {
        let h = lemma_endless_run(systems, steps, i);
        assert(goes_to(systems(i), steps(i), systems(i + 1)));
        assert(!begins(steps(i)));
        assert(!helps(systems(i), steps(i)));
        if let Some(step) = steps(i) {
            lemma_useless_step(systems(i), h, step, t);
        }
        lemma_next_exchange(systems, steps, i + 1, j, t)
    }
}

/// A step of a thread that nothing keeps from going on is useful, or one of its exchanges fails
/// for no reason, or it is about to try one.
proof fn lemma_pressing_step<T>(s: System<T>, h: Holders, step: Step<T>, t: int)
    requires
        is_sound(s, h),
        s.allows(step),
        is_pressing(s, t),
        taken_by(step) == t,
        !(step is WakeUp),
    ensures
        is_useful(s, step) || is_spurious(s, step) || (is_preparation(s, step) && is_popping(
            s.take(step),
            t,
        )),
        is_popping(s, t) ==> is_useful(s, step) || is_spurious(s, step),
{
}

/// While not every thread is through, something useful happens sooner or later.
proof fn lemma_something_helps<T>(
    systems: spec_fn(nat) -> System<T>,
    steps: spec_fn(nat) -> Option<Step<T>>,
    i: nat,
) -> (j: nat)
    requires
        is_endless_run(systems, steps),
        is_fair(systems, steps),
        guards_are_dropped(systems, steps),
        exchanges_get_through(systems, steps),
        calls_end(steps, i),
        !all_idle(systems(i)),
    ensures
        i <= j,
        helps(systems(j), steps(j)),
{
    let s = systems(i);
    if !(exists|j: nat| i <= j && #[trigger] helps(systems(j), steps(j))) {
        let h = lemma_endless_run(systems, steps, i);
        let busy = choose|t: int| #[trigger] s.has(t) && s.threads[t].activity != Activity::Idle;
        let t = lemma_somebody_is_awake(s, h, busy);
        if is_holding(systems(i), t) {
            let j = choose|j: nat| i <= j && #[trigger] departs(steps(j), t);
            assert(helps(systems(j), steps(j)));
        } else {
            assert(is_running(systems(i), t));
            let j = choose|j: nat| i <= j && #[trigger] moves(steps(j), t);
            lemma_presses_on(systems, steps, i, j, t);
            lemma_no_use(systems, steps, j, t);
            lemma_presses_on(systems, steps, i, j + 1, t);
            assert(is_running(systems(j + 1), t));
            let k = choose|k: nat| j + 1 <= k && #[trigger] moves(steps(k), t);
            let next = lemma_next_exchange(systems, steps, j + 1, k, t);
            lemma_no_use(systems, steps, next, t);
        }
    }
    choose|j: nat| i <= j && #[trigger] helps(systems(j), steps(j))
}

/// A thread that nothing keeps from going on, and whose step was of no use, was only preparing an
/// exchange.
proof fn lemma_no_use<T>(
    systems: spec_fn(nat) -> System<T>,
    steps: spec_fn(nat) -> Option<Step<T>>,
    i: nat,
    t: int,
)
    requires
        is_endless_run(systems, steps),
        exchanges_get_through(systems, steps),
        calls_end(steps, i),
        forall|k: nat| i <= k ==> !(#[trigger] helps(systems(k), steps(k))),
        is_pressing(systems(i), t),
        moves(steps(i), t),
    ensures
        is_popping(systems(i + 1), t),
        !is_popping(systems(i), t),
{
    let h = lemma_endless_run(systems, steps, i);
    assert(goes_to(systems(i), steps(i), systems(i + 1)));
    assert(!begins(steps(i)));
    assert(!helps(systems(i), steps(i)));
    let step = steps(i)->0;
    lemma_pressing_step(systems(i), h, step, t);
    if is_spurious(systems(i), step) {
        assert(fails(systems(i), steps(i), t));
        let k = choose|k: nat| i <= k && #[trigger] exchanges(systems(k), steps(k), t);
        assert(!begins(steps(k)));
        assert(helps(systems(k), steps(k)));
    }
}

proof fn lemma_ends<T>(
    systems: spec_fn(nat) -> System<T>,
    steps: spec_fn(nat) -> Option<Step<T>>,
    i: nat,
) -> (end: nat)
    requires
        is_endless_run(systems, steps),
        is_fair(systems, steps),
        guards_are_dropped(systems, steps),
        exchanges_get_through(systems, steps),
        calls_end(steps, i),
    ensures
        i <= end,
        all_idle(systems(end)),
    decreases total_effort(systems(i)), total_lag(systems(i)),
{
    if all_idle(systems(i)) {
        i
    } else {
        let j = lemma_something_helps(systems, steps, i);
        lemma_closer_by(systems, steps, i, j);
        let h = lemma_endless_run(systems, steps, j);
        assert(goes_to(systems(j), steps(j), systems(j + 1)));
        lemma_cost(systems(j), h, steps(j)->0);
        lemma_ends(systems, steps, j + 1)
    }
}

/// Every call returns: given a fair scheduler, which need not run a thread that is blocked in the
/// kernel, holders that give their guards back, and exchanges that do not fail for no reason for
/// ever, there comes a time after the last call began when every thread is through and the word is
/// what it was at the start.
pub proof fn law_every_call_returns<T>(
    systems: spec_fn(nat) -> System<T>,
    steps: spec_fn(nat) -> Option<Step<T>>,
    start: nat,
)
    requires
        is_endless_run(systems, steps),
        is_fair(systems, steps),
        guards_are_dropped(systems, steps),
        exchanges_get_through(systems, steps),
        calls_end(steps, start),
    ensures
        exists|end: nat| start <= end && #[trigger] all_idle(systems(end)) && systems(end).word == 0,
{
    let end = lemma_ends(systems, steps, start);
    let h = lemma_endless_run(systems, steps, end);
    lemma_idle_word(systems(end), h);
    assert(all_idle(systems(end)));
}

} // verus!
