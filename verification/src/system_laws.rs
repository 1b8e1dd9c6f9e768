//! What holds of every run of the threads that share a mutex.

use crate::access::{Access, Reply};
use crate::lock::{acquire_from, LockRequest, LockState, SPIN_CPU, SPIN_THREAD};
use crate::parker::{ParkState, UnparkState, WaitState, EMPTY, PARKED, UNPARKED};
use crate::system::{decremented, is_run, taken_by, Activity, Step, System, Thread};
use crate::unlock::{calls_for_wakeup, UnlockRequest, UnlockState};
use crate::word::{
    head_of, is_locked, is_node_address, is_queue_locked, law_pack_unpack, law_unpack_pack, pack,
};
use vstd::prelude::*;

verus! {

/// Who holds what: the threads on the queue, first waiter first, the thread that holds the
/// mutex, and the thread that holds the queue.
pub ghost struct Holders {
    pub queue: Seq<int>,
    pub owner: Option<int>,
    pub popper: Option<int>,
}

/// Whether the thread at this place of the queue has its node there.
pub open spec fn queued_at<T>(s: System<T>, queue: Seq<int>, i: int, node: usize) -> bool {
    0 <= i < queue.len() && s.threads[queue[i]].node == node
}

/// The address of the node at this place of the queue, 0 behind its end.
pub open spec fn node_at<T>(s: System<T>, queue: Seq<int>, i: int) -> usize {
    if 0 <= i < queue.len() {
        s.threads[queue[i]].node
    } else {
        0
    }
}

/// The mutex bit is set while exactly one thread holds the mutex.
pub open spec fn owner_is<T>(s: System<T>, owner: Option<int>) -> bool {
    &&& is_locked(s.word) == (owner is Some)
    &&& owner matches Some(o) ==> s.has(o)
    &&& forall|t: int| #[trigger] s.has(t) ==> (s.threads[t].holds() <==> owner == Some(t))
}

/// The queue bit is set while exactly one thread holds the queue.
pub open spec fn popper_is<T>(s: System<T>, popper: Option<int>) -> bool {
    &&& is_queue_locked(s.word) == (popper is Some)
    &&& popper matches Some(p) ==> s.has(p)
    &&& forall|t: int| #[trigger] s.has(t) ==> (s.threads[t].pops() <==> popper == Some(t))
}

/// The word leads to the first waiter's node, each node to the next, the last one nowhere. All
/// belong to threads that were not woken yet.
pub open spec fn queue_is<T>(s: System<T>, queue: Seq<int>) -> bool {
    &&& head_of(s.word) == node_at(s, queue, 0)
    &&& forall|i: int|
        0 <= i < queue.len() ==> s.has(#[trigger] queue[i]) && s.threads[queue[i]].sleeps()
            && s.threads[queue[i]].next == node_at(s, queue, i + 1)
    &&& forall|i: int, j: int|
        0 <= i < j < queue.len() ==> #[trigger] queue[i] != #[trigger] queue[j]
}

/// No two nodes that others may know of share an address.
pub open spec fn nodes_differ<T>(s: System<T>) -> bool {
    &&& forall|t: int| #[trigger]
        s.has(t) && s.threads[t].waits() ==> is_node_address(s.threads[t].node)
    &&& forall|t: int, u: int| #[trigger]
        s.has(t) && #[trigger] s.has(u) && t != u && s.threads[t].waits() && s.threads[u].waits()
            ==> s.threads[t].node != s.threads[u].node
}

/// A thread that sleeps is on the queue, or about to be woken by exactly one other.
pub open spec fn sleepers_are_known<T>(s: System<T>, queue: Seq<int>) -> bool {
    &&& forall|t: int| #[trigger]
        s.has(t) && s.threads[t].sleeps() ==> queue.contains(t) || exists|u: int| #[trigger]
            s.has(u) && s.threads[u].wakes(s.threads[t].node)
    &&& forall|u: int, node: usize| #[trigger]
        s.has(u) && #[trigger] s.threads[u].wakes(node) ==> exists|t: int| #[trigger]
            s.has(t) && s.threads[t].sleeps() && s.threads[t].node == node && !queue.contains(t)
    &&& forall|u: int, v: int, node: usize| #[trigger]
        s.has(u) && #[trigger] s.has(v) && u != v && #[trigger] s.threads[u].wakes(node)
            ==> !s.threads[v].wakes(node)
}

/// How far a waiting thread has come fits what is in its cell.
pub open spec fn parker_fits<T>(thread: Thread<T>) -> bool {
    &&& thread.cell == EMPTY || thread.cell == PARKED || thread.cell == UNPARKED
    &&& match thread.park {
        ParkState::Start | ParkState::Claim => thread.cell != PARKED && thread.wait is Recheck,
        ParkState::Waiting => thread.cell != EMPTY && (thread.wait is Done ==> thread.cell
            == UNPARKED),
        ParkState::Done => thread.cell == UNPARKED,
    }
}

/// What a thread that holds the queue has seen still leads to nodes on the queue.
pub open spec fn popper_fits<T>(s: System<T>, queue: Seq<int>, u: UnlockState) -> bool {
    match u {
        UnlockState::QueueLocked => queue.len() > 0,
        UnlockState::QueueSeen { state } => exists|i: int|
            queued_at(s, queue, i, head_of(state)),
        UnlockState::Popping { state, next } => !is_locked(state) && exists|i: int| #[trigger]
            queued_at(s, queue, i, head_of(state)) && next == s.threads[queue[i]].next,
        UnlockState::Seen { state } => calls_for_wakeup(state),
        _ => true,
    }
}

/// What each thread has come to know still holds.
pub open spec fn threads_fit<T>(s: System<T>, queue: Seq<int>) -> bool {
    &&& forall|t: int| #[trigger] s.has(t) && s.threads[t].waits() ==> parker_fits(s.threads[t])
    &&& forall|t: int| #[trigger]
        s.has(t) ==> (s.threads[t].activity matches Activity::Unlocking(u) ==> popper_fits(
            s,
            queue,
            u,
        ))
    &&& forall|t: int| #[trigger]
        s.has(t) && s.threads[t].holds() ==> (s.threads[t].seen matches Some(v) ==> v == s.value)
}

/// Whoever waits does not wait in vain: the mutex is held, or the queue is, or some thread that
/// need not be marked as woken first will look after the queue or try for the mutex.
pub open spec fn is_looked_after<T>(s: System<T>, queue: Seq<int>) -> bool {
    queue.len() > 0 ==> is_locked(s.word) || is_queue_locked(s.word) || exists|t: int| #[trigger]
        s.has(t) && s.threads[t].on_duty()
}

/// Whether the thread has marked the parker at this address and is about to wake whoever is blocked
/// there.
pub open spec fn rouses<T>(thread: Thread<T>, node: usize) -> bool {
    thread.activity == Activity::Unlocking(UnlockState::Waking { node }) && thread.unpark is Waking
}

/// A thread sleeps in the kernel only while it waits, and if it was marked as woken, another one
/// is about to wake it.
pub open spec fn sleepers_are_roused<T>(s: System<T>) -> bool {
    forall|t: int| #[trigger]
        s.has(t) && s.threads[t].asleep ==> {
            &&& s.threads[t].waits()
            &&& s.threads[t].park is Waiting
            &&& s.threads[t].wait is Blocked
            &&& s.threads[t].cell == UNPARKED ==> exists|u: int| #[trigger]
                s.has(u) && rouses(s.threads[u], s.threads[t].node)
        }
}

/// All of it.
pub open spec fn is_sound<T>(s: System<T>, h: Holders) -> bool {
    &&& owner_is(s, h.owner)
    &&& popper_is(s, h.popper)
    &&& queue_is(s, h.queue)
    &&& nodes_differ(s)
    &&& sleepers_are_known(s, h.queue)
    &&& threads_fit(s, h.queue)
    &&& sleepers_are_roused(s)
    &&& is_looked_after(s, h.queue)
}

/// Who holds what once the step is taken.
pub open spec fn hand_over<T>(s: System<T>, h: Holders, step: Step<T>) -> Holders {
    let s2 = s.take(step);
    match step {
        Step::TryLock { t, .. } | Step::LockWord { t, .. } => {
            if s2.threads[t].holds() {
                Holders { owner: Some(t), ..h }
            } else {
                h
            }
        },
        Step::Enqueue { t, .. } => {
            if s2.threads[t].waits() {
                Holders { queue: seq![t] + h.queue, ..h }
            } else {
                h
            }
        },
        Step::Release { t } => Holders { owner: None, ..h },
        Step::UnlockWord { t, .. } => {
            if s2.threads[t].pops() {
                Holders { popper: Some(t), ..h }
            } else if s.threads[t].pops() {
                Holders {
                    popper: None,
                    queue: if s2.threads[t].activity->Unlocking_0 is Waking {
                        h.queue.drop_first()
                    } else {
                        h.queue
                    },
                    ..h
                }
            } else {
                h
            }
        },
        _ => h,
    }
}

pub(crate) proof fn lemma_start<T>(s: System<T>)
    requires
        s.starts(),
    ensures
        is_sound(s, Holders { queue: Seq::empty(), owner: None, popper: None }),
{
}

/// What a thread has come to know of the nodes on the queue still holds when others join in
/// front.
proof fn lemma_popper_fits_keeps<T>(
    s: System<T>,
    s2: System<T>,
    queue: Seq<int>,
    queue2: Seq<int>,
    u: UnlockState,
)
    requires
        popper_fits(s, queue, u),
        queue2.len() >= queue.len(),
        forall|i: int|
            0 <= i < queue.len() ==> {
                &&& queue2[i + queue2.len() - queue.len()] == #[trigger] queue[i]
                &&& s2.threads[queue[i]].node == s.threads[queue[i]].node
                &&& s2.threads[queue[i]].next == s.threads[queue[i]].next
            },
    ensures
        popper_fits(s2, queue2, u),
{
    let shift = queue2.len() - queue.len();
    match u {
        UnlockState::QueueSeen { state } => {
            let i = choose|i: int| queued_at(s, queue, i, head_of(state));
            assert(queued_at(s2, queue2, i + shift, head_of(state)));
        },
        UnlockState::Popping { state, next } => {
            let i = choose|i: int| #[trigger]
                queued_at(s, queue, i, head_of(state)) && next == s.threads[queue[i]].next;
            assert(queued_at(s2, queue2, i + shift, head_of(state)));
        },
        _ => {},
    }
}

/// The threads other than `t` know what they knew when others join the queue in front.
proof fn lemma_others_fit<T>(
    s: System<T>,
    s2: System<T>,
    queue: Seq<int>,
    queue2: Seq<int>,
    t: int,
)
    requires
        threads_fit(s, queue),
        s2.threads.len() == s.threads.len(),
        forall|u: int| #[trigger]
            s.has(u) && u != t ==> s2.threads[u].activity == s.threads[u].activity,
        queue2.len() >= queue.len(),
        forall|i: int|
            0 <= i < queue.len() ==> {
                &&& queue2[i + queue2.len() - queue.len()] == #[trigger] queue[i]
                &&& s2.threads[queue[i]].node == s.threads[queue[i]].node
                &&& s2.threads[queue[i]].next == s.threads[queue[i]].next
            },
    ensures
        forall|u: int| #[trigger]
            s2.has(u) && u != t ==> (s2.threads[u].activity matches Activity::Unlocking(k)
                ==> popper_fits(s2, queue2, k)),
{
    assert forall|u: int| #[trigger]
        s2.has(u) && u != t && s2.threads[u].activity is Unlocking implies popper_fits(
        s2,
        queue2,
        s2.threads[u].activity->Unlocking_0,
    ) by {
        assert(s.has(u));
        lemma_popper_fits_keeps(s, s2, queue, queue2, s.threads[u].activity->Unlocking_0);
    }
}

/// Steps in which a thread only does something for itself.
spec fn is_quiet<T>(step: Step<T>) -> bool {
    match step {
        Step::Arrive { .. } | Step::LockPause { .. } | Step::ParkCell { .. } => true,
        Step::WaitCell { .. } | Step::WaitBlock { .. } | Step::WaitOver { .. } => true,
        Step::ParkOver { .. } | Step::Read { .. } | Step::Depart { .. } => true,
        Step::FallAsleep { .. } | Step::WakeUp { .. } => true,
        Step::UnparkOver { .. } | Step::Leave { .. } => true,
        _ => false,
    }
}

proof fn lemma_quiet<T>(s: System<T>, h: Holders, step: Step<T>)
    requires
        is_sound(s, h),
        s.allows(step),
        is_quiet(step),
    ensures
        is_sound(s.take(step), hand_over(s, h, step)),
{
    let s2 = s.take(step);
    let t = taken_by(step);
    assert(forall|t: int| s2.has(t) == s.has(t));
    lemma_others_fit(s, s2, h.queue, h.queue, t);
    assert(s.has(t));
}

/// Setting or clearing one flag of a word leaves the rest of it alone.
proof fn lemma_flags(word: usize)
    ensures
        ({
            let taken = pack(true, is_queue_locked(word), head_of(word)) as usize;
            &&& is_locked(taken)
            &&& is_queue_locked(taken) == is_queue_locked(word)
            &&& head_of(taken) == head_of(word)
        }),
        ({
            let taken = pack(is_locked(word), true, head_of(word)) as usize;
            &&& is_locked(taken) == is_locked(word)
            &&& is_queue_locked(taken)
            &&& head_of(taken) == head_of(word)
        }),
        ({
            let freed = pack(is_locked(word), false, head_of(word)) as usize;
            &&& is_locked(freed) == is_locked(word)
            &&& !is_queue_locked(freed)
            &&& head_of(freed) == head_of(word)
        }),
        is_locked(word) ==> ({
            let freed = (word - 1) as usize;
            &&& !is_locked(freed)
            &&& is_queue_locked(freed) == is_queue_locked(word)
            &&& head_of(freed) == head_of(word)
        }),
{
    law_pack_unpack(word);
    law_unpack_pack(true, is_queue_locked(word), head_of(word));
    law_unpack_pack(is_locked(word), true, head_of(word));
    law_unpack_pack(is_locked(word), false, head_of(word));
    law_unpack_pack(false, is_queue_locked(word), head_of(word));
}

/// A thread that accesses the word to take the mutex.
proof fn lemma_lock_word<T>(s: System<T>, h: Holders, step: Step<T>)
    requires
        is_sound(s, h),
        s.allows(step),
        step is LockWord || step is TryLock,
    ensures
        is_sound(s.take(step), hand_over(s, h, step)),
{
    let s2 = s.take(step);
    let t = taken_by(step);
    assert(forall|t: int| s2.has(t) == s.has(t));
    assert(s.has(t));
    lemma_flags(s.word);
    lemma_flags(0);
    lemma_others_fit(s, s2, h.queue, h.queue, t);
}

/// A thread that writes the value of the mutex that it holds.
proof fn lemma_write<T>(s: System<T>, h: Holders, t: int, value: T)
    requires
        is_sound(s, h),
        s.allows(Step::Write { t, value }),
    ensures
        is_sound(s.take(Step::Write { t, value }), hand_over(s, h, Step::Write { t, value })),
{
    let s2 = s.take(Step::Write { t, value });
    assert(forall|t: int| s2.has(t) == s.has(t));
    assert(s.has(t));
    lemma_others_fit(s, s2, h.queue, h.queue, t);
}

/// A thread that lets the mutex go.
proof fn lemma_release<T>(s: System<T>, h: Holders, t: int)
    requires
        is_sound(s, h),
        s.allows(Step::Release { t }),
    ensures
        is_sound(s.take(Step::Release { t }), hand_over(s, h, Step::Release { t })),
{
    let s2 = s.take(Step::Release { t });
    assert(forall|t: int| s2.has(t) == s.has(t));
    assert(s.has(t));
    lemma_flags(s.word);
    lemma_others_fit(s, s2, h.queue, h.queue, t);
}

/// A thread that tries to put its node on the queue.
proof fn lemma_enqueue<T>(
    s: System<T>,
    h: Holders,
    t: int,
    node: usize,
    word: usize,
    reply: Reply<usize>,
)
    requires
        is_sound(s, h),
        s.allows(Step::Enqueue { t, node, word, reply }),
    ensures
        is_sound(
            s.take(Step::Enqueue { t, node, word, reply }),
            hand_over(s, h, Step::Enqueue { t, node, word, reply }),
        ),
{
    let step = Step::Enqueue { t, node, word, reply };
    let s2 = s.take(step);
    let queue2 = hand_over(s, h, step).queue;
    assert(forall|t: int| s2.has(t) == s.has(t));
    assert(s.has(t));
    law_unpack_pack(is_locked(s.word), is_queue_locked(s.word), node);
    assert(!h.queue.contains(t));
    lemma_others_fit(s, s2, h.queue, queue2, t);
    if s2.threads[t].waits() {
        assert(queue2[0] == t);
        assert(queue_is(s2, queue2));
        assert(queue2.contains(t));
        assert forall|u: int| h.queue.contains(u) implies queue2.contains(u) by {
            let i = h.queue.index_of(u);
            assert(queue2[i + 1] == u);
        }
        assert forall|u: int| queue2.contains(u) && u != t implies h.queue.contains(u) by {
            let i = queue2.index_of(u);
            assert(h.queue[i - 1] == u);
        }
    }
}

/// A thread that reads where the first node leads.
proof fn lemma_read_next<T>(s: System<T>, h: Holders, t: int, from: int)
    requires
        is_sound(s, h),
        s.allows(Step::ReadNext { t, from }),
    ensures
        is_sound(s.take(Step::ReadNext { t, from }), hand_over(s, h, Step::ReadNext { t, from })),
{
    let s2 = s.take(Step::ReadNext { t, from });
    assert(forall|t: int| s2.has(t) == s.has(t));
    assert(s.has(t));
    lemma_others_fit(s, s2, h.queue, h.queue, t);
    let state = s.threads[t].activity->Unlocking_0->QueueSeen_state;
    let i = choose|i: int| queued_at(s, h.queue, i, head_of(state));
    assert(s.has(h.queue[i]));
    assert(queued_at(s2, h.queue, i, head_of(state)));
}

/// A thread that unparks another.
proof fn lemma_unpark_cell<T>(
    s: System<T>,
    h: Holders,
    t: int,
    target: int,
    cell: i32,
    reply: Reply<i32>,
)
    requires
        is_sound(s, h),
        s.allows(Step::UnparkCell { t, target, cell, reply }),
    ensures
        is_sound(
            s.take(Step::UnparkCell { t, target, cell, reply }),
            hand_over(s, h, Step::UnparkCell { t, target, cell, reply }),
        ),
{
    let s2 = s.take(Step::UnparkCell { t, target, cell, reply });
    assert(forall|t: int| s2.has(t) == s.has(t));
    assert(s.has(t));
    assert(s.has(target));
    assert(!h.queue.contains(target));
    lemma_others_fit(s, s2, h.queue, h.queue, t);
}

/// A thread that wakes whoever is blocked on the parker that it marked.
proof fn lemma_unpark_wake<T>(s: System<T>, h: Holders, t: int, target: Option<int>)
    requires
        is_sound(s, h),
        s.allows(Step::UnparkWake { t, target }),
    ensures
        is_sound(
            s.take(Step::UnparkWake { t, target }),
            hand_over(s, h, Step::UnparkWake { t, target }),
        ),
{
    let s2 = s.take(Step::UnparkWake { t, target });
    assert(forall|t: int| s2.has(t) == s.has(t));
    assert(s.has(t));
    if let Some(v) = target {
        assert(s.has(v));
    }
    lemma_others_fit(s, s2, h.queue, h.queue, t);
}

/// A thread that accesses the word after it let the mutex go.
proof fn lemma_unlock_word<T>(
    s: System<T>,
    h: Holders,
    t: int,
    word: usize,
    reply: Reply<usize>,
)
    requires
        is_sound(s, h),
        s.allows(Step::UnlockWord { t, word, reply }),
    ensures
        is_sound(
            s.take(Step::UnlockWord { t, word, reply }),
            hand_over(s, h, Step::UnlockWord { t, word, reply }),
        ),
{
    let step = Step::UnlockWord { t, word, reply };
    let s2 = s.take(step);
    assert(forall|t: int| s2.has(t) == s.has(t));
    assert(s.has(t));
    lemma_flags(s.word);
    let u = s.threads[t].activity->Unlocking_0;
    if u is Popping && reply is Exchanged {
        lemma_pop(s, h, t, word, reply);
    } else {
        lemma_others_fit(s, s2, h.queue, h.queue, t);
        assert(popper_fits(s, h.queue, u));
        if s2.threads[t].activity->Unlocking_0 is QueueSeen {
            assert(queued_at(s2, h.queue, 0, head_of(s.word)));
        }
        let u2 = u.after(reply);
        if u2 is QueueSeen {
            assert(u2->QueueSeen_state == s.word);
        }
        assert(popper_fits(s2, h.queue, u2));
    }
}

/// A thread that takes the first node off the queue.
proof fn lemma_pop<T>(s: System<T>, h: Holders, t: int, word: usize, reply: Reply<usize>)
    requires
        is_sound(s, h),
        s.allows(Step::UnlockWord { t, word, reply }),
        s.threads[t].activity->Unlocking_0 is Popping,
        reply is Exchanged,
    ensures
        is_sound(
            s.take(Step::UnlockWord { t, word, reply }),
            hand_over(s, h, Step::UnlockWord { t, word, reply }),
        ),
{
    let step = Step::UnlockWord { t, word, reply };
    let s2 = s.take(step);
    let queue2 = h.queue.drop_first();
    assert(forall|t: int| s2.has(t) == s.has(t));
    assert(s.has(t));
    let state = s.threads[t].activity->Unlocking_0->Popping_state;
    let next = s.threads[t].activity->Unlocking_0->next;
    let i = choose|i: int| #[trigger]
        queued_at(s, h.queue, i, head_of(state)) && next == s.threads[h.queue[i]].next;
    assert(state == s.word);
    let first = h.queue[0];
    assert(s.has(h.queue[i]) && s.has(first));
    assert(i == 0);
    assert(queue2 == h.queue.subrange(1, h.queue.len() as int));
    assert forall|u: int| queue2.contains(u) <==> (h.queue.contains(u) && u != first) by {
        if queue2.contains(u) {
            let k = queue2.index_of(u);
            assert(h.queue[k + 1] == u);
        }
        if h.queue.contains(u) && u != first {
            let k = h.queue.index_of(u);
            assert(queue2[k - 1] == u);
        }
    }
    if h.queue.len() > 1 {
        assert(s.has(h.queue[1]));
    }
    assert(!is_queue_locked(next) && !is_locked(next) && head_of(next) == next);
    assert(queue_is(s2, queue2)) by {
        assert forall|k: int| 0 <= k < queue2.len() implies s2.has(#[trigger] queue2[k])
            && s2.threads[queue2[k]].sleeps() && s2.threads[queue2[k]].next == node_at(
            s2,
            queue2,
            k + 1,
        ) by {
            assert(queue2[k] == h.queue[k + 1]);
            if k + 1 < queue2.len() {
                assert(queue2[k + 1] == h.queue[k + 2]);
                assert(s.has(h.queue[k + 2]));
            }
        }
    }
    assert(s2.threads[t].wakes(s2.threads[first].node));
    assert(sleepers_are_known(s2, queue2)) by {
        assert forall|u: int| #[trigger] s2.has(u) && s2.threads[u].sleeps() implies
            queue2.contains(u) || exists|v: int| #[trigger]
            s2.has(v) && s2.threads[v].wakes(s2.threads[u].node) by {
            if u == first {
                assert(s2.has(t));
            }
        }
    }
    assert(threads_fit(s2, queue2));
    assert(is_looked_after(s2, queue2)) by {
        assert(s2.has(t));
    }
}

/// Every step keeps the system sound.
pub(crate) proof fn lemma_step<T>(s: System<T>, h: Holders, step: Step<T>)
    requires
        is_sound(s, h),
        s.allows(step),
    ensures
        is_sound(s.take(step), hand_over(s, h, step)),
{
    match step {
        Step::TryLock { .. } => lemma_lock_word(s, h, step),
        Step::LockWord { .. } => lemma_lock_word(s, h, step),
        Step::Enqueue { t, node, word, reply } => lemma_enqueue(s, h, t, node, word, reply),
        Step::Write { t, value } => lemma_write(s, h, t, value),
        Step::Release { t } => lemma_release(s, h, t),
        Step::UnlockWord { t, word, reply } => lemma_unlock_word(s, h, t, word, reply),
        Step::ReadNext { t, from } => lemma_read_next(s, h, t, from),
        Step::UnparkCell { t, target, cell, reply } => lemma_unpark_cell(
            s,
            h,
            t,
            target,
            cell,
            reply,
        ),
        Step::UnparkWake { t, target } => lemma_unpark_wake(s, h, t, target),
        _ => lemma_quiet(s, h, step),
    }
}

/// Every system of a run is sound.
pub(crate) proof fn lemma_run<T>(systems: Seq<System<T>>, steps: Seq<Step<T>>, i: int) -> (h: Holders)
    requires
        is_run(systems, steps),
        0 <= i < systems.len(),
    ensures
        is_sound(systems[i], h),
    decreases i,
{
    if i == 0 {
        lemma_start(systems[0]);
        Holders { queue: Seq::empty(), owner: None, popper: None }
    } else {
        let h = lemma_run(systems, steps, i - 1);
        let step = steps[i - 1];
        lemma_step(systems[i - 1], h, step);
        hand_over(systems[i - 1], h, step)
    }
}

/// Mutual exclusion: at no time do two threads hold the mutex, and its bit in the word tells
/// whether one does.
pub proof fn law_mutual_exclusion<T>(systems: Seq<System<T>>, steps: Seq<Step<T>>, i: int)
    requires
        is_run(systems, steps),
        0 <= i < systems.len(),
    ensures
        forall|t: int, u: int| #[trigger]
            systems[i].has(t) && #[trigger] systems[i].has(u) && systems[i].threads[t].holds()
                && systems[i].threads[u].holds() ==> t == u,
        is_locked(systems[i].word) <==> exists|t: int| #[trigger]
            systems[i].has(t) && systems[i].threads[t].holds(),
{
    let h = lemma_run(systems, steps, i);
    if let Some(o) = h.owner {
        assert(systems[i].has(o));
    }
}

/// At no time do two threads take waiters off the queue, and its bit in the word tells whether
/// one does.
pub proof fn law_one_thread_pops<T>(systems: Seq<System<T>>, steps: Seq<Step<T>>, i: int)
    requires
        is_run(systems, steps),
        0 <= i < systems.len(),
    ensures
        forall|t: int, u: int| #[trigger]
            systems[i].has(t) && #[trigger] systems[i].has(u) && systems[i].threads[t].pops()
                && systems[i].threads[u].pops() ==> t == u,
        is_queue_locked(systems[i].word) <==> exists|t: int| #[trigger]
            systems[i].has(t) && systems[i].threads[t].pops(),
{
    let h = lemma_run(systems, steps, i);
    if let Some(p) = h.popper {
        assert(systems[i].has(p));
    }
}

/// No waiter gets lost: from the word one gets to a list of different sleeping threads, and a
/// sleeping thread that is not on it is about to be woken by exactly one other.
pub proof fn law_no_waiter_is_lost<T>(systems: Seq<System<T>>, steps: Seq<Step<T>>, i: int)
    requires
        is_run(systems, steps),
        0 <= i < systems.len(),
    ensures
        exists|queue: Seq<int>| #[trigger]
            queue_is(systems[i], queue) && sleepers_are_known(systems[i], queue),
{
    let h = lemma_run(systems, steps, i);
    assert(queue_is(systems[i], h.queue) && sleepers_are_known(systems[i], h.queue));
}

/// There is only one such list: the word and the nodes say who is on the queue, and in which
/// order.
pub proof fn law_word_determines_the_queue<T>(
    systems: Seq<System<T>>,
    steps: Seq<Step<T>>,
    i: int,
    one: Seq<int>,
    other: Seq<int>,
)
    requires
        is_run(systems, steps),
        0 <= i < systems.len(),
        queue_is(systems[i], one),
        queue_is(systems[i], other),
    ensures
        one == other,
{
    let h = lemma_run(systems, steps, i);
    lemma_same_queue(systems[i], one, other, one.len() as int);
    lemma_same_queue(systems[i], other, one, other.len() as int);
    assert(one =~= other);
}

proof fn lemma_same_queue<T>(s: System<T>, one: Seq<int>, other: Seq<int>, n: int)
    requires
        nodes_differ(s),
        queue_is(s, one),
        queue_is(s, other),
        0 <= n <= one.len(),
    ensures
        n <= other.len(),
        forall|k: int| 0 <= k < n ==> one[k] == other[k],
        node_at(s, one, n) == node_at(s, other, n),
    decreases n,
{
    if n > 0 {
        lemma_same_queue(s, one, other, n - 1);
        assert(s.has(one[n - 1]));
        assert(n - 1 < other.len());
        assert(s.has(other[n - 1]));
        assert(one[n - 1] == other[n - 1]);
    }
}

/// The queue once the step is taken: a thread that queues up comes in front, a thread that takes a
/// waiter off takes the first, and nothing else changes it.
pub open spec fn queue_after<T>(s: System<T>, queue: Seq<int>, step: Step<T>) -> Seq<int> {
    match step {
        Step::Enqueue { t, .. } if s.take(step).threads[t].waits() => seq![t] + queue,
        Step::UnlockWord { t, .. } if s.take(step).threads[t].activity matches Activity::Unlocking(
            u,
        ) && u is Waking => queue.drop_first(),
        _ => queue,
    }
}

/// The queue is last in, first out, and every step makes of it what `queue_after` says. A thread
/// that takes a waiter off is about to wake that waiter.
pub proof fn law_queue_is_last_in_first_out<T>(
    systems: Seq<System<T>>,
    steps: Seq<Step<T>>,
    i: int,
    queue: Seq<int>,
)
    requires
        is_run(systems, steps),
        0 <= i < steps.len(),
        queue_is(systems[i], queue),
    ensures
        queue_is(systems[i + 1], queue_after(systems[i], queue, steps[i])),
        steps[i] matches Step::UnlockWord { t, .. } ==> (
        systems[i + 1].threads[t].activity->Unlocking_0 is Waking ==> queue.len() > 0
            && systems[i + 1].threads[t].wakes(systems[i].threads[queue[0]].node)),
{
    let h = lemma_run(systems, steps, i);
    let s = systems[i];
    let step = steps[i];
    assert(s.allows(step));
    lemma_step(s, h, step);
    law_word_determines_the_queue(systems, steps, i, queue, h.queue);
    if let Step::UnlockWord { t, .. } = step {
        assert(s.has(t));
        let u = s.threads[t].activity->Unlocking_0;
        assert(popper_fits(s, h.queue, u));
    }
}

/// While some thread takes waiters off the queue, the queue is not empty.
pub proof fn law_popped_queue_is_not_empty<T>(
    systems: Seq<System<T>>,
    steps: Seq<Step<T>>,
    i: int,
    t: int,
)
    requires
        is_run(systems, steps),
        0 <= i < systems.len(),
        systems[i].has(t),
        systems[i].threads[t].pops(),
    ensures
        head_of(systems[i].word) != 0,
{
    let h = lemma_run(systems, steps, i);
    assert(popper_fits(systems[i], h.queue, systems[i].threads[t].activity->Unlocking_0));
    assert(h.queue.len() > 0);
    assert(systems[i].has(h.queue[0]));
}

/// No thread reads or writes a node that is gone: the node whose `next` a thread is about to read,
/// or whose parker it is about to mark as woken, belongs to a thread that waits with it. (The wake
/// call that may follow only passes on the address of the parker, whose thread may have left.)
pub proof fn law_nodes_outlive_their_readers<T>(
    systems: Seq<System<T>>,
    steps: Seq<Step<T>>,
    i: int,
    t: int,
)
    requires
        is_run(systems, steps),
        0 <= i < systems.len(),
        systems[i].has(t),
        systems[i].threads[t].activity is Unlocking,
    ensures
        systems[i].threads[t].activity->Unlocking_0.asks() matches UnlockRequest::ReadNext { node }
            ==> is_node_address(node) && exists|from: int| #[trigger]
            systems[i].has(from) && systems[i].threads[from].sleeps()
                && systems[i].threads[from].node == node,
        systems[i].threads[t].activity->Unlocking_0.asks() matches UnlockRequest::Unpark { node }
            ==> (systems[i].threads[t].unpark is Start ==> exists|target: int| #[trigger]
            systems[i].has(target) && systems[i].threads[target].sleeps()
                && systems[i].threads[target].node == node),
{
    let h = lemma_run(systems, steps, i);
    let s = systems[i];
    let u = s.threads[t].activity->Unlocking_0;
    if u.asks() is ReadNext {
        let state = u->QueueSeen_state;
        assert(popper_fits(s, h.queue, u));
        let k = choose|k: int| queued_at(s, h.queue, k, head_of(state));
        assert(s.has(h.queue[k]));
    }
    if u is Waking && s.threads[t].unpark is Start {
        assert(s.threads[t].wakes(u->Waking_node));
    }
}

/// Nobody waits in vain: while the queue is not empty, the mutex is held, or the queue is, or
/// some thread that need not be marked as woken first will look after the queue or try for the
/// mutex.
pub proof fn law_no_waiter_is_stranded<T>(systems: Seq<System<T>>, steps: Seq<Step<T>>, i: int)
    requires
        is_run(systems, steps),
        0 <= i < systems.len(),
        head_of(systems[i].word) != 0,
    ensures
        is_locked(systems[i].word) || is_queue_locked(systems[i].word) || exists|t: int| #[trigger]
            systems[i].has(t) && systems[i].threads[t].on_duty(),
{
    let h = lemma_run(systems, steps, i);
}

pub(crate) proof fn lemma_somebody_is_awake<T>(s: System<T>, h: Holders, t: int) -> (u: int)
    requires
        is_sound(s, h),
        s.has(t),
        s.threads[t].activity != Activity::Idle,
    ensures
        s.has(u),
        s.threads[u].activity != Activity::Idle,
        !s.threads[u].sleeps(),
        !s.threads[u].asleep,
{
    let u = if !s.threads[t].sleeps() {
        t
    } else if !h.queue.contains(t) {
        choose|u: int| #[trigger] s.has(u) && s.threads[u].wakes(s.threads[t].node)
    } else if let Some(o) = h.owner {
        assert(s.has(o) && s.threads[o].holds());
        o
    } else if let Some(p) = h.popper {
        assert(s.has(p) && s.threads[p].pops());
        p
    } else {
        choose|u: int| #[trigger] s.has(u) && s.threads[u].on_duty()
    };
    assert(s.has(u));
    if s.threads[u].asleep {
        choose|v: int| #[trigger] s.has(v) && rouses(s.threads[v], s.threads[u].node)
    } else {
        u
    }
}

/// Not everybody sleeps: while some thread is busy with the mutex, one that is busy with it is
/// awake, neither blocked in the kernel nor waiting to be woken.
pub proof fn law_not_everybody_sleeps<T>(
    systems: Seq<System<T>>,
    steps: Seq<Step<T>>,
    i: int,
    t: int,
)
    requires
        is_run(systems, steps),
        0 <= i < systems.len(),
        systems[i].has(t),
        systems[i].threads[t].activity != Activity::Idle,
    ensures
        exists|u: int| #[trigger]
            systems[i].has(u) && !systems[i].threads[u].sleeps() && !systems[i].threads[u].asleep
                && systems[i].threads[u].activity != Activity::Idle,
{
    let h = lemma_run(systems, steps, i);
    let u = lemma_somebody_is_awake(systems[i], h, t);
}

/// No wakeup is lost: a thread that is blocked in the kernel waits in the queue or for its waker,
/// and if it was marked as woken already, another thread is about to wake it.
pub proof fn law_marked_sleeper_is_woken<T>(
    systems: Seq<System<T>>,
    steps: Seq<Step<T>>,
    i: int,
    t: int,
)
    requires
        is_run(systems, steps),
        0 <= i < systems.len(),
        systems[i].has(t),
        systems[i].threads[t].asleep,
    ensures
        systems[i].threads[t].waits(),
        systems[i].threads[t].cell == UNPARKED ==> exists|u: int| #[trigger]
            systems[i].has(u) && rouses(systems[i].threads[u], systems[i].threads[t].node),
{
    let h = lemma_run(systems, steps, i);
}

/// The thread other than `t` that has its node at this address, if there is one.
pub(crate) open spec fn tenant<T>(s: System<T>, node: usize, t: int) -> Option<int> {
    if s.is_vacant(node, t) {
        None
    } else {
        Some(
            choose|u: int| #[trigger]
                s.has(u) && u != t && s.threads[u].waits() && s.threads[u].node == node,
        )
    }
}

/// No thread gets stuck: whatever a thread asks for, there is a step that grants it.
pub proof fn law_every_thread_can_move<T>(
    systems: Seq<System<T>>,
    steps: Seq<Step<T>>,
    i: int,
    t: int,
    address: usize,
)
    requires
        is_run(systems, steps),
        0 <= i < systems.len(),
        systems[i].has(t),
        is_node_address(address),
        systems[i].is_vacant(address, t),
    ensures
        exists|step: Step<T>| #[trigger] systems[i].allows(step) && taken_by(step) == t,
{
    let h = lemma_run(systems, steps, i);
    let s = systems[i];
    let thread = s.threads[t];
    let word = s.word;
    let step = match thread.activity {
        Activity::Idle => Step::<T>::Arrive { t },
        Activity::Locking(l) => match l.asks() {
            LockRequest::Word(Access::Load) => Step::LockWord { t, word, reply: Reply::Value(word) },
            LockRequest::Word(_) => Step::LockWord { t, word, reply: Reply::Refused(word) },
            LockRequest::Spin { .. } => Step::LockPause { t },
            LockRequest::Yield => Step::LockPause { t },
            LockRequest::Enqueue { .. } => Step::Enqueue {
                t,
                node: address,
                word,
                reply: Reply::Refused(word),
            },
            LockRequest::Park => match thread.park {
                ParkState::Start => Step::ParkCell {
                    t,
                    cell: thread.cell,
                    reply: Reply::Value(thread.cell),
                },
                ParkState::Claim => Step::ParkCell {
                    t,
                    cell: thread.cell,
                    reply: Reply::Refused(thread.cell),
                },
                ParkState::Waiting => match thread.wait {
                    WaitState::Recheck => Step::WaitCell { t, reply: Reply::Value(thread.cell) },
                    WaitState::Blocked => if thread.asleep {
                        Step::WakeUp { t }
                    } else {
                        Step::WaitBlock { t }
                    },
                    WaitState::Done => Step::WaitOver { t },
                },
                ParkState::Done => Step::ParkOver { t },
            },
            LockRequest::Nothing => Step::Depart { t },
        },
        Activity::Unlocking(u) => match u.asks() {
            UnlockRequest::FetchSub { .. } => Step::Release { t },
            UnlockRequest::Word(Access::Load) => Step::UnlockWord {
                t,
                word,
                reply: Reply::Value(word),
            },
            UnlockRequest::Word(_) => Step::UnlockWord { t, word, reply: Reply::Refused(word) },
            UnlockRequest::ReadNext { node } => {
                law_nodes_outlive_their_readers(systems, steps, i, t);
                let from = choose|from: int| #[trigger]
                    s.has(from) && s.threads[from].sleeps() && s.threads[from].node == node;
                Step::ReadNext { t, from }
            },
            UnlockRequest::Unpark { node } => match thread.unpark {
                UnparkState::Start => {
                    law_nodes_outlive_their_readers(systems, steps, i, t);
                    let target = choose|target: int| #[trigger]
                        s.has(target) && s.threads[target].sleeps() && s.threads[target].node
                            == node;
                    Step::UnparkCell {
                        t,
                        target,
                        cell: UNPARKED,
                        reply: Reply::Value(s.threads[target].cell),
                    }
                },
                UnparkState::Waking => Step::UnparkWake { t, target: tenant(s, node, t) },
                UnparkState::Done => Step::UnparkOver { t },
            },
            UnlockRequest::Nothing => Step::Leave { t },
        },
    };
    assert(s.allows(step) && taken_by(step) == t);
}

/// A thread comes back from waiting only after another one has unparked it.
pub proof fn law_parked_until_unparked<T>(
    systems: Seq<System<T>>,
    steps: Seq<Step<T>>,
    i: int,
    t: int,
)
    requires
        is_run(systems, steps),
        0 <= i < systems.len(),
        systems[i].has(t),
        systems[i].threads[t].waits(),
        systems[i].threads[t].park is Done,
    ensures
        systems[i].threads[t].cell == UNPARKED,
{
    let h = lemma_run(systems, steps, i);
}

pub(crate) proof fn lemma_idle_word<T>(s: System<T>, h: Holders)
    requires
        is_sound(s, h),
        forall|t: int| #[trigger] s.has(t) ==> s.threads[t].activity == Activity::Idle,
    ensures
        s.word == 0,
{
    if h.queue.len() > 0 {
        assert(s.has(h.queue[0]));
    }
    law_pack_unpack(s.word);
}

/// When every thread is through, the word is what it was at the start.
pub proof fn law_word_returns_to_zero<T>(systems: Seq<System<T>>, steps: Seq<Step<T>>, i: int)
    requires
        is_run(systems, steps),
        0 <= i < systems.len(),
        forall|t: int| #[trigger]
            systems[i].has(t) ==> systems[i].threads[t].activity == Activity::Idle,
    ensures
        systems[i].word == 0,
{
    let h = lemma_run(systems, steps, i);
    lemma_idle_word(systems[i], h);
}

/// The value changes only when the thread that holds the mutex writes it.
pub proof fn law_only_the_holder_writes<T>(systems: Seq<System<T>>, steps: Seq<Step<T>>, i: int)
    requires
        is_run(systems, steps),
        0 <= i < steps.len(),
        systems[i + 1].value != systems[i].value,
    ensures
        steps[i] matches Step::Write { t, value } && systems[i].has(t)
            && systems[i].threads[t].holds() && systems[i + 1].value == value,
{
    assert(systems[i].allows(steps[i]));
}

/// What a thread last saw or left in the mutex that it holds is what is there.
pub proof fn law_holder_is_undisturbed<T>(
    systems: Seq<System<T>>,
    steps: Seq<Step<T>>,
    i: int,
    t: int,
)
    requires
        is_run(systems, steps),
        0 <= i < systems.len(),
        systems[i].has(t),
        systems[i].threads[t].holds(),
        systems[i].threads[t].seen is Some,
    ensures
        systems[i].value == systems[i].threads[t].seen->0,
{
    let h = lemma_run(systems, steps, i);
}

/// How many of the first `i` steps write the value.
pub open spec fn writes<T>(steps: Seq<Step<T>>, i: int) -> int
    decreases i,
{
    if i <= 0 {
        0
    } else {
        writes(steps, i - 1) + (if steps[i - 1] is Write {
            1int
        } else {
            0int
        })
    }
}

/// No update is lost: when every write leaves one more than its thread last saw, the value
/// counts the writes.
pub proof fn law_no_update_is_lost(systems: Seq<System<int>>, steps: Seq<Step<int>>, i: int)
    requires
        is_run(systems, steps),
        0 <= i < systems.len(),
        forall|k: int|
            0 <= k < steps.len() ==> ((#[trigger] steps[k]) matches Step::Write { t, value }
                ==> systems[k].threads[t].seen == Some(value - 1)),
    ensures
        systems[i].value == systems[0].value + writes(steps, i),
    decreases i,
{
    if i > 0 {
        law_no_update_is_lost(systems, steps, i - 1);
        let step = steps[i - 1];
        assert(systems[i - 1].allows(step));
        if let Step::Write { t, value } = step {
            law_holder_is_undisturbed(systems, steps, i - 1, t);
        }
    }
}

/// Who queued up last is woken first: the node that a thread takes off the queue is the one that
/// the word led to, and from then on the word is what that node's `next` says.
pub proof fn law_first_node_is_popped<T>(
    systems: Seq<System<T>>,
    steps: Seq<Step<T>>,
    i: int,
    t: int,
    node: usize,
)
    requires
        is_run(systems, steps),
        0 <= i < steps.len(),
        systems[i].has(t),
        !systems[i].threads[t].wakes(node),
        systems[i + 1].threads[t].wakes(node),
    ensures
        node == head_of(systems[i].word),
        exists|u: int| #[trigger]
            systems[i].has(u) && systems[i].threads[u].sleeps() && systems[i].threads[u].node
                == node && systems[i + 1].word == systems[i].threads[u].next,
{
    let h = lemma_run(systems, steps, i);
    let s = systems[i];
    assert(s.allows(steps[i]));
    let u = s.threads[t].activity->Unlocking_0;
    assert(popper_fits(s, h.queue, u));
    let k = choose|k: int| #[trigger]
        queued_at(s, h.queue, k, head_of(u->Popping_state)) && u->next
            == s.threads[h.queue[k]].next;
    assert(s.has(h.queue[k]));
}

/// Letting the mutex go undoes taking it, whoever holds the queue and whoever waits there.
pub proof fn law_release_undoes_acquire(state: usize)
    requires
        !is_locked(state),
    ensures
        decremented(acquire_from(state)->CompareExchangeWeak_new) == state,
{
    law_pack_unpack(state);
}

/// A thread queues up only while the mutex is held, and then only if others wait already or it
/// has spun and yielded for long enough.
pub proof fn law_spins_before_it_queues(l: LockState)
    requires
        l.asks() is Enqueue,
    ensures
        l matches LockState::Seen { state, spin_count } && is_locked(state) && (head_of(state) != 0
            || spin_count >= SPIN_CPU + SPIN_THREAD),
{
}

} // verus!
