//! Any number of threads that share one mutex.
//!
//! The accesses to shared memory happen one at a time, in any order: a step is one access by one
//! thread, or something that the thread does for itself. Every thread runs the machines of this
//! library and nothing else touches the word.

use crate::access::{answers, Reply};
use crate::lock::{acquire_from, enqueue_onto, LockRequest, LockState};
use crate::parker::{
    ParkRequest, ParkState, UnparkRequest, UnparkState, WaitRequest, WaitState, EMPTY, UNPARKED,
};
use crate::unlock::{UnlockRequest, UnlockState};
use crate::word::is_node_address;
use vstd::prelude::*;

verus! {

/// What a thread is doing with the mutex.
pub ghost enum Activity {
    Idle,
    Locking(LockState),
    Unlocking(UnlockState),
}

/// A thread, with the queue node that it owns while it waits.
pub ghost struct Thread<T> {
    pub activity: Activity,
    /// Where the node is.
    pub node: usize,
    /// Where the node leads.
    pub next: usize,
    /// The cell of the node's parker.
    pub cell: i32,
    /// How far the thread has come in parking itself on that cell.
    pub park: ParkState,
    /// How far it has come in waiting there.
    pub wait: WaitState,
    /// Whether it sleeps in the kernel, blocked on the cell.
    pub asleep: bool,
    /// How far it has come in unparking another thread.
    pub unpark: UnparkState,
    /// What it last saw or left in the mutex.
    pub seen: Option<T>,
}

/// The shared word, the value under its protection, and the threads.
pub ghost struct System<T> {
    pub word: usize,
    pub value: T,
    pub threads: Seq<Thread<T>>,
}

/// One step of thread `t`.
#[allow(inconsistent_fields)]
pub ghost enum Step<T> {
    /// Starts to take the mutex.
    Arrive { t: int },
    /// Tries the mutex once, without waiting.
    TryLock { t: int, word: usize, reply: Reply<usize> },
    /// Accesses the word while taking the mutex.
    LockWord { t: int, word: usize, reply: Reply<usize> },
    /// Spins or yields.
    LockPause { t: int },
    /// Prepares a node at `node` and tries to put it on the queue.
    Enqueue { t: int, node: usize, word: usize, reply: Reply<usize> },
    /// Accesses its parker.
    ParkCell { t: int, cell: i32, reply: Reply<i32> },
    /// Looks again whether it is still parked.
    WaitCell { t: int, reply: Reply<i32> },
    /// Asks to be blocked and goes to sleep, which it does only while the cell says that it is
    /// parked.
    FallAsleep { t: int },
    /// Wakes up for no reason.
    WakeUp { t: int },
    /// Comes back from being blocked.
    WaitBlock { t: int },
    /// Has waited.
    WaitOver { t: int },
    /// Has parked.
    ParkOver { t: int },
    /// Reads the value of the mutex that it holds.
    Read { t: int },
    /// Writes the value of the mutex that it holds.
    Write { t: int, value: T },
    /// Starts to release the mutex.
    Depart { t: int },
    /// Lets the mutex go.
    Release { t: int },
    /// Accesses the word after that.
    UnlockWord { t: int, word: usize, reply: Reply<usize> },
    /// Reads where the node of thread `from` leads.
    ReadNext { t: int, from: int },
    /// Accesses the parker of thread `target`.
    UnparkCell { t: int, target: int, cell: i32, reply: Reply<i32> },
    /// Wakes whoever is blocked on the parker whose cell it has marked: `target`, the thread that
    /// has its node there by now, if there is one.
    UnparkWake { t: int, target: Option<int> },
    /// Has unparked.
    UnparkOver { t: int },
    /// Has released the mutex.
    Leave { t: int },
}

/// The thread that takes the step.
pub open spec fn taken_by<T>(step: Step<T>) -> int {
    match step {
        Step::Arrive { t } => t,
        Step::TryLock { t, .. } => t,
        Step::LockWord { t, .. } => t,
        Step::LockPause { t } => t,
        Step::Enqueue { t, .. } => t,
        Step::ParkCell { t, .. } => t,
        Step::WaitCell { t, .. } => t,
        Step::FallAsleep { t } => t,
        Step::WakeUp { t } => t,
        Step::WaitBlock { t } => t,
        Step::WaitOver { t } => t,
        Step::ParkOver { t } => t,
        Step::Read { t } => t,
        Step::Write { t, .. } => t,
        Step::Depart { t } => t,
        Step::Release { t } => t,
        Step::UnlockWord { t, .. } => t,
        Step::ReadNext { t, .. } => t,
        Step::UnparkCell { t, .. } => t,
        Step::UnparkWake { t, .. } => t,
        Step::UnparkOver { t } => t,
        Step::Leave { t } => t,
    }
}

/// The word after a subtraction of 1 that wraps around.
pub open spec fn decremented(word: usize) -> usize {
    if word == 0 {
        usize::MAX
    } else {
        (word - 1) as usize
    }
}

impl<T> Thread<T> {
    /// Holds the mutex.
    pub open spec fn holds(self) -> bool {
        self.activity == Activity::Locking(LockState::Held) || self.activity
            == Activity::Unlocking(UnlockState::Start)
    }

    /// Holds the queue.
    pub open spec fn pops(self) -> bool {
        self.activity matches Activity::Unlocking(u) && (u is QueueLocked || u is QueueSeen
            || u is Popping)
    }

    /// Has a node that others may know of.
    pub open spec fn waits(self) -> bool {
        self.activity == Activity::Locking(LockState::Queued)
    }

    /// Waits and was not marked as woken yet.
    pub open spec fn sleeps(self) -> bool {
        self.waits() && self.cell != UNPARKED
    }

    /// Is about to wake the thread whose node is there.
    pub open spec fn wakes(self, node: usize) -> bool {
        self.activity == Activity::Unlocking(UnlockState::Waking { node }) && self.unpark
            == UnparkState::Start
    }

    /// Will look after the queue or try for the mutex, and need not be marked as woken first.
    pub open spec fn on_duty(self) -> bool {
        match self.activity {
            Activity::Idle => false,
            Activity::Locking(l) => l is Reload || l is Seen || (l is Queued && self.cell
                == UNPARKED),
            Activity::Unlocking(u) => u is Reload || u is Seen || (u is Waking && self.unpark
                == UnparkState::Start),
        }
    }

    pub open spec fn doing(self, activity: Activity) -> Thread<T> {
        Thread { activity, ..self }
    }
}

impl<T> System<T> {
    pub open spec fn has(self, t: int) -> bool {
        0 <= t < self.threads.len()
    }

    pub open spec fn with(self, t: int, thread: Thread<T>) -> System<T> {
        System { threads: self.threads.update(t, thread), ..self }
    }

    /// With this thread no longer asleep, if there is one.
    pub open spec fn roused(self, target: Option<int>) -> System<T> {
        match target {
            Some(v) => self.with(v, Thread { asleep: false, ..self.threads[v] }),
            None => self,
        }
    }

    /// A mutex that nobody has used yet.
    pub open spec fn starts(self) -> bool {
        &&& self.word == 0
        &&& forall|t: int| #[trigger]
            self.has(t) ==> self.threads[t].activity == Activity::Idle && !self.threads[t].asleep
    }

    /// Whether no node that others may know of lives at this address, but for that of thread
    /// `t`.
    pub open spec fn is_vacant(self, address: usize, t: int) -> bool {
        forall|u: int| #[trigger]
            self.has(u) && u != t && self.threads[u].waits() ==> self.threads[u].node != address
    }

    /// Whether the step can be taken.
    pub open spec fn allows(self, step: Step<T>) -> bool {
        match step {
            Step::Arrive { t } => self.has(t) && self.threads[t].activity == Activity::Idle,
            Step::TryLock { t, word, reply } => {
                &&& self.has(t)
                &&& self.threads[t].activity == Activity::Idle
                &&& answers(self.word, acquire_from(0), word, reply)
            },
            Step::LockWord { t, word, reply } => {
                &&& self.has(t)
                &&& self.threads[t].activity matches Activity::Locking(l)
                &&& l.asks() matches LockRequest::Word(access)
                &&& answers(self.word, access, word, reply)
            },
            Step::LockPause { t } => {
                &&& self.has(t)
                &&& self.threads[t].activity matches Activity::Locking(l)
                &&& l.asks() is Spin || l.asks() is Yield
            },
            Step::Enqueue { t, node, word, reply } => {
                &&& self.has(t)
                &&& is_node_address(node)
                &&& self.is_vacant(node, t)
                &&& self.threads[t].activity matches Activity::Locking(l)
                &&& l.asks() is Enqueue
                &&& answers(self.word, enqueue_onto(l->state, node), word, reply)
            },
            Step::ParkCell { t, cell, reply } => {
                &&& self.has(t)
                &&& self.threads[t].waits()
                &&& self.threads[t].park.asks() matches ParkRequest::Cell(access)
                &&& answers(self.threads[t].cell, access, cell, reply)
            },
            Step::WaitCell { t, reply } => {
                &&& self.has(t)
                &&& self.threads[t].waits()
                &&& self.threads[t].park is Waiting
                &&& self.threads[t].wait.asks() matches WaitRequest::Cell(access)
                &&& answers(self.threads[t].cell, access, self.threads[t].cell, reply)
            },
            Step::FallAsleep { t } => {
                &&& self.has(t)
                &&& self.threads[t].waits()
                &&& self.threads[t].park is Waiting
                &&& self.threads[t].wait.asks() matches WaitRequest::Block { expected }
                &&& self.threads[t].cell == expected
                &&& !self.threads[t].asleep
            },
            Step::WakeUp { t } => self.has(t) && self.threads[t].asleep,
            Step::WaitBlock { t } => {
                &&& self.has(t)
                &&& self.threads[t].waits()
                &&& self.threads[t].park is Waiting
                &&& self.threads[t].wait.asks() is Block
                &&& !self.threads[t].asleep
            },
            Step::WaitOver { t } => {
                &&& self.has(t)
                &&& self.threads[t].waits()
                &&& self.threads[t].park is Waiting
                &&& self.threads[t].wait is Done
            },
            Step::ParkOver { t } => {
                &&& self.has(t)
                &&& self.threads[t].waits()
                &&& self.threads[t].park is Done
            },
            Step::Read { t } => self.has(t) && self.threads[t].activity == Activity::Locking(
                LockState::Held,
            ),
            Step::Write { t, value } => self.has(t) && self.threads[t].activity
                == Activity::Locking(LockState::Held),
            Step::Depart { t } => self.has(t) && self.threads[t].activity == Activity::Locking(
                LockState::Held,
            ),
            Step::Release { t } => self.has(t) && self.threads[t].activity == Activity::Unlocking(
                UnlockState::Start,
            ),
            Step::UnlockWord { t, word, reply } => {
                &&& self.has(t)
                &&& self.threads[t].activity matches Activity::Unlocking(u)
                &&& u.asks() matches UnlockRequest::Word(access)
                &&& answers(self.word, access, word, reply)
            },
            Step::ReadNext { t, from } => {
                &&& self.has(t)
                &&& self.has(from)
                &&& self.threads[t].activity matches Activity::Unlocking(u)
                &&& u.asks() matches UnlockRequest::ReadNext { node }
                &&& self.threads[from].waits()
                &&& self.threads[from].node == node
            },
            Step::UnparkCell { t, target, cell, reply } => {
                &&& self.has(t)
                &&& self.has(target)
                &&& self.threads[t].wakes(self.threads[target].node)
                &&& self.threads[target].waits()
                &&& self.threads[t].unpark.asks() matches UnparkRequest::Cell(access)
                &&& answers(self.threads[target].cell, access, cell, reply)
            },
            Step::UnparkWake { t, target } => {
                &&& self.has(t)
                &&& self.threads[t].activity matches Activity::Unlocking(u)
                &&& u matches UnlockState::Waking { node }
                &&& self.threads[t].unpark.asks() is Wake
                &&& match target {
                    Some(v) => self.has(v) && self.threads[v].waits() && self.threads[v].node
                        == node,
                    None => self.is_vacant(node, t),
                }
            },
            Step::UnparkOver { t } => {
                &&& self.has(t)
                &&& self.threads[t].activity matches Activity::Unlocking(u)
                &&& u is Waking
                &&& self.threads[t].unpark is Done
            },
            Step::Leave { t } => self.has(t) && self.threads[t].activity == Activity::Unlocking(
                UnlockState::Done,
            ),
        }
    }

    /// What the step makes of the system.
    pub open spec fn take(self, step: Step<T>) -> System<T> {
        match step {
            Step::Arrive { t } => self.with(
                t,
                self.threads[t].doing(Activity::Locking(LockState::Start)),
            ),
            Step::TryLock { t, word, reply } => {
                let l = LockState::Start.after(reply);
                let activity = if l is Held {
                    Activity::Locking(l)
                } else {
                    Activity::Idle
                };
                System { word, ..self }.with(
                    t,
                    Thread { activity, seen: None, ..self.threads[t] },
                )
            },
            Step::LockWord { t, word, reply } => System { word, ..self }.with(
                t,
                Thread {
                    activity: Activity::Locking(self.threads[t].activity->Locking_0.after(reply)),
                    seen: None,
                    ..self.threads[t]
                },
            ),
            Step::LockPause { t } => self.with(
                t,
                self.threads[t].doing(
                    Activity::Locking(
                        self.threads[t].activity->Locking_0.after(Reply::Done),
                    ),
                ),
            ),
            Step::Enqueue { t, node, word, reply } => {
                let l = self.threads[t].activity->Locking_0;
                System { word, ..self }.with(
                    t,
                    Thread {
                        activity: Activity::Locking(l.after(reply)),
                        node,
                        next: l.asks()->next,
                        cell: EMPTY,
                        park: ParkState::Start,
                        wait: WaitState::Recheck,
                        asleep: false,
                        ..self.threads[t]
                    },
                )
            },
            Step::ParkCell { t, cell, reply } => self.with(
                t,
                Thread { cell, park: self.threads[t].park.after(reply), ..self.threads[t] },
            ),
            Step::WaitCell { t, reply } => self.with(
                t,
                Thread { wait: self.threads[t].wait.after(reply), ..self.threads[t] },
            ),
            Step::FallAsleep { t } => self.with(t, Thread { asleep: true, ..self.threads[t] }),
            Step::WakeUp { t } => self.with(t, Thread { asleep: false, ..self.threads[t] }),
            Step::WaitBlock { t } => self.with(
                t,
                Thread { wait: self.threads[t].wait.after(Reply::Done), ..self.threads[t] },
            ),
            Step::WaitOver { t } => self.with(
                t,
                Thread { park: self.threads[t].park.after(Reply::Done), ..self.threads[t] },
            ),
            Step::ParkOver { t } => self.with(
                t,
                self.threads[t].doing(
                    Activity::Locking(LockState::Queued.after(Reply::Done)),
                ),
            ),
            Step::Read { t } => self.with(
                t,
                Thread { seen: Some(self.value), ..self.threads[t] },
            ),
            Step::Write { t, value } => System { value, ..self }.with(
                t,
                Thread { seen: Some(value), ..self.threads[t] },
            ),
            Step::Depart { t } => self.with(
                t,
                self.threads[t].doing(Activity::Unlocking(UnlockState::Start)),
            ),
            Step::Release { t } => System { word: decremented(self.word), ..self }.with(
                t,
                self.threads[t].doing(
                    Activity::Unlocking(UnlockState::Start.after(Reply::Value(self.word))),
                ),
            ),
            Step::UnlockWord { t, word, reply } => {
                let u = self.threads[t].activity->Unlocking_0.after(reply);
                System { word, ..self }.with(
                    t,
                    Thread {
                        activity: Activity::Unlocking(u),
                        unpark: UnparkState::Start,
                        ..self.threads[t]
                    },
                )
            },
            Step::ReadNext { t, from } => self.with(
                t,
                self.threads[t].doing(
                    Activity::Unlocking(
                        self.threads[t].activity->Unlocking_0.after(
                            Reply::Value(self.threads[from].next),
                        ),
                    ),
                ),
            ),
            Step::UnparkCell { t, target, cell, reply } => self.with(
                target,
                Thread { cell, ..self.threads[target] },
            ).with(
                t,
                Thread { unpark: self.threads[t].unpark.after(reply), ..self.threads[t] },
            ),
            Step::UnparkWake { t, target } => self.roused(target).with(
                t,
                Thread { unpark: self.threads[t].unpark.after(Reply::Done), ..self.threads[t] },
            ),
            Step::UnparkOver { t } => self.with(
                t,
                self.threads[t].doing(
                    Activity::Unlocking(
                        self.threads[t].activity->Unlocking_0.after(Reply::Done),
                    ),
                ),
            ),
            Step::Leave { t } => self.with(t, self.threads[t].doing(Activity::Idle)),
        }
    }
}

/// Whether these systems follow on one another, from a mutex that nobody has used yet, by these
/// steps.
pub open spec fn is_run<T>(systems: Seq<System<T>>, steps: Seq<Step<T>>) -> bool {
    &&& systems.len() == steps.len() + 1
    &&& systems[0].starts()
    &&& forall|i: int|
        0 <= i < steps.len() ==> systems[i].allows(#[trigger] steps[i]) && systems[i + 1]
            == systems[i].take(steps[i])
}

} // verus!
