//! Releasing the mutex and waking a waiter.

use crate::access::{Access, MemoryOrder, Reply};
use crate::cell::{Cell, Errand, Operations};
use crate::word::{
    head, head_of, is_locked, is_queue_locked, locked, pack, queue_locked, with_queue_lock,
    without_queue_lock, MUTEX_LOCK,
};
use std::sync::atomic::Ordering;
use vstd::prelude::*;

verus! {

/// How far a thread has come in releasing the mutex.
#[derive(Debug, PartialEq, Eq)]
pub enum UnlockState {
    /// Holds the mutex and is about to let it go.
    Start,
    /// Somebody waits: about to read the word.
    Reload,
    /// Has seen a free, nonempty queue: about to lock it.
    Seen { state: usize },
    /// Holds the queue: about to read the word.
    QueueLocked,
    /// Holds the queue and has read the word.
    QueueSeen { state: usize },
    /// Holds the queue, has seen a free mutex, and has read where the first node leads.
    Popping { state: usize, next: usize },
    /// Has taken this node off the queue: about to wake its thread.
    Waking { node: usize },
    /// Through.
    Done,
}

/// What a thread that releases the mutex asks for next.
#[derive(Debug, PartialEq, Eq)]
pub enum UnlockRequest {
    /// The mutex bit to be subtracted from the word, with release ordering.
    FetchSub { amount: usize },
    /// An access to the word.
    Word(Access<usize>),
    /// The `next` field of the node at this address.
    ReadNext { node: usize },
    /// The parker of the node at this address to be unparked.
    Unpark { node: usize },
    /// Nothing: the mutex was released.
    Nothing,
}

/// Whether a waiter is to be woken by whoever sees this word.
pub open spec fn calls_for_wakeup(state: usize) -> bool {
    !is_queue_locked(state) && head_of(state) != 0
}

/// The exchange that locks the queue when the word was seen to be `state`.
pub open spec fn lock_queue_from(state: usize) -> Access<usize> {
    Access::CompareExchangeWeak {
        current: state,
        new: pack(is_locked(state), true, head_of(state)) as usize,
        success: MemoryOrder::Acquire,
    }
}

/// The exchange that lets the queue go when the word was seen to be `state`.
pub open spec fn unlock_queue_from(state: usize) -> Access<usize> {
    Access::CompareExchangeWeak {
        current: state,
        new: pack(is_locked(state), false, head_of(state)) as usize,
        success: MemoryOrder::Release,
    }
}

/// The exchange that takes the first node off the queue and lets the queue go.
pub open spec fn pop_from(state: usize, next: usize) -> Access<usize> {
    Access::CompareExchangeWeak { current: state, new: next, success: MemoryOrder::Release }
}

impl UnlockState {
    /// What the thread asks for next.
    pub open spec fn asks(self) -> UnlockRequest {
        match self {
            UnlockState::Start => UnlockRequest::FetchSub { amount: 1 },
            UnlockState::Reload => UnlockRequest::Word(Access::Load),
            UnlockState::Seen { state } => UnlockRequest::Word(lock_queue_from(state)),
            UnlockState::QueueLocked => UnlockRequest::Word(Access::Load),
            UnlockState::QueueSeen { state } => {
                if is_locked(state) {
                    UnlockRequest::Word(unlock_queue_from(state))
                } else {
                    UnlockRequest::ReadNext { node: head_of(state) }
                }
            },
            UnlockState::Popping { state, next } => UnlockRequest::Word(pop_from(state, next)),
            UnlockState::Waking { node } => UnlockRequest::Unpark { node },
            UnlockState::Done => UnlockRequest::Nothing,
        }
    }

    /// Where a thread that has no lock on the queue goes when it sees this word.
    pub open spec fn on_sight(state: usize) -> UnlockState {
        if calls_for_wakeup(state) {
            UnlockState::Seen { state }
        } else {
            UnlockState::Done
        }
    }

    /// Where the reply to that request takes the thread. A reply of another kind changes
    /// nothing.
    pub open spec fn after(self, reply: Reply<usize>) -> UnlockState {
        match (self, reply) {
            (UnlockState::Start, Reply::Value(state)) => {
                if calls_for_wakeup(state) {
                    UnlockState::Reload
                } else {
                    UnlockState::Done
                }
            },
            (UnlockState::Reload, Reply::Value(state)) => Self::on_sight(state),
            (UnlockState::Seen { .. }, Reply::Exchanged(_)) => UnlockState::QueueLocked,
            (UnlockState::Seen { .. }, Reply::Refused(found)) => Self::on_sight(found),
            (UnlockState::QueueLocked, Reply::Value(state)) => UnlockState::QueueSeen { state },
            (UnlockState::QueueSeen { state }, Reply::Exchanged(_)) => {
                if is_locked(state) {
                    UnlockState::Done
                } else {
                    self
                }
            },
            (UnlockState::QueueSeen { state }, Reply::Refused(found)) => {
                if is_locked(state) {
                    UnlockState::QueueSeen { state: found }
                } else {
                    self
                }
            },
            (UnlockState::QueueSeen { state }, Reply::Value(next)) => {
                if is_locked(state) {
                    self
                } else {
                    UnlockState::Popping { state, next }
                }
            },
            (UnlockState::Popping { state, .. }, Reply::Exchanged(_)) => {
                UnlockState::Waking { node: head_of(state) }
            },
            (UnlockState::Popping { .. }, Reply::Refused(found)) => {
                UnlockState::QueueSeen { state: found }
            },
            (UnlockState::Waking { .. }, Reply::Done) => UnlockState::Done,
            _ => self,
        }
    }

    /// The next request of a thread that releases the mutex, as `asks` says.
    pub fn request(&self) -> (request: UnlockRequest)
        ensures
            request == self.asks(),
    {
        match *self {
            UnlockState::Start => UnlockRequest::FetchSub { amount: MUTEX_LOCK },
            UnlockState::Reload => UnlockRequest::Word(Access::Load),
            UnlockState::Seen { state } => UnlockRequest::Word(
                Access::CompareExchangeWeak {
                    current: state,
                    new: with_queue_lock(state),
                    success: MemoryOrder::Acquire,
                },
            ),
            UnlockState::QueueLocked => UnlockRequest::Word(Access::Load),
            UnlockState::QueueSeen { state } => {
                if locked(state) {
                    UnlockRequest::Word(
                        Access::CompareExchangeWeak {
                            current: state,
                            new: without_queue_lock(state),
                            success: MemoryOrder::Release,
                        },
                    )
                } else {
                    UnlockRequest::ReadNext { node: head(state) }
                }
            },
            UnlockState::Popping { state, next } => UnlockRequest::Word(
                Access::CompareExchangeWeak {
                    current: state,
                    new: next,
                    success: MemoryOrder::Release,
                },
            ),
            UnlockState::Waking { node } => UnlockRequest::Unpark { node },
            UnlockState::Done => UnlockRequest::Nothing,
        }
    }

    /// Takes the reply to the last request in, as `after` says.
    pub fn reply(self, reply: Reply<usize>) -> (next: UnlockState)
        ensures
            next == self.after(reply),
    {
        match self {
            UnlockState::Start => match reply {
                Reply::Value(state) => {
                    if !queue_locked(state) && head(state) != 0 {
                        UnlockState::Reload
                    } else {
                        UnlockState::Done
                    }
                },
                _ => self,
            },
            UnlockState::Reload => match reply {
                Reply::Value(state) => Self::look_at(state),
                _ => self,
            },
            UnlockState::Seen { .. } => match reply {
                Reply::Exchanged(_) => UnlockState::QueueLocked,
                Reply::Refused(found) => Self::look_at(found),
                _ => self,
            },
            UnlockState::QueueLocked => match reply {
                Reply::Value(state) => UnlockState::QueueSeen { state },
                _ => self,
            },
            UnlockState::QueueSeen { state } => {
                if locked(state) {
                    match reply {
                        Reply::Exchanged(_) => UnlockState::Done,
                        Reply::Refused(found) => UnlockState::QueueSeen { state: found },
                        _ => self,
                    }
                } else {
                    match reply {
                        Reply::Value(next) => UnlockState::Popping { state, next },
                        _ => self,
                    }
                }
            },
            UnlockState::Popping { state, .. } => match reply {
                Reply::Exchanged(_) => UnlockState::Waking { node: head(state) },
                Reply::Refused(found) => UnlockState::QueueSeen { state: found },
                _ => self,
            },
            UnlockState::Waking { .. } => match reply {
                Reply::Done => UnlockState::Done,
                _ => self,
            },
            UnlockState::Done => UnlockState::Done,
        }
    }

    /// Decides whether to go for the queue, as `on_sight` says.
    fn look_at(state: usize) -> (next: UnlockState)
        ensures
            next == Self::on_sight(state),
    {
        if queue_locked(state) || head(state) == 0 {
            UnlockState::Done
        } else {
            UnlockState::Seen { state }
        }
    }
}

/// The errand of one subtraction from a word.
struct Subtract<C> {
    cell: C,
    amount: usize,
}

impl<C: Operations<usize>> Errand<usize, C> for Subtract<C> {
    closed spec fn may_get(self, reply: Reply<usize>) -> bool {
        reply matches Reply::Value(previous) && self.cell.subtracts(
            self.amount,
            Ordering::Release,
            previous,
        )
    }

    fn run<
        L: FnOnce(C, Ordering) -> usize,
        S: FnOnce(C, usize, Ordering),
        W: FnOnce(C, usize, Ordering) -> usize,
        X: FnOnce(C, usize, usize, Ordering, Ordering) -> Result<usize, usize>,
        D: FnOnce(C, usize, Ordering) -> usize,
    >(self, _load: L, _store: S, _swap: W, _exchange: X, subtract: D) -> (reply: Reply<usize>) {
        Reply::Value(subtract(self.cell, self.amount, Ordering::Release))
    }
}

/// Subtracts from a word, with release ordering, and returns what it held before.
///
/// What a shared word held is up to every thread that shares it; the operation that gave it is
/// not.
pub fn perform_fetch_sub<C: Cell<usize>>(cell: C, amount: usize) -> (reply: Reply<usize>)
    ensures
        reply matches Reply::Value(previous) && cell.subtracts(
            amount,
            Ordering::Release,
            previous,
        ),
{
    C::send(Subtract { cell, amount })
}

} // verus!
