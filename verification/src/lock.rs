//! Taking the mutex.

use crate::access::{comes_from, perform_on_word, Access, MemoryOrder, Reply};
use crate::cell::Cell;
use crate::word::{
    head, head_of, is_locked, is_node_address, is_queue_locked, locked, pack, with_head, with_lock,
    MUTEX_LOCK,
};
use vstd::prelude::*;

verus! {

/// How many rounds of waiting for an empty queue's holder burn processor time.
pub const SPIN_CPU: usize = 4;

/// How many further rounds give the processor away.
pub const SPIN_THREAD: usize = 30 - SPIN_CPU;

/// How many times the processor is told to relax in one round.
pub const SPIN_CPU_COUNT: usize = 30;

/// How far a thread has come in taking the mutex.
#[derive(Debug, PartialEq, Eq)]
pub enum LockState {
    /// About to try the free mutex once.
    Start,
    /// About to read the word, after so many rounds of waiting.
    Reload { spin_count: usize },
    /// Has read the word, after so many rounds of waiting.
    Seen { state: usize, spin_count: usize },
    /// Has put its node on the queue.
    Queued,
    /// Holds the mutex.
    Held,
}

/// What a thread that takes the mutex asks for next.
#[derive(Debug, PartialEq, Eq)]
pub enum LockRequest {
    /// An access to the word.
    Word(Access<usize>),
    /// So many hints to the processor that this is a spin loop.
    Spin { times: usize },
    /// The rest of this time slice to be given away.
    Yield,
    /// A fresh node that leads to `next` to be put on the queue, by the access to the word that
    /// `publish` returns for it.
    Enqueue { next: usize },
    /// The parker of the node on the queue to be waited for.
    Park,
    /// Nothing: the mutex is held.
    Nothing,
}

/// The exchange that takes the mutex when the word was seen to be `state`.
pub open spec fn acquire_from(state: usize) -> Access<usize> {
    Access::CompareExchangeWeak {
        current: state,
        new: pack(true, is_queue_locked(state), head_of(state)) as usize,
        success: MemoryOrder::Acquire,
    }
}

/// The exchange that puts a node in front of the queue when the word was seen to be `state`.
pub open spec fn enqueue_onto(state: usize, node: usize) -> Access<usize> {
    Access::CompareExchangeWeak {
        current: state,
        new: pack(is_locked(state), is_queue_locked(state), node) as usize,
        success: MemoryOrder::Release,
    }
}

/// Whether a thread that sees the mutex held goes on waiting for the word to change before it
/// queues up.
pub open spec fn keeps_spinning(state: usize, spin_count: usize) -> bool {
    head_of(state) == 0 && spin_count < SPIN_CPU + SPIN_THREAD
}

impl LockState {
    /// What the thread asks for next.
    pub open spec fn asks(self) -> LockRequest {
        match self {
            LockState::Start => LockRequest::Word(acquire_from(0)),
            LockState::Reload { .. } => LockRequest::Word(Access::Load),
            LockState::Seen { state, spin_count } => {
                if !is_locked(state) {
                    LockRequest::Word(acquire_from(state))
                } else if !keeps_spinning(state, spin_count) {
                    LockRequest::Enqueue { next: head_of(state) }
                } else if spin_count < SPIN_CPU {
                    LockRequest::Spin { times: SPIN_CPU_COUNT }
                } else {
                    LockRequest::Yield
                }
            },
            LockState::Queued => LockRequest::Park,
            LockState::Held => LockRequest::Nothing,
        }
    }

    /// Where the reply to that request takes the thread. A reply of another kind changes
    /// nothing.
    pub open spec fn after(self, reply: Reply<usize>) -> LockState {
        match (self, reply) {
            (LockState::Start, Reply::Exchanged(_)) => LockState::Held,
            (LockState::Start, Reply::Refused(_)) => LockState::Reload { spin_count: 0 },
            (LockState::Reload { spin_count }, Reply::Value(state)) => {
                LockState::Seen { state, spin_count }
            },
            (LockState::Seen { state, spin_count }, Reply::Exchanged(_)) => {
                if !is_locked(state) {
                    LockState::Held
                } else if !keeps_spinning(state, spin_count) {
                    LockState::Queued
                } else {
                    self
                }
            },
            (LockState::Seen { state, spin_count }, Reply::Refused(found)) => {
                if is_locked(state) && keeps_spinning(state, spin_count) {
                    self
                } else {
                    LockState::Seen { state: found, spin_count }
                }
            },
            (LockState::Seen { state, spin_count }, Reply::Done) => {
                if is_locked(state) && keeps_spinning(state, spin_count) {
                    LockState::Reload { spin_count: (spin_count + 1) as usize }
                } else {
                    self
                }
            },
            (LockState::Queued, Reply::Done) => LockState::Reload { spin_count: 0 },
            _ => self,
        }
    }

    /// The next request of a thread that takes the mutex, as `asks` says.
    pub fn request(&self) -> (request: LockRequest)
        ensures
            request == self.asks(),
    {
        match *self {
            LockState::Start => LockRequest::Word(try_lock_access()),
            LockState::Reload { .. } => LockRequest::Word(Access::Load),
            LockState::Seen { state, spin_count } => {
                if !locked(state) {
                    LockRequest::Word(
                        Access::CompareExchangeWeak {
                            current: state,
                            new: with_lock(state),
                            success: MemoryOrder::Acquire,
                        },
                    )
                } else if head(state) == 0 && spin_count < SPIN_CPU + SPIN_THREAD {
                    if spin_count < SPIN_CPU {
                        LockRequest::Spin { times: SPIN_CPU_COUNT }
                    } else {
                        LockRequest::Yield
                    }
                } else {
                    LockRequest::Enqueue { next: head(state) }
                }
            },
            LockState::Queued => LockRequest::Park,
            LockState::Held => LockRequest::Nothing,
        }
    }

    /// The access to the word that puts the node at this address on the queue.
    pub fn publish(&self, node: usize) -> (access: Access<usize>)
        requires
            self.asks() is Enqueue,
            is_node_address(node),
        ensures
            access == enqueue_onto(self->state, node),
    {
        let state = match *self {
            LockState::Seen { state, .. } => state,
            _ => 0,
        };
        Access::CompareExchangeWeak {
            current: state,
            new: with_head(state, node),
            success: MemoryOrder::Release,
        }
    }

    /// Takes the reply to the last request in, as `after` says.
    pub fn reply(self, reply: Reply<usize>) -> (next: LockState)
        ensures
            next == self.after(reply),
    {
        match self {
            LockState::Start => match reply {
                Reply::Exchanged(_) => LockState::Held,
                Reply::Refused(_) => LockState::Reload { spin_count: 0 },
                _ => self,
            },
            LockState::Reload { spin_count } => match reply {
                Reply::Value(state) => LockState::Seen { state, spin_count },
                _ => self,
            },
            LockState::Seen { state, spin_count } => {
                if !locked(state) {
                    match reply {
                        Reply::Exchanged(_) => LockState::Held,
                        Reply::Refused(found) => LockState::Seen { state: found, spin_count },
                        _ => self,
                    }
                } else if head(state) == 0 && spin_count < SPIN_CPU + SPIN_THREAD {
                    match reply {
                        Reply::Done => LockState::Reload { spin_count: spin_count + 1 },
                        _ => self,
                    }
                } else {
                    match reply {
                        Reply::Exchanged(_) => LockState::Queued,
                        Reply::Refused(found) => LockState::Seen { state: found, spin_count },
                        _ => self,
                    }
                }
            },
            LockState::Queued => match reply {
                Reply::Done => LockState::Reload { spin_count: 0 },
                _ => self,
            },
            LockState::Held => LockState::Held,
        }
    }
}

/// The access that takes a mutex whose word is entirely free.
pub fn try_lock_access() -> (access: Access<usize>)
    ensures
        access == acquire_from(0),
{
    Access::CompareExchangeWeak { current: 0, new: MUTEX_LOCK, success: MemoryOrder::Acquire }
}

/// Tries the word of a mutex once, by the exchange that takes it if it is entirely free. Whether
/// that takes a shared mutex is up to every thread that shares it.
pub fn try_lock<C: Cell<usize>>(word: C) -> (next: LockState)
    ensures
        next == LockState::Held || next == (LockState::Reload { spin_count: 0 }),
        exists|reply: Reply<usize>| #[trigger]
            comes_from(word, acquire_from(0), reply) && next == LockState::Start.after(reply),
{
    let ghost tried = word;
    let reply = perform_on_word(word, try_lock_access());
    assert(comes_from(tried, acquire_from(0), reply));
    LockState::Start.reply(reply)
}

} // verus!
