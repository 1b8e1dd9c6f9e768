//! Putting one thread to sleep until another wakes it, over a single atomic cell.

use crate::access::{answers, perform_on_parker, Access, MemoryOrder, Reply};
use vstd::prelude::*;

verus! {

/// Nobody waits and nobody has woken anybody.
pub const EMPTY: i32 = 0;

/// The thread waits, or is about to.
pub const PARKED: i32 = 1;

/// The thread was woken.
pub const UNPARKED: i32 = 2;

/// The cell of a parker, as one thread sees it when no other is looking.
#[derive(Debug, PartialEq, Eq)]
pub struct Parker {
    pub state: i32,
}

impl Parker {
    /// A parker that nobody has used yet.
    pub fn new() -> (parker: Parker)
        ensures
            parker.state == EMPTY,
    {
        Parker { state: EMPTY }
    }

    /// Marks the thread as woken. Returns whether it may be asleep and has to be woken.
    pub fn unpark(&mut self) -> (wake: bool)
        ensures
            final(self).state == UNPARKED,
            wake == (old(self).state == PARKED),
            answers(
                old(self).state,
                UnparkState::Start.asks()->Cell_0,
                final(self).state,
                Reply::Value(old(self).state),
            ),
            wake == (UnparkState::Start.after(Reply::Value(old(self).state)) is Waking),
    {
        match perform_on_parker(&mut self.state, Access::Swap { new: UNPARKED }) {
            Reply::Value(previous) => previous == PARKED,
            _ => false,
        }
    }

    /// Marks the thread as waiting, unless it was woken already. Returns whether it has to
    /// wait.
    pub fn park(&mut self) -> (wait: bool)
        ensures
            wait == (old(self).state == EMPTY),
            final(self).state == (if old(self).state == EMPTY { PARKED } else { old(self).state }),
            wait ==> answers(
                old(self).state,
                ParkState::Claim.asks()->Cell_0,
                final(self).state,
                Reply::Exchanged(old(self).state),
            ),
            !wait ==> ParkState::Start.after(Reply::Value(old(self).state)) is Done,
    {
        if self.state == EMPTY {
            self.state = PARKED;
            true
        } else {
            false
        }
    }
}

/// How far a thread has come in parking itself.
#[derive(Debug, PartialEq, Eq)]
pub enum ParkState {
    /// About to read the cell.
    Start,
    /// Has seen an empty cell: about to claim it.
    Claim,
    /// Has claimed the cell: about to wait.
    Waiting,
    /// Through.
    Done,
}

/// What a thread that parks itself asks for next.
#[derive(Debug, PartialEq, Eq)]
pub enum ParkRequest {
    /// An access to the cell.
    Cell(Access<i32>),
    /// To be blocked until the cell no longer says that the thread is parked.
    Wait,
    /// Nothing: the thread was woken.
    Nothing,
}

impl ParkState {
    /// What the thread asks for next.
    pub open spec fn asks(self) -> ParkRequest {
        match self {
            ParkState::Start => ParkRequest::Cell(Access::Load),
            ParkState::Claim => ParkRequest::Cell(
                Access::CompareExchangeWeak {
                    current: EMPTY,
                    new: PARKED,
                    success: MemoryOrder::Acquire,
                },
            ),
            ParkState::Waiting => ParkRequest::Wait,
            ParkState::Done => ParkRequest::Nothing,
        }
    }

    /// Where a thread goes that has seen this value in the cell.
    pub open spec fn on_sight(state: i32) -> ParkState {
        if state == EMPTY {
            ParkState::Claim
        } else {
            ParkState::Done
        }
    }

    /// Where the reply to that request takes the thread. A reply of another kind changes
    /// nothing.
    pub open spec fn after(self, reply: Reply<i32>) -> ParkState {
        match (self, reply) {
            (ParkState::Start, Reply::Value(state)) => Self::on_sight(state),
            (ParkState::Claim, Reply::Exchanged(_)) => ParkState::Waiting,
            (ParkState::Claim, Reply::Refused(found)) => Self::on_sight(found),
            (ParkState::Waiting, Reply::Done) => ParkState::Done,
            _ => self,
        }
    }

    /// The next request of a thread that parks itself, as `asks` says.
    pub fn request(&self) -> (request: ParkRequest)
        ensures
            request == self.asks(),
    {
        match *self {
            ParkState::Start => ParkRequest::Cell(Access::Load),
            ParkState::Claim => ParkRequest::Cell(
                Access::CompareExchangeWeak {
                    current: EMPTY,
                    new: PARKED,
                    success: MemoryOrder::Acquire,
                },
            ),
            ParkState::Waiting => ParkRequest::Wait,
            ParkState::Done => ParkRequest::Nothing,
        }
    }

    /// Takes the reply to the last request in, as `after` says.
    pub fn reply(self, reply: Reply<i32>) -> (next: ParkState)
        ensures
            next == self.after(reply),
    {
        match self {
            ParkState::Start => match reply {
                Reply::Value(state) => Self::look_at(state),
                _ => self,
            },
            ParkState::Claim => match reply {
                Reply::Exchanged(_) => ParkState::Waiting,
                Reply::Refused(found) => Self::look_at(found),
                _ => self,
            },
            ParkState::Waiting => match reply {
                Reply::Done => ParkState::Done,
                _ => self,
            },
            ParkState::Done => ParkState::Done,
        }
    }

    /// Decides whether to claim the cell, as `on_sight` says.
    fn look_at(state: i32) -> (next: ParkState)
        ensures
            next == Self::on_sight(state),
    {
        if state == EMPTY {
            ParkState::Claim
        } else {
            ParkState::Done
        }
    }
}

/// How far a parked thread has come in waiting.
#[derive(Debug, PartialEq, Eq)]
pub enum WaitState {
    /// About to read the cell.
    Recheck,
    /// Has seen itself parked: about to block.
    Blocked,
    /// Through.
    Done,
}

/// What a parked thread asks for next.
#[derive(Debug, PartialEq, Eq)]
pub enum WaitRequest {
    /// An access to the cell.
    Cell(Access<i32>),
    /// To be blocked while the cell holds this value, or for a while.
    Block { expected: i32 },
    /// Nothing: the cell changed.
    Nothing,
}

impl WaitState {
    /// What the thread asks for next.
    pub open spec fn asks(self) -> WaitRequest {
        match self {
            WaitState::Recheck => WaitRequest::Cell(Access::Load),
            WaitState::Blocked => WaitRequest::Block { expected: PARKED },
            WaitState::Done => WaitRequest::Nothing,
        }
    }

    /// Where the reply to that request takes the thread. A reply of another kind changes
    /// nothing.
    pub open spec fn after(self, reply: Reply<i32>) -> WaitState {
        match (self, reply) {
            (WaitState::Recheck, Reply::Value(state)) => {
                if state == PARKED {
                    WaitState::Blocked
                } else {
                    WaitState::Done
                }
            },
            (WaitState::Blocked, Reply::Done) => WaitState::Recheck,
            _ => self,
        }
    }

    /// The next request of a parked thread, as `asks` says.
    pub fn request(&self) -> (request: WaitRequest)
        ensures
            request == self.asks(),
    {
        match *self {
            WaitState::Recheck => WaitRequest::Cell(Access::Load),
            WaitState::Blocked => WaitRequest::Block { expected: PARKED },
            WaitState::Done => WaitRequest::Nothing,
        }
    }

    /// Takes the reply to the last request in, as `after` says.
    pub fn reply(self, reply: Reply<i32>) -> (next: WaitState)
        ensures
            next == self.after(reply),
    {
        match self {
            WaitState::Recheck => match reply {
                Reply::Value(state) => {
                    if state == PARKED {
                        WaitState::Blocked
                    } else {
                        WaitState::Done
                    }
                },
                _ => self,
            },
            WaitState::Blocked => match reply {
                Reply::Done => WaitState::Recheck,
                _ => self,
            },
            WaitState::Done => WaitState::Done,
        }
    }
}

/// How far a thread has come in unparking another.
#[derive(Debug, PartialEq, Eq)]
pub enum UnparkState {
    /// About to mark the other thread as woken.
    Start,
    /// The other thread may be asleep: about to wake it.
    Waking,
    /// Through.
    Done,
}

/// What a thread that unparks another asks for next.
#[derive(Debug, PartialEq, Eq)]
pub enum UnparkRequest {
    /// An access to the cell.
    Cell(Access<i32>),
    /// The thread that is blocked on the cell to be woken.
    Wake,
    /// Nothing: the other thread is awake.
    Nothing,
}

impl UnparkState {
    /// What the thread asks for next.
    pub open spec fn asks(self) -> UnparkRequest {
        match self {
            UnparkState::Start => UnparkRequest::Cell(Access::Swap { new: UNPARKED }),
            UnparkState::Waking => UnparkRequest::Wake,
            UnparkState::Done => UnparkRequest::Nothing,
        }
    }

    /// Where the reply to that request takes the thread. A reply of another kind changes
    /// nothing.
    pub open spec fn after(self, reply: Reply<i32>) -> UnparkState {
        match (self, reply) {
            (UnparkState::Start, Reply::Value(previous)) => {
                if previous == PARKED {
                    UnparkState::Waking
                } else {
                    UnparkState::Done
                }
            },
            (UnparkState::Waking, Reply::Done) => UnparkState::Done,
            _ => self,
        }
    }

    /// The next request of a thread that unparks another, as `asks` says.
    pub fn request(&self) -> (request: UnparkRequest)
        ensures
            request == self.asks(),
    {
        match *self {
            UnparkState::Start => UnparkRequest::Cell(Access::Swap { new: UNPARKED }),
            UnparkState::Waking => UnparkRequest::Wake,
            UnparkState::Done => UnparkRequest::Nothing,
        }
    }

    /// Takes the reply to the last request in, as `after` says.
    pub fn reply(self, reply: Reply<i32>) -> (next: UnparkState)
        ensures
            next == self.after(reply),
    {
        match self {
            UnparkState::Start => match reply {
                Reply::Value(previous) => {
                    if previous == PARKED {
                        UnparkState::Waking
                    } else {
                        UnparkState::Done
                    }
                },
                _ => self,
            },
            UnparkState::Waking => match reply {
                Reply::Done => UnparkState::Done,
                _ => self,
            },
            UnparkState::Done => UnparkState::Done,
        }
    }
}

} // verus!
