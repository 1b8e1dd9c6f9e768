//! Creating the one event handle that all parkers of a process share.

use crate::access::{Access, MemoryOrder, Reply};
use vstd::prelude::*;

verus! {

/// Nobody has asked for the handle yet.
pub const UNINITIALIZED: usize = 0;

/// Some thread is creating the handle.
pub const INITIALIZING: usize = 1;

/// The handle is there, or could not be created.
pub const INITIALIZED: usize = 2;

/// The rights that the handle is created with: to read and to write.
pub const EVENT_ACCESS: u32 = 0x80000000 | 0x40000000;

/// How far a thread has come in getting the handle.
#[derive(Debug, PartialEq, Eq)]
pub enum HandleState {
    /// About to read the shared state.
    Reload,
    /// Has seen that nobody has asked yet: about to take that on.
    Claim,
    /// Has seen another thread at work: about to let it.
    Waiting,
    /// About to create the handle.
    Creating,
    /// About to keep what came of that.
    Keeping { handle: Option<usize> },
    /// About to tell the others.
    Publishing,
    /// About to read what was kept.
    Reading,
    /// Has it.
    Done { handle: Option<usize> },
}

/// What a thread that gets the handle asks for next.
#[derive(Debug, PartialEq, Eq)]
pub enum HandleRequest {
    /// An access to the shared state.
    Word(Access<usize>),
    /// The rest of this time slice to be given away.
    Yield,
    /// A handle to be created with these rights.
    Create { access: u32 },
    /// This to be kept.
    Keep { handle: Option<usize> },
    /// What was kept.
    Read,
    /// Nothing.
    Nothing,
}

/// What came of a request.
#[derive(Debug, PartialEq, Eq)]
#[allow(inconsistent_fields)]
pub enum HandleReply {
    /// Of an access to the shared state, or of one that returns nothing.
    Word(Reply<usize>),
    /// Of a creation: a status, 0 when all is well, and then a handle.
    Created { status: u32, handle: usize },
    /// Of reading what was kept.
    Kept { handle: Option<usize> },
}

/// The handle, if it could be created.
pub open spec fn created(status: u32, handle: usize) -> Option<usize> {
    if status == 0 {
        Some(handle)
    } else {
        None
    }
}

/// A thread that is about to get the handle.
pub fn get_event_handle() -> (start: HandleState)
    ensures
        start == HandleState::Reload,
{
    HandleState::Reload
}

impl HandleState {
    /// What the thread asks for next.
    pub open spec fn asks(self) -> HandleRequest {
        match self {
            HandleState::Reload => HandleRequest::Word(Access::Load),
            HandleState::Claim => HandleRequest::Word(
                Access::CompareExchangeWeak {
                    current: UNINITIALIZED,
                    new: INITIALIZING,
                    success: MemoryOrder::Acquire,
                },
            ),
            HandleState::Waiting => HandleRequest::Yield,
            HandleState::Creating => HandleRequest::Create { access: 0xc0000000 },
            HandleState::Keeping { handle } => HandleRequest::Keep { handle },
            HandleState::Publishing => HandleRequest::Word(Access::Store { new: INITIALIZED }),
            HandleState::Reading => HandleRequest::Read,
            HandleState::Done { .. } => HandleRequest::Nothing,
        }
    }

    /// Where a thread goes that has seen this in the shared state.
    pub open spec fn on_sight(state: usize) -> HandleState {
        if state == UNINITIALIZED {
            HandleState::Claim
        } else if state == INITIALIZED {
            HandleState::Reading
        } else {
            HandleState::Waiting
        }
    }

    /// Where the reply to that request takes the thread. A reply of another kind changes
    /// nothing.
    pub open spec fn after(self, reply: HandleReply) -> HandleState {
        match (self, reply) {
            (HandleState::Reload, HandleReply::Word(Reply::Value(state))) => Self::on_sight(state),
            (HandleState::Claim, HandleReply::Word(Reply::Exchanged(_))) => HandleState::Creating,
            (HandleState::Claim, HandleReply::Word(Reply::Refused(found))) => Self::on_sight(found),
            (HandleState::Waiting, HandleReply::Word(Reply::Done)) => HandleState::Reload,
            (HandleState::Creating, HandleReply::Created { status, handle }) => {
                HandleState::Keeping { handle: created(status, handle) }
            },
            (HandleState::Keeping { .. }, HandleReply::Word(Reply::Done)) => {
                HandleState::Publishing
            },
            (HandleState::Publishing, HandleReply::Word(Reply::Done)) => HandleState::Reading,
            (HandleState::Reading, HandleReply::Kept { handle }) => HandleState::Done { handle },
            _ => self,
        }
    }

    /// The next request of a thread that gets the handle, as `asks` says.
    pub fn request(&self) -> (request: HandleRequest)
        ensures
            request == self.asks(),
    {
        match *self {
            HandleState::Reload => HandleRequest::Word(Access::Load),
            HandleState::Claim => HandleRequest::Word(
                Access::CompareExchangeWeak {
                    current: UNINITIALIZED,
                    new: INITIALIZING,
                    success: MemoryOrder::Acquire,
                },
            ),
            HandleState::Waiting => HandleRequest::Yield,
            HandleState::Creating => {
                assert(EVENT_ACCESS == 0xc0000000) by (bit_vector);
                HandleRequest::Create { access: EVENT_ACCESS }
            },
            HandleState::Keeping { handle } => HandleRequest::Keep { handle },
            HandleState::Publishing => HandleRequest::Word(Access::Store { new: INITIALIZED }),
            HandleState::Reading => HandleRequest::Read,
            HandleState::Done { .. } => HandleRequest::Nothing,
        }
    }

    /// Takes the reply to the last request in, as `after` says.
    pub fn reply(self, reply: HandleReply) -> (next: HandleState)
        ensures
            next == self.after(reply),
    {
        match self {
            HandleState::Reload => match reply {
                HandleReply::Word(Reply::Value(state)) => Self::look_at(state),
                _ => self,
            },
            HandleState::Claim => match reply {
                HandleReply::Word(Reply::Exchanged(_)) => HandleState::Creating,
                HandleReply::Word(Reply::Refused(found)) => Self::look_at(found),
                _ => self,
            },
            HandleState::Waiting => match reply {
                HandleReply::Word(Reply::Done) => HandleState::Reload,
                _ => self,
            },
            HandleState::Creating => match reply {
                HandleReply::Created { status, handle } => HandleState::Keeping {
                    handle: if status == 0 {
                        Some(handle)
                    } else {
                        None
                    },
                },
                _ => self,
            },
            HandleState::Keeping { .. } => match reply {
                HandleReply::Word(Reply::Done) => HandleState::Publishing,
                _ => self,
            },
            HandleState::Publishing => match reply {
                HandleReply::Word(Reply::Done) => HandleState::Reading,
                _ => self,
            },
            HandleState::Reading => match reply {
                HandleReply::Kept { handle } => HandleState::Done { handle },
                _ => self,
            },
            HandleState::Done { .. } => self,
        }
    }

    /// Decides what to do about the shared state, as `on_sight` says.
    fn look_at(state: usize) -> (next: HandleState)
        ensures
            next == Self::on_sight(state),
    {
        if state == UNINITIALIZED {
            HandleState::Claim
        } else if state == INITIALIZED {
            HandleState::Reading
        } else {
            HandleState::Waiting
        }
    }
}

} // verus!
