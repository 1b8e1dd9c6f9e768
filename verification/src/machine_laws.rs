//! What each machine asks for and what it makes of the reply, bit by bit and value by value.

use crate::access::{Access, MemoryOrder, Reply};
use crate::event::{get_event_handle, HandleReply, HandleRequest, HandleState};
use crate::lock::{try_lock_access, LockRequest, LockState};
use crate::parker::{
    ParkRequest, ParkState, UnparkRequest, UnparkState, WaitRequest, WaitState,
};
use crate::unlock::{UnlockRequest, UnlockState};
use crate::word::law_word_is_its_bits;
use vstd::prelude::*;

verus! {

/// The exchange of one value for another, ordered so.
pub open spec fn exchange<V>(current: V, new: V, success: MemoryOrder) -> Access<V> {
    Access::CompareExchangeWeak { current, new, success }
}

/// A thread that takes the mutex exchanges the free word for the mutex bit, or sets that bit in a
/// word in which it is clear. While it is set and there is no head it spins 30 times in each of 4
/// rounds and yields in 26 more; else it queues up in front of the head.
pub proof fn law_lock_requests(state: LockState, request: LockRequest, first: Access<usize>)
    requires
        call_ensures(LockState::request, (&state,), request),
        call_ensures(try_lock_access, (), first),
    ensures
        first == exchange(0usize, 1usize, MemoryOrder::Acquire),
        state is Start ==> request == LockRequest::Word(first),
        state is Reload ==> request == LockRequest::Word(Access::Load),
        state matches LockState::Seen { state: word, spin_count } ==> {
            &&& request is Word <==> word & 1 == 0
            &&& request matches LockRequest::Word(access) ==> access == exchange(
                word,
                word | 1,
                MemoryOrder::Acquire,
            )
            &&& request is Spin <==> word & 1 != 0 && word & !3 == 0 && spin_count < 4
            &&& request matches LockRequest::Spin { times } ==> times == 30
            &&& request is Yield <==> word & 1 != 0 && word & !3 == 0 && 4 <= spin_count < 30
            &&& request is Enqueue <==> word & 1 != 0 && (word & !3 != 0 || spin_count >= 30)
            &&& request matches LockRequest::Enqueue { next } ==> next == word & !3
        },
        state is Queued <==> request is Park,
        state is Held <==> request is Nothing,
{
    if let LockState::Seen { state: word, spin_count } = state {
        law_word_is_its_bits(word);
    }
    law_word_is_its_bits(0);
    assert(0usize | 1 == 1) by (bit_vector);
}

/// A node is put on the queue by an exchange of the word that was seen for the address of the node
/// with the two flags as they were.
pub proof fn law_lock_publishes(
    word: usize,
    spin_count: usize,
    node: usize,
    access: Access<usize>,
)
    requires
        node % 4 == 0,
        call_ensures(
            LockState::publish,
            (&LockState::Seen { state: word, spin_count }, node),
            access,
        ),
    ensures
        access == exchange(word, node | (word & 3), MemoryOrder::Release),
{
    law_word_is_its_bits(word);
}

/// A thread holds the mutex exactly after an exchange that set the mutex bit, and has queued up
/// exactly after an exchange that put its node on the queue. After a refusal it goes by the word
/// that was found, or by a fresh look if that was its first try; after each pause it looks again
/// and counts one more round; after it was woken it looks again and counts from 0. Whatever does
/// not answer the request changes nothing.
pub proof fn law_lock_replies(
    state: LockState,
    request: LockRequest,
    reply: Reply<usize>,
    next: LockState,
)
    requires
        call_ensures(LockState::request, (&state,), request),
        call_ensures(LockState::reply, (state, reply), next),
    ensures
        next is Held <==> state is Held || (request is Word && reply is Exchanged && !(
        state is Reload)),
        next is Queued && !(state is Queued) <==> request is Enqueue && reply is Exchanged,
        state is Start && reply is Refused ==> next == (LockState::Reload { spin_count: 0 }),
        state matches LockState::Reload { spin_count } ==> (reply matches Reply::Value(word)
            ==> next == (LockState::Seen { state: word, spin_count })),
        state matches LockState::Seen { spin_count, .. } ==> {
            &&& (request is Word || request is Enqueue) && reply is Refused ==> next == (
            LockState::Seen { state: reply->Refused_0, spin_count })
            &&& (request is Spin || request is Yield) && reply is Done ==> next == (
            LockState::Reload { spin_count: (spin_count + 1) as usize })
            &&& (request is Spin || request is Yield) ==> spin_count + 1 <= 30
        },
        request is Park && reply is Done ==> next == (LockState::Reload { spin_count: 0 }),
        next != state ==> match request {
            LockRequest::Word(Access::Load) => reply is Value,
            LockRequest::Word(_) => reply is Exchanged || reply is Refused,
            LockRequest::Enqueue { .. } => reply is Exchanged || reply is Refused,
            LockRequest::Nothing => next is Held,
            _ => reply is Done,
        },
        state is Held ==> next == state,
{
}

/// A thread that releases the mutex subtracts its bit. Once it sees the word again it locks a free
/// queue by setting the queue bit, gives the queue up by clearing that bit in a word with the
/// mutex bit, and else takes the head off by an exchange of the word for what the head leads to.
pub proof fn law_unlock_requests(state: UnlockState, request: UnlockRequest)
    requires
        call_ensures(UnlockState::request, (&state,), request),
    ensures
        state is Start <==> request is FetchSub,
        request matches UnlockRequest::FetchSub { amount } ==> amount == 1,
        state is Reload || state is QueueLocked ==> request == UnlockRequest::Word(Access::Load),
        state matches UnlockState::Seen { state: word } ==> request == UnlockRequest::Word(
            exchange(word, word | 2, MemoryOrder::Acquire),
        ),
        state matches UnlockState::QueueSeen { state: word } ==> {
            &&& request is Word <==> word & 1 != 0
            &&& request matches UnlockRequest::Word(access) ==> access == exchange(
                word,
                word & !2,
                MemoryOrder::Release,
            )
            &&& request is ReadNext <==> word & 1 == 0
            &&& request matches UnlockRequest::ReadNext { node } ==> node == word & !3
        },
        state matches UnlockState::Popping { state: word, next } ==> request == UnlockRequest::Word(
            exchange(word, next, MemoryOrder::Release),
        ),
        state matches UnlockState::Waking { node } ==> request == (UnlockRequest::Unpark { node }),
        state is Done <==> request is Nothing,
{
    match state {
        UnlockState::Seen { state: word } => law_word_is_its_bits(word),
        UnlockState::QueueSeen { state: word } => law_word_is_its_bits(word),
        _ => {},
    }
}

/// A thread that releases the mutex goes for the queue exactly when it sees a word with a head and
/// without the queue bit, and is through when it sees another. Once the queue is its own it goes
/// by what the word was found to be, until it has given the queue up or has taken off the head,
/// which it then wakes. Whatever does not answer the request changes nothing.
pub proof fn law_unlock_replies(
    state: UnlockState,
    request: UnlockRequest,
    reply: Reply<usize>,
    next: UnlockState,
)
    requires
        call_ensures(UnlockState::request, (&state,), request),
        call_ensures(UnlockState::reply, (state, reply), next),
    ensures
        request is FetchSub ==> (reply matches Reply::Value(word) ==> next == (if word & 2 == 0
            && word & !3 != 0 {
            UnlockState::Reload
        } else {
            UnlockState::Done
        })),
        state is Reload ==> (reply matches Reply::Value(word) ==> next == (if word & 2 == 0 && word
            & !3 != 0 {
            UnlockState::Seen { state: word }
        } else {
            UnlockState::Done
        })),
        state is Seen ==> (reply matches Reply::Refused(word) ==> next == (if word & 2 == 0 && word
            & !3 != 0 {
            UnlockState::Seen { state: word }
        } else {
            UnlockState::Done
        })),
        next is QueueLocked && !(state is QueueLocked) <==> state is Seen && reply is Exchanged,
        state is QueueLocked ==> (reply matches Reply::Value(word) ==> next == (
        UnlockState::QueueSeen { state: word })),
        state matches UnlockState::QueueSeen { state: word } ==> {
            &&& request is Word && reply is Exchanged ==> next is Done
            &&& request is Word && reply is Refused ==> next == (UnlockState::QueueSeen {
                state: reply->Refused_0,
            })
            &&& request is ReadNext && reply is Value ==> next == (UnlockState::Popping {
                state: word,
                next: reply->Value_0,
            })
        },
        state matches UnlockState::Popping { state: word, .. } ==> {
            &&& reply is Exchanged ==> next == (UnlockState::Waking { node: word & !3 })
            &&& reply is Refused ==> next == (UnlockState::QueueSeen { state: reply->Refused_0 })
        },
        request is Unpark && reply is Done ==> next is Done,
        next != state ==> match request {
            UnlockRequest::FetchSub { .. } => reply is Value,
            UnlockRequest::Word(Access::Load) => reply is Value,
            UnlockRequest::Word(_) => reply is Exchanged || reply is Refused,
            UnlockRequest::ReadNext { .. } => reply is Value,
            UnlockRequest::Unpark { .. } => reply is Done,
            UnlockRequest::Nothing => next is Done,
        },
        state is Done ==> next == state,
{
    match reply {
        Reply::Value(word) => law_word_is_its_bits(word),
        Reply::Refused(word) => law_word_is_its_bits(word),
        _ => {},
    }
    if let UnlockState::Popping { state: word, next } = state {
        law_word_is_its_bits(word);
    }
}

/// A thread that parks itself reads its cell and exchanges an empty one, and only that, for a
/// parked one. It waits exactly after it has done so, is through when it sees another value, and
/// when it has waited.
pub proof fn law_park(state: ParkState, request: ParkRequest, reply: Reply<i32>, next: ParkState)
    requires
        call_ensures(ParkState::request, (&state,), request),
        call_ensures(ParkState::reply, (state, reply), next),
    ensures
        state is Start ==> request == ParkRequest::Cell(Access::Load),
        state is Claim ==> request == ParkRequest::Cell(
            exchange(0i32, 1i32, MemoryOrder::Acquire),
        ),
        state is Waiting <==> request is Wait,
        state is Done <==> request is Nothing,
        state is Start ==> (reply matches Reply::Value(found) ==> next == (if found == 0 {
            ParkState::Claim
        } else {
            ParkState::Done
        })),
        state is Claim ==> (reply matches Reply::Refused(found) ==> next == (if found == 0 {
            ParkState::Claim
        } else {
            ParkState::Done
        })),
        next is Waiting && !(state is Waiting) <==> state is Claim && reply is Exchanged,
        state is Waiting && reply is Done ==> next is Done,
        next != state ==> match request {
            ParkRequest::Cell(Access::Load) => reply is Value,
            ParkRequest::Cell(_) => reply is Exchanged || reply is Refused,
            ParkRequest::Wait => reply is Done,
            ParkRequest::Nothing => next is Done,
        },
        state is Done ==> next is Done,
{
}

/// A parked thread reads its cell, blocks while that says parked, looks again after each block, and
/// is through when it sees another value.
pub proof fn law_wait(state: WaitState, request: WaitRequest, reply: Reply<i32>, next: WaitState)
    requires
        call_ensures(WaitState::request, (&state,), request),
        call_ensures(WaitState::reply, (state, reply), next),
    ensures
        state is Recheck ==> request == WaitRequest::Cell(Access::Load),
        state is Blocked ==> request == (WaitRequest::Block { expected: 1 }),
        state is Done ==> request is Nothing,
        state is Recheck ==> (reply matches Reply::Value(found) ==> next == (if found == 1 {
            WaitState::Blocked
        } else {
            WaitState::Done
        })),
        state is Blocked && reply is Done ==> next is Recheck,
        next != state ==> match request {
            WaitRequest::Cell(_) => reply is Value,
            WaitRequest::Block { .. } => reply is Done,
            WaitRequest::Nothing => next is Done,
        },
        state is Done ==> next is Done,
{
}

/// A thread that unparks another writes into its cell that it was woken, and wakes it exactly when
/// the cell said parked before.
pub proof fn law_unpark(
    state: UnparkState,
    request: UnparkRequest,
    reply: Reply<i32>,
    next: UnparkState,
)
    requires
        call_ensures(UnparkState::request, (&state,), request),
        call_ensures(UnparkState::reply, (state, reply), next),
    ensures
        state is Start ==> request == UnparkRequest::Cell(Access::Swap { new: 2 }),
        state is Waking <==> request is Wake,
        state is Done <==> request is Nothing,
        state is Start ==> (reply matches Reply::Value(previous) ==> next == (if previous == 1 {
            UnparkState::Waking
        } else {
            UnparkState::Done
        })),
        state is Waking && reply is Done ==> next is Done,
        next != state ==> match request {
            UnparkRequest::Cell(_) => reply is Value,
            UnparkRequest::Wake => reply is Done,
            UnparkRequest::Nothing => next is Done,
        },
        state is Done ==> next is Done,
{
}

/// A thread that gets the event handle starts with a look at the shared state. It claims the state
/// by an exchange of 0 for 1, creates a handle with the rights to read and to write, keeps what
/// came of that, and publishes it by a store of 2.
pub proof fn law_handle_requests(state: HandleState, request: HandleRequest, first: HandleState)
    requires
        call_ensures(HandleState::request, (&state,), request),
        call_ensures(get_event_handle, (), first),
    ensures
        first is Reload,
        state is Reload ==> request == HandleRequest::Word(Access::Load),
        state is Claim ==> request == HandleRequest::Word(
            exchange(0usize, 1usize, MemoryOrder::Acquire),
        ),
        state is Waiting <==> request is Yield,
        state is Creating <==> request is Create,
        request matches HandleRequest::Create { access } ==> access == 0x80000000 + 0x40000000,
        state is Keeping <==> request is Keep,
        state is Keeping ==> request->Keep_handle == state->Keeping_handle,
        state is Publishing ==> request == HandleRequest::Word(Access::Store { new: 2 }),
        state is Reading <==> request is Read,
        state is Done <==> request is Nothing,
{
}

/// A thread that gets the event handle claims the state when it sees a 0 there, reads what was kept
/// when it sees a 2, and waits when it sees another value. What it keeps is the very handle that
/// was created, if the status of that was 0, and none otherwise; what it has in the end is what it
/// has read. Whatever does not answer the request changes nothing.
pub proof fn law_handle_replies(
    state: HandleState,
    request: HandleRequest,
    reply: HandleReply,
    next: HandleState,
)
    requires
        call_ensures(HandleState::request, (&state,), request),
        call_ensures(HandleState::reply, (state, reply), next),
    ensures
        state is Reload ==> (reply matches HandleReply::Word(Reply::Value(found)) ==> {
            &&& next is Claim <==> found == 0
            &&& next is Reading <==> found == 2
            &&& next is Waiting <==> found != 0 && found != 2
        }),
        state is Claim ==> (reply matches HandleReply::Word(Reply::Refused(found)) ==> {
            &&& next is Claim <==> found == 0
            &&& next is Reading <==> found == 2
            &&& next is Waiting <==> found != 0 && found != 2
        }),
        state is Claim ==> (reply matches HandleReply::Word(Reply::Exchanged(_))
            ==> next is Creating),
        state is Waiting && reply == HandleReply::Word(Reply::Done) ==> next is Reload,
        state is Creating ==> (reply matches HandleReply::Created { status, handle } ==> {
            &&& next is Keeping
            &&& status == 0 ==> next->Keeping_handle == Some(handle)
            &&& status != 0 ==> next->Keeping_handle == None::<usize>
        }),
        state is Keeping && reply == HandleReply::Word(Reply::Done) ==> next is Publishing,
        state is Publishing && reply == HandleReply::Word(Reply::Done) ==> next is Reading,
        state is Reading ==> (reply matches HandleReply::Kept { handle } ==> next is Done
            && next->Done_handle == handle),
        next != state ==> match request {
            HandleRequest::Word(Access::Load) => reply matches HandleReply::Word(Reply::Value(_)),
            HandleRequest::Word(Access::CompareExchangeWeak { .. }) => {
                reply matches HandleReply::Word(word) && (word is Exchanged || word is Refused)
            },
            HandleRequest::Create { .. } => reply is Created,
            HandleRequest::Read => reply is Kept,
            HandleRequest::Nothing => next == state,
            _ => reply == HandleReply::Word(Reply::Done),
        },
{
}

} // verus!
