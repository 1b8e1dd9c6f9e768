//! What the accesses do to a cell, shared or not.

use crate::access::{
    answers, comes_from, comes_from_parker, comes_from_word, perform_on_parker, perform_on_word,
    Access, MemoryOrder, Reply,
};
use crate::cell::Operations;
use crate::lock::{acquire_from, try_lock, LockState};
use crate::unlock::perform_fetch_sub;
use std::sync::atomic::{AtomicI32, AtomicUsize, Ordering};
use vstd::prelude::*;

verus! {

/// The operations of a shared word are those of the atomic integer, and nothing that is only like
/// them: each may return what the atomic integer's own operation may return, and that alone.
pub proof fn law_shared_word_has_atomic_operations(
    cell: &AtomicUsize,
    current: usize,
    new: usize,
    order: Ordering,
    failure: Ordering,
    found: usize,
    outcome: Result<usize, usize>,
)
    ensures
        cell.loads(order, found) == call_ensures(AtomicUsize::load, (cell, order), found),
        cell.stores(new, order) == call_ensures(AtomicUsize::store, (cell, new, order), ()),
        cell.swaps(new, order, found) == call_ensures(AtomicUsize::swap, (cell, new, order), found),
        cell.exchanges(current, new, order, failure, outcome) == call_ensures(
            AtomicUsize::compare_exchange_weak,
            (cell, current, new, order, failure),
            outcome,
        ),
        cell.subtracts(new, order, found) == call_ensures(
            AtomicUsize::fetch_sub,
            (cell, new, order),
            found,
        ),
{
}

/// The same of a shared parker cell.
pub proof fn law_shared_parker_has_atomic_operations(
    cell: &AtomicI32,
    current: i32,
    new: i32,
    order: Ordering,
    failure: Ordering,
    found: i32,
    outcome: Result<i32, i32>,
)
    ensures
        cell.loads(order, found) == call_ensures(AtomicI32::load, (cell, order), found),
        cell.stores(new, order) == call_ensures(AtomicI32::store, (cell, new, order), ()),
        cell.swaps(new, order, found) == call_ensures(AtomicI32::swap, (cell, new, order), found),
        cell.exchanges(current, new, order, failure, outcome) == call_ensures(
            AtomicI32::compare_exchange_weak,
            (cell, current, new, order, failure),
            outcome,
        ),
        cell.subtracts(new, order, found) == call_ensures(
            AtomicI32::fetch_sub,
            (cell, new, order),
            found,
        ),
{
}

/// An access to a shared word is one atomic operation: a read is relaxed, a write and a swap
/// release, and an exchange may fail for no reason, has the ordering that it was given and is
/// relaxed when it fails.
pub proof fn law_access_to_shared_word(
    cell: &AtomicUsize,
    access: Access<usize>,
    reply: Reply<usize>,
)
    requires
        call_ensures(perform_on_word::<&AtomicUsize>, (cell, access), reply),
    ensures
        comes_from_word(cell, access, reply),
        access == Access::<usize>::Load ==> reply is Value && call_ensures(
            AtomicUsize::load,
            (cell, Ordering::Relaxed),
            reply->Value_0,
        ),
        access is Store ==> reply == Reply::<usize>::Done && call_ensures(
            AtomicUsize::store,
            (cell, access->Store_new, Ordering::Release),
            (),
        ),
        access is Swap ==> reply is Value && call_ensures(
            AtomicUsize::swap,
            (cell, access->Swap_new, Ordering::Release),
            reply->Value_0,
        ),
        access is CompareExchangeWeak ==> (reply is Exchanged || reply is Refused) && call_ensures(
            AtomicUsize::compare_exchange_weak,
            (
                cell,
                access->current,
                access->CompareExchangeWeak_new,
                if access->success == MemoryOrder::Acquire {
                    Ordering::Acquire
                } else {
                    Ordering::Release
                },
                Ordering::Relaxed,
            ),
            if reply is Exchanged {
                Ok(reply->Exchanged_0)
            } else {
                Err(reply->Refused_0)
            },
        ),
{
}

/// The same of a shared parker cell.
pub proof fn law_access_to_shared_parker(cell: &AtomicI32, access: Access<i32>, reply: Reply<i32>)
    requires
        call_ensures(perform_on_parker::<&AtomicI32>, (cell, access), reply),
    ensures
        comes_from_parker(cell, access, reply),
        access == Access::<i32>::Load ==> reply is Value && call_ensures(
            AtomicI32::load,
            (cell, Ordering::Relaxed),
            reply->Value_0,
        ),
        access is Store ==> reply == Reply::<i32>::Done && call_ensures(
            AtomicI32::store,
            (cell, access->Store_new, Ordering::Release),
            (),
        ),
        access is Swap ==> reply is Value && call_ensures(
            AtomicI32::swap,
            (cell, access->Swap_new, Ordering::Release),
            reply->Value_0,
        ),
        access is CompareExchangeWeak ==> (reply is Exchanged || reply is Refused) && call_ensures(
            AtomicI32::compare_exchange_weak,
            (
                cell,
                access->current,
                access->CompareExchangeWeak_new,
                if access->success == MemoryOrder::Acquire {
                    Ordering::Acquire
                } else {
                    Ordering::Release
                },
                Ordering::Relaxed,
            ),
            if reply is Exchanged {
                Ok(reply->Exchanged_0)
            } else {
                Err(reply->Refused_0)
            },
        ),
{
}

/// An access to a word that nobody else touches does what it says and nothing else. A read returns
/// what the word holds and leaves it; a write and a swap leave the new value, and a swap returns
/// the old one; an exchange takes place exactly when the word holds the expected value, leaves the
/// new value then and the old one otherwise, and returns the old one.
pub proof fn law_access_to_word_alone(
    cell: &mut usize,
    access: Access<usize>,
    reply: Reply<usize>,
)
    requires
        call_ensures(perform_on_word::<&mut usize>, (cell, access), reply),
    ensures
        answers(*old(cell), access, *final(cell), reply),
        access is Load ==> *final(cell) == *old(cell) && reply == Reply::Value(*old(cell)),
        access is Store ==> *final(cell) == access->Store_new && reply == Reply::<usize>::Done,
        access is Swap ==> *final(cell) == access->Swap_new && reply == Reply::Value(*old(cell)),
        access is CompareExchangeWeak && *old(cell) == access->current ==> *final(cell)
            == access->CompareExchangeWeak_new && reply == Reply::Exchanged(*old(cell)),
        access is CompareExchangeWeak && *old(cell) != access->current ==> *final(cell) == *old(
            cell,
        ) && reply == Reply::Refused(*old(cell)),
{
}

/// The same of a parker cell that nobody else touches.
pub proof fn law_access_to_parker_alone(cell: &mut i32, access: Access<i32>, reply: Reply<i32>)
    requires
        call_ensures(perform_on_parker::<&mut i32>, (cell, access), reply),
    ensures
        answers(*old(cell), access, *final(cell), reply),
        access is Load ==> *final(cell) == *old(cell) && reply == Reply::Value(*old(cell)),
        access is Store ==> *final(cell) == access->Store_new && reply == Reply::<i32>::Done,
        access is Swap ==> *final(cell) == access->Swap_new && reply == Reply::Value(*old(cell)),
        access is CompareExchangeWeak && *old(cell) == access->current ==> *final(cell)
            == access->CompareExchangeWeak_new && reply == Reply::Exchanged(*old(cell)),
        access is CompareExchangeWeak && *old(cell) != access->current ==> *final(cell) == *old(
            cell,
        ) && reply == Reply::Refused(*old(cell)),
{
}

/// A subtraction from a shared word is one atomic operation, with release ordering.
pub proof fn law_subtraction_from_shared_word(
    cell: &AtomicUsize,
    amount: usize,
    reply: Reply<usize>,
)
    requires
        call_ensures(perform_fetch_sub::<&AtomicUsize>, (cell, amount), reply),
    ensures
        reply is Value,
        call_ensures(AtomicUsize::fetch_sub, (cell, amount, Ordering::Release), reply->Value_0),
{
}

/// A subtraction from a word that nobody else touches returns what the word held and leaves that
/// less the amount, around the end of the range if need be.
pub proof fn law_subtraction_from_word_alone(cell: &mut usize, amount: usize, reply: Reply<usize>)
    requires
        call_ensures(perform_fetch_sub::<&mut usize>, (cell, amount), reply),
    ensures
        reply == Reply::Value(*old(cell)),
        reply->Value_0 >= amount ==> *final(cell) == reply->Value_0 - amount,
        reply->Value_0 < amount ==> *final(cell) == reply->Value_0 - amount + usize::MAX + 1,
{
}

/// A try of a shared mutex is one atomic exchange of the free word for the mutex bit, which may
/// fail for no reason, acquires when it succeeds and is relaxed when it fails. The mutex is taken
/// exactly when the exchange took place.
pub proof fn law_try_of_shared_mutex(word: &AtomicUsize, next: LockState)
    requires
        call_ensures(try_lock::<&AtomicUsize>, (word,), next),
    ensures
        exists|outcome: Result<usize, usize>| #[trigger]
            call_ensures(
                AtomicUsize::compare_exchange_weak,
                (word, 0usize, 1usize, Ordering::Acquire, Ordering::Relaxed),
                outcome,
            ) && next == (if outcome is Ok {
                LockState::Held
            } else {
                LockState::Reload { spin_count: 0 }
            }),
{
    let reply = choose|reply: Reply<usize>| #[trigger]
        comes_from(word, acquire_from(0), reply) && next == LockState::Start.after(reply);
    let outcome: Result<usize, usize> = if reply is Exchanged {
        Ok(reply->Exchanged_0)
    } else {
        Err(reply->Refused_0)
    };
    assert(call_ensures(
        AtomicUsize::compare_exchange_weak,
        (word, 0usize, 1usize, Ordering::Acquire, Ordering::Relaxed),
        outcome,
    ));
}

/// A try of a mutex that nobody else touches takes it exactly when the word is entirely free, and
/// leaves the mutex bit in it then. Otherwise the word stays as it is.
pub proof fn law_try_of_mutex_alone(word: &mut usize, next: LockState)
    requires
        call_ensures(try_lock::<&mut usize>, (word,), next),
    ensures
        next == LockState::Held <==> *old(word) == 0,
        next == LockState::Held ==> *final(word) == 1,
        next != LockState::Held ==> *final(word) == *old(word),
        next != LockState::Held ==> next == (LockState::Reload { spin_count: 0 }),
{
}

} // verus!
