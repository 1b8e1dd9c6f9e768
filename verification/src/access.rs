//! Accesses to a shared cell, as values.

use crate::cell::{Cell, Errand, Operations};
use std::sync::atomic::{AtomicI32, AtomicUsize, Ordering};
use vstd::prelude::*;

verus! {

/// How a successful exchange orders the memory accesses around it.
#[derive(Clone, Copy, Debug, PartialEq, Eq, Structural)]
pub enum MemoryOrder {
    Acquire,
    Release,
}

/// One atomic access to a shared cell that holds a `V`.
#[derive(Debug, PartialEq, Eq)]
pub enum Access<V> {
    /// Read the cell, relaxed.
    Load,
    /// Write the cell, with release ordering.
    Store { new: V },
    /// Write the cell and return what it held, with release ordering.
    Swap { new: V },
    /// Write `new` if the cell holds `current`; may also fail for no reason. A failure is
    /// relaxed.
    CompareExchangeWeak { current: V, new: V, success: MemoryOrder },
}

/// What an access returned.
#[derive(Debug, PartialEq, Eq)]
pub enum Reply<V> {
    /// The access returns nothing.
    Done,
    /// The value that was read, or that was there before.
    Value(V),
    /// The exchange took place; the value that was there before.
    Exchanged(V),
    /// The exchange did not take place; the value that was there.
    Refused(V),
}

/// Whether a reply has the kind that the access calls for.
pub open spec fn fits<V>(access: Access<V>, reply: Reply<V>) -> bool {
    match access {
        Access::Load => reply is Value,
        Access::Store { .. } => reply is Done,
        Access::Swap { .. } => reply is Value,
        Access::CompareExchangeWeak { .. } => reply is Exchanged || reply is Refused,
    }
}

/// Whether a cell that holds `before` may answer `access` with `reply` and hold `after` from
/// then on.
pub open spec fn answers<V>(before: V, access: Access<V>, after: V, reply: Reply<V>) -> bool {
    match access {
        Access::Load => after == before && reply == Reply::Value(before),
        Access::Store { new } => after == new && reply == Reply::<V>::Done,
        Access::Swap { new } => after == new && reply == Reply::Value(before),
        Access::CompareExchangeWeak { current, new, .. } => {
            ||| before == current && after == new && reply == Reply::Exchanged(before)
            ||| after == before && reply == Reply::Refused(before)
        },
    }
}

/// A cell answers every access with a reply of the right kind.
pub proof fn law_answers_fit<V>(before: V, access: Access<V>, after: V, reply: Reply<V>)
    requires
        answers(before, access, after, reply),
    ensures
        fits(access, reply),
{
}

/// The ordering that a successful exchange is made with.
pub open spec fn success_order(order: MemoryOrder) -> Ordering {
    match order {
        MemoryOrder::Acquire => Ordering::Acquire,
        MemoryOrder::Release => Ordering::Release,
    }
}

/// Whether the reply is what the atomic operation that the access stands for returned, made on
/// this cell with the access's operands and orderings.
pub open spec fn comes_from_word(
    cell: &AtomicUsize,
    access: Access<usize>,
    reply: Reply<usize>,
) -> bool {
    match (access, reply) {
        (Access::Load, Reply::Value(found)) => call_ensures(
            AtomicUsize::load,
            (cell, Ordering::Relaxed),
            found,
        ),
        (Access::Store { new }, Reply::Done) => call_ensures(
            AtomicUsize::store,
            (cell, new, Ordering::Release),
            (),
        ),
        (Access::Swap { new }, Reply::Value(previous)) => call_ensures(
            AtomicUsize::swap,
            (cell, new, Ordering::Release),
            previous,
        ),
        (
            Access::CompareExchangeWeak { current, new, success },
            Reply::Exchanged(previous),
        ) => call_ensures(
            AtomicUsize::compare_exchange_weak,
            (cell, current, new, success_order(success), Ordering::Relaxed),
            Ok(previous),
        ),
        (Access::CompareExchangeWeak { current, new, success }, Reply::Refused(found)) =>
            call_ensures(
            AtomicUsize::compare_exchange_weak,
            (cell, current, new, success_order(success), Ordering::Relaxed),
            Err(found),
        ),
        _ => false,
    }
}

/// The same of a shared parker cell.
pub open spec fn comes_from_parker(
    cell: &AtomicI32,
    access: Access<i32>,
    reply: Reply<i32>,
) -> bool {
    match (access, reply) {
        (Access::Load, Reply::Value(found)) => call_ensures(
            AtomicI32::load,
            (cell, Ordering::Relaxed),
            found,
        ),
        (Access::Store { new }, Reply::Done) => call_ensures(
            AtomicI32::store,
            (cell, new, Ordering::Release),
            (),
        ),
        (Access::Swap { new }, Reply::Value(previous)) => call_ensures(
            AtomicI32::swap,
            (cell, new, Ordering::Release),
            previous,
        ),
        (
            Access::CompareExchangeWeak { current, new, success },
            Reply::Exchanged(previous),
        ) => call_ensures(
            AtomicI32::compare_exchange_weak,
            (cell, current, new, success_order(success), Ordering::Relaxed),
            Ok(previous),
        ),
        (Access::CompareExchangeWeak { current, new, success }, Reply::Refused(found)) =>
            call_ensures(
            AtomicI32::compare_exchange_weak,
            (cell, current, new, success_order(success), Ordering::Relaxed),
            Err(found),
        ),
        _ => false,
    }
}

/// Whether the reply is what the operation that the access stands for returned, made on this cell
/// with the access's operands and orderings.
pub open spec fn comes_from<V, C: Operations<V>>(
    cell: C,
    access: Access<V>,
    reply: Reply<V>,
) -> bool {
    match (access, reply) {
        (Access::Load, Reply::Value(found)) => cell.loads(Ordering::Relaxed, found),
        (Access::Store { new }, Reply::Done) => cell.stores(new, Ordering::Release),
        (Access::Swap { new }, Reply::Value(previous)) => cell.swaps(
            new,
            Ordering::Release,
            previous,
        ),
        (Access::CompareExchangeWeak { current, new, success }, Reply::Exchanged(previous)) => {
            cell.exchanges(current, new, success_order(success), Ordering::Relaxed, Ok(previous))
        },
        (Access::CompareExchangeWeak { current, new, success }, Reply::Refused(found)) => {
            cell.exchanges(current, new, success_order(success), Ordering::Relaxed, Err(found))
        },
        _ => false,
    }
}

/// The errand of one access to a cell.
struct Perform<V, C> {
    cell: C,
    access: Access<V>,
}

impl<V, C: Operations<V>> Errand<V, C> for Perform<V, C> {
    closed spec fn may_get(self, reply: Reply<V>) -> bool {
        fits(self.access, reply) && comes_from(self.cell, self.access, reply)
    }

    fn run<
        L: FnOnce(C, Ordering) -> V,
        S: FnOnce(C, V, Ordering),
        W: FnOnce(C, V, Ordering) -> V,
        X: FnOnce(C, V, V, Ordering, Ordering) -> Result<V, V>,
        D: FnOnce(C, V, Ordering) -> V,
    >(self, load: L, store: S, swap: W, exchange: X, _subtract: D) -> (reply: Reply<V>) {
        let Perform { cell, access } = self;
        match access {
            Access::Load => Reply::Value(load(cell, Ordering::Relaxed)),
            Access::Store { new } => {
                store(cell, new, Ordering::Release);
                Reply::Done
            },
            Access::Swap { new } => Reply::Value(swap(cell, new, Ordering::Release)),
            Access::CompareExchangeWeak { current, new, success } => {
                let order = match success {
                    MemoryOrder::Acquire => Ordering::Acquire,
                    MemoryOrder::Release => Ordering::Release,
                };
                match exchange(cell, current, new, order, Ordering::Relaxed) {
                    Ok(previous) => Reply::Exchanged(previous),
                    Err(found) => Reply::Refused(found),
                }
            },
        }
    }
}

/// Performs one access to a word, by the one operation of the word that the access stands for.
///
/// What a shared word holds is up to every thread that shares it, so nothing is known of the value
/// in the reply but which operation it came from. Of a word that is not shared, that is all there
/// is to know.
pub fn perform_on_word<C: Cell<usize>>(cell: C, access: Access<usize>) -> (reply: Reply<usize>)
    ensures
        fits(access, reply),
        comes_from(cell, access, reply),
{
    C::send(Perform { cell, access })
}

/// Performs one access to a parker cell, as `perform_on_word` does to a word.
pub fn perform_on_parker<C: Cell<i32>>(cell: C, access: Access<i32>) -> (reply: Reply<i32>)
    ensures
        fits(access, reply),
        comes_from(cell, access, reply),
{
    C::send(Perform { cell, access })
}

} // verus!
