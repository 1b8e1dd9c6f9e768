//! Cells that a thread reaches by atomic operations, one at a time.
//!
//! Code that works on a cell is written for every cell there is, as an errand. It is handed the
//! operations of the cell it was sent to and cannot reach the cell in another way; the cell itself
//! goes into the first operation and is gone then. So an errand makes one operation and no other,
//! be the cell shared with other threads or not. On a cell that is not shared, what that operation
//! leaves behind is known exactly.

use crate::access::Reply;
use std::sync::atomic::{AtomicI32, AtomicUsize, Ordering};
use vstd::prelude::*;

verus! {

/// What the operations of a cell that holds a `V` may return.
pub trait Operations<V>: Sized {
    /// Whether a read may return `found`.
    spec fn loads(self, order: Ordering, found: V) -> bool;

    /// Whether `new` may be written.
    spec fn stores(self, new: V, order: Ordering) -> bool;

    /// Whether `previous` may be returned when `new` is written.
    spec fn swaps(self, new: V, order: Ordering, previous: V) -> bool;

    /// Whether an exchange of `current` for `new`, which may fail for no reason, may end so.
    spec fn exchanges(
        self,
        current: V,
        new: V,
        success: Ordering,
        failure: Ordering,
        outcome: Result<V, V>,
    ) -> bool;

    /// Whether `previous` may be returned when `amount` is subtracted.
    spec fn subtracts(self, amount: V, order: Ordering, previous: V) -> bool;
}

/// Something to be done with a cell, by one of its operations.
pub trait Errand<V, C: Operations<V>>: Sized {
    /// Whether this may come of it.
    spec fn may_get(self, reply: Reply<V>) -> bool;

    /// Does it. The operations are exactly those of the cell.
    fn run<
        L: FnOnce(C, Ordering) -> V,
        S: FnOnce(C, V, Ordering),
        W: FnOnce(C, V, Ordering) -> V,
        X: FnOnce(C, V, V, Ordering, Ordering) -> Result<V, V>,
        D: FnOnce(C, V, Ordering) -> V,
    >(self, load: L, store: S, swap: W, exchange: X, subtract: D) -> (reply: Reply<V>)
        requires
            forall|c: C, o: Ordering| call_requires(load, (c, o)),
            forall|c: C, n: V, o: Ordering| call_requires(store, (c, n, o)),
            forall|c: C, n: V, o: Ordering| call_requires(swap, (c, n, o)),
            forall|c: C, e: V, n: V, o: Ordering, f: Ordering|
                call_requires(exchange, (c, e, n, o, f)),
            forall|c: C, n: V, o: Ordering| call_requires(subtract, (c, n, o)),
            forall|c: C, o: Ordering, r: V| #[trigger]
                call_ensures(load, (c, o), r) == c.loads(o, r),
            forall|c: C, n: V, o: Ordering, r: ()| #[trigger]
                call_ensures(store, (c, n, o), r) == c.stores(n, o),
            forall|c: C, n: V, o: Ordering, r: V| #[trigger]
                call_ensures(swap, (c, n, o), r) == c.swaps(n, o, r),
            forall|c: C, e: V, n: V, o: Ordering, f: Ordering, r: Result<V, V>| #[trigger]
                call_ensures(exchange, (c, e, n, o, f), r) == c.exchanges(e, n, o, f, r),
            forall|c: C, n: V, o: Ordering, r: V| #[trigger]
                call_ensures(subtract, (c, n, o), r) == c.subtracts(n, o, r),
        ensures
            self.may_get(reply),
    ;
}

/// A cell that holds a `V`.
pub trait Cell<V>: Operations<V> {
    /// Hands the operations of such a cell to an errand.
    fn send<E: Errand<V, Self>>(errand: E) -> (reply: Reply<V>)
        ensures
            errand.may_get(reply),
    ;
}

/// A word that other threads may share.
impl<'a> Operations<usize> for &'a AtomicUsize {
    open spec fn loads(self, order: Ordering, found: usize) -> bool {
        call_ensures(AtomicUsize::load, (self, order), found)
    }

    open spec fn stores(self, new: usize, order: Ordering) -> bool {
        call_ensures(AtomicUsize::store, (self, new, order), ())
    }

    open spec fn swaps(self, new: usize, order: Ordering, previous: usize) -> bool {
        call_ensures(AtomicUsize::swap, (self, new, order), previous)
    }

    open spec fn exchanges(
        self,
        current: usize,
        new: usize,
        success: Ordering,
        failure: Ordering,
        outcome: Result<usize, usize>,
    ) -> bool {
        call_ensures(
            AtomicUsize::compare_exchange_weak,
            (self, current, new, success, failure),
            outcome,
        )
    }

    open spec fn subtracts(self, amount: usize, order: Ordering, previous: usize) -> bool {
        call_ensures(AtomicUsize::fetch_sub, (self, amount, order), previous)
    }
}

impl<'a> Cell<usize> for &'a AtomicUsize {
    fn send<E: Errand<usize, Self>>(errand: E) -> (reply: Reply<usize>) {
        errand.run(
            AtomicUsize::load,
            AtomicUsize::store,
            AtomicUsize::swap,
            AtomicUsize::compare_exchange_weak,
            AtomicUsize::fetch_sub,
        )
    }
}

/// A parker cell that other threads may share.
impl<'a> Operations<i32> for &'a AtomicI32 {
    open spec fn loads(self, order: Ordering, found: i32) -> bool {
        call_ensures(AtomicI32::load, (self, order), found)
    }

    open spec fn stores(self, new: i32, order: Ordering) -> bool {
        call_ensures(AtomicI32::store, (self, new, order), ())
    }

    open spec fn swaps(self, new: i32, order: Ordering, previous: i32) -> bool {
        call_ensures(AtomicI32::swap, (self, new, order), previous)
    }

    open spec fn exchanges(
        self,
        current: i32,
        new: i32,
        success: Ordering,
        failure: Ordering,
        outcome: Result<i32, i32>,
    ) -> bool {
        call_ensures(
            AtomicI32::compare_exchange_weak,
            (self, current, new, success, failure),
            outcome,
        )
    }

    open spec fn subtracts(self, amount: i32, order: Ordering, previous: i32) -> bool {
        call_ensures(AtomicI32::fetch_sub, (self, amount, order), previous)
    }
}

impl<'a> Cell<i32> for &'a AtomicI32 {
    fn send<E: Errand<i32, Self>>(errand: E) -> (reply: Reply<i32>) {
        errand.run(
            AtomicI32::load,
            AtomicI32::store,
            AtomicI32::swap,
            AtomicI32::compare_exchange_weak,
            AtomicI32::fetch_sub,
        )
    }
}

/// Reads a cell that is not shared.
pub fn load_alone<V: Copy>(cell: &mut V, _order: Ordering) -> (found: V)
    ensures
        found == *old(cell),
        *final(cell) == *old(cell),
{
    *cell
}

/// Writes a cell that is not shared.
pub fn store_alone<V>(cell: &mut V, new: V, _order: Ordering)
    ensures
        *final(cell) == new,
{
    *cell = new;
}

/// Writes a cell that is not shared and returns what it held.
pub fn swap_alone<V: Copy>(cell: &mut V, new: V, _order: Ordering) -> (previous: V)
    ensures
        previous == *old(cell),
        *final(cell) == new,
{
    let previous = *cell;
    *cell = new;
    previous
}

/// Writes a word that is not shared if it holds `current`.
pub fn exchange_word_alone(
    cell: &mut usize,
    current: usize,
    new: usize,
    _success: Ordering,
    _failure: Ordering,
) -> (outcome: Result<usize, usize>)
    ensures
        *old(cell) == current ==> outcome == Ok::<usize, usize>(*old(cell)) && *final(cell) == new,
        *old(cell) != current ==> outcome == Err::<usize, usize>(*old(cell)) && *final(cell)
            == *old(cell),
{
    let found: usize = *cell;
    if found == current {
        *cell = new;
        Ok(found)
    } else {
        Err(found)
    }
}

/// Subtracts from a word that is not shared, around the end of the range if need be, and returns
/// what it held.
pub fn subtract_word_alone(cell: &mut usize, amount: usize, _order: Ordering) -> (previous: usize)
    ensures
        previous == *old(cell),
        *old(cell) >= amount ==> *final(cell) == *old(cell) - amount,
        *old(cell) < amount ==> *final(cell) == *old(cell) - amount + usize::MAX + 1,
{
    let previous: usize = *cell;
    *cell = previous.wrapping_sub(amount);
    previous
}

/// A word that is not shared.
impl<'a> Operations<usize> for &'a mut usize {
    open spec fn loads(self, order: Ordering, found: usize) -> bool {
        call_ensures(load_alone::<usize>, (self, order), found)
    }

    open spec fn stores(self, new: usize, order: Ordering) -> bool {
        call_ensures(store_alone::<usize>, (self, new, order), ())
    }

    open spec fn swaps(self, new: usize, order: Ordering, previous: usize) -> bool {
        call_ensures(swap_alone::<usize>, (self, new, order), previous)
    }

    open spec fn exchanges(
        self,
        current: usize,
        new: usize,
        success: Ordering,
        failure: Ordering,
        outcome: Result<usize, usize>,
    ) -> bool {
        call_ensures(exchange_word_alone, (self, current, new, success, failure), outcome)
    }

    open spec fn subtracts(self, amount: usize, order: Ordering, previous: usize) -> bool {
        call_ensures(subtract_word_alone, (self, amount, order), previous)
    }
}

impl<'a> Cell<usize> for &'a mut usize {
    fn send<E: Errand<usize, Self>>(errand: E) -> (reply: Reply<usize>) {
        errand.run(
            load_alone::<usize>,
            store_alone::<usize>,
            swap_alone::<usize>,
            exchange_word_alone,
            subtract_word_alone,
        )
    }
}

/// Writes a parker cell that is not shared if it holds `current`.
pub fn exchange_parker_alone(
    cell: &mut i32,
    current: i32,
    new: i32,
    _success: Ordering,
    _failure: Ordering,
) -> (outcome: Result<i32, i32>)
    ensures
        *old(cell) == current ==> outcome == Ok::<i32, i32>(*old(cell)) && *final(cell) == new,
        *old(cell) != current ==> outcome == Err::<i32, i32>(*old(cell)) && *final(cell) == *old(
            cell,
        ),
{
    let found: i32 = *cell;
    if found == current {
        *cell = new;
        Ok(found)
    } else {
        Err(found)
    }
}

/// Subtracts from a parker cell that is not shared, around the ends of the range if need be, and
/// returns what it held.
pub fn subtract_parker_alone(cell: &mut i32, amount: i32, _order: Ordering) -> (previous: i32)
    ensures
        previous == *old(cell),
        i32::MIN <= *old(cell) - amount <= i32::MAX ==> *final(cell) == *old(cell) - amount,
        *old(cell) - amount < i32::MIN ==> *final(cell) == *old(cell) - amount + 0x1_0000_0000,
        *old(cell) - amount > i32::MAX ==> *final(cell) == *old(cell) - amount - 0x1_0000_0000,
{
    let previous: i32 = *cell;
    *cell = previous.wrapping_sub(amount);
    previous
}

/// A parker cell that is not shared.
impl<'a> Operations<i32> for &'a mut i32 {
    open spec fn loads(self, order: Ordering, found: i32) -> bool {
        call_ensures(load_alone::<i32>, (self, order), found)
    }

    open spec fn stores(self, new: i32, order: Ordering) -> bool {
        call_ensures(store_alone::<i32>, (self, new, order), ())
    }

    open spec fn swaps(self, new: i32, order: Ordering, previous: i32) -> bool {
        call_ensures(swap_alone::<i32>, (self, new, order), previous)
    }

    open spec fn exchanges(
        self,
        current: i32,
        new: i32,
        success: Ordering,
        failure: Ordering,
        outcome: Result<i32, i32>,
    ) -> bool {
        call_ensures(exchange_parker_alone, (self, current, new, success, failure), outcome)
    }

    open spec fn subtracts(self, amount: i32, order: Ordering, previous: i32) -> bool {
        call_ensures(subtract_parker_alone, (self, amount, order), previous)
    }
}

impl<'a> Cell<i32> for &'a mut i32 {
    fn send<E: Errand<i32, Self>>(errand: E) -> (reply: Reply<i32>) {
        errand.run(
            load_alone::<i32>,
            store_alone::<i32>,
            swap_alone::<i32>,
            exchange_parker_alone,
            subtract_parker_alone,
        )
    }
}

} // verus!
