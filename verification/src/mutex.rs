//! The mutex and its guard, while no other thread is looking.

use crate::access::{answers, Reply};
use crate::lock::{acquire_from, try_lock, LockState};
use crate::unlock::{calls_for_wakeup, perform_fetch_sub, UnlockState};
use crate::word::{
    head_of, is_locked, is_queue_locked, law_pack_unpack, law_unpack_pack, law_word_is_its_bits,
    locked, with_lock, MUTEX_LOCK,
};
use vstd::prelude::*;
use vstd::std_specs::convert::FromSpecImpl;

verus! {

/// A value and the word that protects it.
pub struct Mutex<T> {
    pub state: usize,
    pub value: T,
}

/// The word of a mutex that is held. It lets the mutex go when it goes out of scope, unless that
/// was done before.
pub struct Hold<'a> {
    pub word: Option<&'a mut usize>,
}

/// Exclusive access to the value of a mutex. The mutex is let go when the guard goes out of scope;
/// `unlock` does so at once and says what is left to do for a waiter.
pub struct MutexGuard<'a, T> {
    pub value: &'a mut T,
    pub hold: Hold<'a>,
}

impl<T> Mutex<T> {
    /// A mutex that nobody holds and nobody waits for.
    pub fn new(value: T) -> (mutex: Mutex<T>)
        ensures
            mutex.state == 0,
            mutex.value == value,
    {
        Mutex { state: 0, value }
    }

    /// Gives the value back. The state of the word does not matter.
    pub fn into_inner(self) -> (value: T)
        ensures
            value == self.value,
    {
        self.value
    }

    /// Access to the value for the sole owner of the mutex. The state of the word does not
    /// matter and does not change.
    pub fn get_mut(&mut self) -> (value: &mut T)
        ensures
            *value == old(self).value,
            final(self).value == *final(value),
            final(self).state == old(self).state,
    {
        &mut self.value
    }

    /// Takes the mutex if the word is entirely free: nobody holds it and nobody waits for it.
    pub fn try_lock<'a>(&'a mut self) -> (guard: Option<MutexGuard<'a, T>>)
        ensures
            guard is Some <==> old(self).state == 0,
            guard matches Some(g) ==> {
                &&& g.hold.word matches Some(word) && *word == MUTEX_LOCK
                &&& *g.value == old(self).value
                &&& final(self).state == *final(g.hold.word->0)
                &&& final(self).value == *final(g.value)
                &&& answers(
                    old(self).state,
                    acquire_from(0),
                    *g.hold.word->0,
                    Reply::Exchanged(old(self).state),
                )
            },
            guard is None ==> *final(self) == *old(self),
    {
        match try_lock(&mut self.state) {
            LockState::Held => Some(
                MutexGuard { value: &mut self.value, hold: Hold { word: Some(&mut self.state) } },
            ),
            _ => None,
        }
    }

    /// Takes the mutex if nobody holds it, whoever waits for it. If somebody does, the word and
    /// the value stay as they are and the thread has to go on from the returned state.
    pub fn lock<'a>(&'a mut self) -> (guard: Result<MutexGuard<'a, T>, LockState>)
        ensures
            guard is Ok <==> !is_locked(old(self).state),
            guard matches Ok(g) ==> {
                &&& g.hold.word matches Some(word) && *word == old(self).state + 1
                &&& *g.value == old(self).value
                &&& final(self).state == *final(g.hold.word->0)
                &&& final(self).value == *final(g.value)
                &&& answers(
                    old(self).state,
                    acquire_from(old(self).state),
                    *g.hold.word->0,
                    Reply::Exchanged(old(self).state),
                )
            },
            guard matches Err(rest) ==> {
                &&& rest == LockState::Seen { state: old(self).state, spin_count: 0 }
                &&& *final(self) == *old(self)
            },
    {
        let seen = self.state;
        if !locked(seen) {
            self.state = with_lock(seen);
            Ok(MutexGuard { value: &mut self.value, hold: Hold { word: Some(&mut self.state) } })
        } else {
            Err(LockState::Seen { state: seen, spin_count: 0 })
        }
    }

    /// Lets the mutex go, without a guard. The thread has to go on from the returned state.
    pub fn force_unlock(&mut self) -> (rest: UnlockState)
        requires
            is_locked(old(self).state),
        ensures
            final(self).state == old(self).state - 1,
            final(self).value == old(self).value,
            rest == UnlockState::Start.after(Reply::Value(old(self).state)),
            rest == (if calls_for_wakeup(old(self).state) {
                UnlockState::Reload
            } else {
                UnlockState::Done
            }),
    {
        let reply = perform_fetch_sub(&mut self.state, MUTEX_LOCK);
        UnlockState::Start.reply(reply)
    }
}

impl<'a> Hold<'a> {
    /// Lets the mutex go, if that was not done before.
    fn release(&mut self) -> (previous: Option<usize>)
        ensures
            final(self).word is None,
            previous is Some <==> old(self).word is Some,
            old(self).word matches Some(word) ==> {
                &&& previous == Some(*word)
                &&& *final(word) == (if is_locked(*word) {
                    *word - 1
                } else {
                    *word as int
                })
            },
        opens_invariants none
        no_unwind
    {
        let mut held: Option<&'a mut usize> = None;
        std::mem::swap(&mut held, &mut self.word);
        match held {
            Some(word) => {
                let previous = *word;
                if locked(previous) {
                    *word = previous - MUTEX_LOCK;
                }
                Some(previous)
            },
            None => None,
        }
    }
}

impl<'a> Drop for Hold<'a> {
    /// Lets the mutex go, if that was not done before.
    fn drop(&mut self)
        ensures
            final(self).word is None,
            old(self).word matches Some(word) ==> *final(word) == (if is_locked(*word) {
                *word - 1
            } else {
                *word as int
            }),
        opens_invariants none
        no_unwind
    {
        let _previous = self.release();
    }
}

impl<'a, T> MutexGuard<'a, T> {
    /// Lets the mutex go. The thread has to go on from the returned state.
    pub fn unlock(self) -> (rest: UnlockState)
        requires
            self.hold.word matches Some(word) && is_locked(*word),
        ensures
            *final(self.hold.word->0) == *old(self.hold.word->0) - 1,
            *final(self.value) == *old(self.value),
            rest == UnlockState::Start.after(Reply::Value(*old(self.hold.word->0))),
    {
        let MutexGuard { value: _, mut hold } = self;
        match hold.release() {
            Some(previous) => UnlockState::Start.reply(Reply::Value(previous)),
            None => UnlockState::Done,
        }
    }
}

impl<'a, T> std::ops::Deref for MutexGuard<'a, T> {
    type Target = T;

    fn deref(&self) -> (value: &T)
        ensures
            *value == *old(self.value),
    {
        self.value
    }
}

impl<'a, T> std::ops::DerefMut for MutexGuard<'a, T> {
    fn deref_mut(&mut self) -> (value: &mut T)
        ensures
            *value == *old(self).value,
            *final(self).value == *final(value),
            *final(final(self).value) == *final(old(self).value),
            final(self).hold == old(self).hold,
    {
        self.value
    }
}

impl<T> From<T> for Mutex<T> {
    fn from(value: T) -> (mutex: Mutex<T>) {
        Mutex::new(value)
    }
}

impl<T> FromSpecImpl<T> for Mutex<T> {
    open spec fn obeys_from_spec() -> bool {
        true
    }

    open spec fn from_spec(value: T) -> Mutex<T> {
        Mutex { state: 0, value }
    }
}

impl<T: Default> Default for Mutex<T> {
    /// A mutex around a default value.
    fn default() -> (mutex: Mutex<T>)
        ensures
            mutex.state == 0,
            call_ensures(T::default, (), mutex.value),
    {
        Mutex::new(T::default())
    }
}

/// However a mutex is made, it is free and holds the value it was made of, which comes back out of
/// it.
pub proof fn law_made_free<T: Default>(
    value: T,
    made: Mutex<T>,
    converted: Mutex<T>,
    default: Mutex<T>,
    back: T,
)
    requires
        call_ensures(Mutex::<T>::new, (value,), made),
        call_ensures(Mutex::<T>::from, (value,), converted),
        call_ensures(Mutex::<T>::default, (), default),
        call_ensures(Mutex::<T>::into_inner, (made,), back),
    ensures
        made.state == 0,
        converted.state == 0,
        default.state == 0,
        made.value == value,
        converted.value == value,
        call_ensures(T::default, (), default.value),
        back == value,
{
}

/// To let go of a mutex that was just taken leaves its word and its value as they were. What is
/// left to do is to wake a waiter, exactly when the word has a head and no queue bit.
pub proof fn law_unlock_undoes_lock<T>(
    mutex: &mut Mutex<T>,
    taken: Result<MutexGuard<T>, LockState>,
    rest: UnlockState,
)
    requires
        call_ensures(Mutex::<T>::lock, (mutex,), taken),
        taken is Ok,
        call_ensures(MutexGuard::<T>::unlock, (taken->Ok_0,), rest),
    ensures
        final(mutex).state == old(mutex).state,
        final(mutex).value == old(mutex).value,
        rest == (if old(mutex).state & 2 == 0 && old(mutex).state & !3 != 0 {
            UnlockState::Reload
        } else {
            UnlockState::Done
        }),
{
    let word = old(mutex).state;
    law_word_is_its_bits(word);
    law_pack_unpack(word);
    law_unpack_pack(true, is_queue_locked(word), head_of(word));
}

/// The same of a mutex that was taken because its word was entirely free: nobody is left to wake.
pub proof fn law_unlock_undoes_try_lock<T>(
    mutex: &mut Mutex<T>,
    taken: Option<MutexGuard<T>>,
    rest: UnlockState,
)
    requires
        call_ensures(Mutex::<T>::try_lock, (mutex,), taken),
        taken is Some,
        call_ensures(MutexGuard::<T>::unlock, (taken->Some_0,), rest),
    ensures
        old(mutex).state == 0,
        final(mutex).state == 0,
        final(mutex).value == old(mutex).value,
        rest == UnlockState::Done,
{
}

} // verus!
