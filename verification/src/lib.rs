//! A word-sized mutex whose waiters queue up on their own stacks.
//!
//! The whole lock lives in one machine word: a bit for the mutex, a bit for the queue of
//! waiting threads, and the address of the first waiter. The threads that use it run state
//! machines: each machine says which access to shared memory comes next and is told what that
//! access returned. The machines are here, with the laws that hold of every interleaving of
//! them; whoever owns the shared memory performs the accesses.

pub mod access;
pub mod access_laws;
pub mod backoff;
pub mod cell;
pub mod condvar;
pub mod event;
pub mod event_laws;
pub mod lock;
pub mod machine_laws;
pub mod mutex;
pub mod parker;
pub mod parker_laws;
pub mod progress_laws;
pub mod system;
pub mod system_laws;
pub mod unlock;
pub mod word;
