# custom_lock

A mutex in one machine word. The word holds a bit for the mutex, a bit for the queue of waiting
threads, and the address of the first waiter; waiters queue up on their own stacks and park until
they are woken, the last one first.

- `src/` is verified with Verus. `word` is the word; `lock`, `unlock`, `parker`, `condvar`,
  `backoff` and `event` are the machines that a thread runs: each says which access to shared
  memory comes next and is told what it returned. `access` performs these accesses on atomics.
  `mutex` is the mutex and its guard for one thread at a time. `system` puts any number of threads
  around one mutex; `system_laws`, `progress_laws`, `parker_laws` and `event_laws` prove what holds
  of every interleaving: mutual exclusion, that no update and no waiter is lost, that nobody waits
  in vain, that no thread reads or writes a node that is gone. They also prove that every call
  returns, given a fair scheduler, holders that give their guards back, exchanges that do not fail
  for no reason for ever, and an end to new calls.
- `app/` drives the machines in shared memory: the mutex over an `UnsafeCell`, and the parkers of
  Linux, Windows and other systems. Its loops end when other threads let them.
- `tests/` runs the machines, also many threads at a time, one access after another.
