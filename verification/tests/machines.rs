use custom_lock::access::{perform_on_parker, perform_on_word, Access, MemoryOrder, Reply};
use custom_lock::backoff::{Pause, SpinWait};
use custom_lock::condvar;
use custom_lock::event::{get_event_handle, HandleReply, HandleRequest, HandleState};
use custom_lock::lock::{try_lock, LockRequest, LockState};
use custom_lock::parker::{
    ParkRequest, ParkState, Parker, UnparkRequest, UnparkState, WaitRequest, WaitState, EMPTY,
    PARKED, UNPARKED,
};
use custom_lock::unlock::{perform_fetch_sub, UnlockRequest, UnlockState};
use custom_lock::word::{
    head, locked, queue_locked, with_head, with_lock, with_queue_lock, without_queue_lock,
    MUTEX_LOCK, QUEUE_LOCK, QUEUE_MASK,
};
use std::sync::atomic::{AtomicI32, AtomicUsize, Ordering};

fn exchange<V>(current: V, new: V, success: MemoryOrder) -> Access<V> {
    Access::CompareExchangeWeak { current, new, success }
}

#[test]
fn word_is_two_flags_and_an_address() {
    assert_eq!((MUTEX_LOCK, QUEUE_LOCK, QUEUE_MASK), (1, 2, usize::MAX - 3));
    assert_eq!((locked(0x41), queue_locked(0x41), head(0x41)), (true, false, 0x40));
    assert_eq!((locked(0x42), queue_locked(0x42), head(0x42)), (false, true, 0x40));
    assert_eq!((locked(usize::MAX), head(usize::MAX)), (true, usize::MAX - 3));
    assert_eq!(with_lock(0x42), 0x43);
    assert_eq!(with_lock(0x41), 0x41);
    assert_eq!(with_queue_lock(0x41), 0x43);
    assert_eq!(with_queue_lock(0x42), 0x42);
    assert_eq!(without_queue_lock(0x43), 0x41);
    assert_eq!(without_queue_lock(0x41), 0x41);
    assert_eq!(with_head(0x43, 0x80), 0x83);
    assert_eq!(with_head(0x43, 0), 3);
}

#[test]
fn shared_word_answers_accesses() {
    let word = AtomicUsize::new(5);
    assert_eq!(perform_on_word(&word, Access::Load), Reply::Value(5));
    assert_eq!(perform_on_word(&word, Access::Swap { new: 6 }), Reply::Value(5));
    assert_eq!(perform_on_word(&word, Access::Store { new: 7 }), Reply::Done);
    let refused = perform_on_word(&word, exchange(8, 9, MemoryOrder::Acquire));
    assert_eq!(refused, Reply::Refused(7));
    let mut tries = 0;
    while perform_on_word(&word, exchange(7, 9, MemoryOrder::Release)) != Reply::Exchanged(7) {
        tries += 1;
        assert!(tries < 1000);
    }
    assert_eq!(perform_fetch_sub(&word, 1), Reply::Value(9));
    assert_eq!(word.load(Ordering::Relaxed), 8);
}

#[test]
fn shared_parker_answers_accesses() {
    let cell = AtomicI32::new(EMPTY);
    assert_eq!(perform_on_parker(&cell, Access::Load), Reply::Value(EMPTY));
    let mut tries = 0;
    while perform_on_parker(&cell, exchange(EMPTY, PARKED, MemoryOrder::Acquire))
        != Reply::Exchanged(EMPTY)
    {
        tries += 1;
        assert!(tries < 1000);
    }
    let refused = perform_on_parker(&cell, exchange(EMPTY, PARKED, MemoryOrder::Release));
    assert_eq!(refused, Reply::Refused(PARKED));
    assert_eq!(perform_on_parker(&cell, Access::Swap { new: UNPARKED }), Reply::Value(PARKED));
    assert_eq!(perform_on_parker(&cell, Access::Store { new: EMPTY }), Reply::Done);
    assert_eq!(cell.load(Ordering::Relaxed), EMPTY);
}

#[test]
fn shared_mutex_is_tried_once() {
    let word = AtomicUsize::new(0x40);
    assert_eq!(try_lock(&word), LockState::Reload { spin_count: 0 });
    assert_eq!(word.load(Ordering::Relaxed), 0x40);
    word.store(0, Ordering::Relaxed);
    let mut tries = 0;
    while try_lock(&word) != LockState::Held {
        tries += 1;
        assert!(tries < 1000);
    }
    assert_eq!(word.load(Ordering::Relaxed), 1);
    assert_eq!(try_lock(&word), LockState::Reload { spin_count: 0 });
}

#[test]
fn lock_tries_the_free_word_first() {
    let start = LockState::Start;
    let tries = LockRequest::Word(exchange(0, 1, MemoryOrder::Acquire));
    assert_eq!(start.request(), tries);
    assert_eq!(LockState::Start.reply(Reply::Exchanged(0)), LockState::Held);
    assert_eq!(
        LockState::Start.reply(Reply::Refused(0x41)),
        LockState::Reload { spin_count: 0 }
    );
    assert_eq!(LockState::Held.request(), LockRequest::Nothing);
}

#[test]
fn lock_goes_for_a_mutex_that_waiters_left_free() {
    let seen = LockState::Reload { spin_count: 3 }.reply(Reply::Value(0x82));
    assert_eq!(seen, LockState::Seen { state: 0x82, spin_count: 3 });
    assert_eq!(
        seen.request(),
        LockRequest::Word(exchange(0x82, 0x83, MemoryOrder::Acquire))
    );
    assert_eq!(
        seen.reply(Reply::Refused(0x80)),
        LockState::Seen { state: 0x80, spin_count: 3 }
    );
    let seen = LockState::Seen { state: 0x80, spin_count: 3 };
    assert_eq!(seen.reply(Reply::Exchanged(0x80)), LockState::Held);
}

#[test]
fn lock_spins_then_yields_then_queues() {
    let mut state = LockState::Reload { spin_count: 0 };
    let (mut spins, mut yields) = (0, 0);
    loop {
        assert_eq!(state.request(), LockRequest::Word(Access::Load));
        state = state.reply(Reply::Value(1));
        match state.request() {
            LockRequest::Spin { times } => {
                assert_eq!(times, 30);
                spins += 1;
                assert_eq!(yields, 0);
            }
            LockRequest::Yield => yields += 1,
            request => {
                assert_eq!(request, LockRequest::Enqueue { next: 0 });
                assert_eq!(state.publish(0x40), exchange(1, 0x41, MemoryOrder::Release));
                break;
            }
        }
        state = state.reply(Reply::Done);
    }
    assert_eq!((spins, yields), (4, 26));
}

#[test]
fn lock_queues_at_once_behind_others() {
    let state = LockState::Seen { state: 0x83, spin_count: 0 };
    assert_eq!(state.request(), LockRequest::Enqueue { next: 0x80 });
    assert_eq!(state.publish(0x40), exchange(0x83, 0x43, MemoryOrder::Release));
    assert_eq!(
        state.reply(Reply::Refused(0x81)),
        LockState::Seen { state: 0x81, spin_count: 0 }
    );
    let state = LockState::Seen { state: 0x81, spin_count: 30 }.reply(Reply::Exchanged(0x81));
    assert_eq!(state, LockState::Queued);
    assert_eq!(state.request(), LockRequest::Park);
    assert_eq!(state.reply(Reply::Done), LockState::Reload { spin_count: 0 });
}

#[test]
fn replies_of_another_kind_change_nothing() {
    assert_eq!(LockState::Start.reply(Reply::Value(0)), LockState::Start);
    assert_eq!(LockState::Queued.reply(Reply::Value(0)), LockState::Queued);
    assert_eq!(UnlockState::Start.reply(Reply::Done), UnlockState::Start);
    let seen = UnlockState::QueueSeen { state: 0x42 };
    assert_eq!(seen.reply(Reply::Done), UnlockState::QueueSeen { state: 0x42 });
    assert_eq!(ParkState::Start.reply(Reply::Done), ParkState::Start);
    assert_eq!(WaitState::Blocked.reply(Reply::Value(2)), WaitState::Blocked);
    assert_eq!(UnparkState::Waking.reply(Reply::Value(1)), UnparkState::Waking);
    let creating = HandleState::Creating.reply(HandleReply::Word(Reply::Done));
    assert_eq!(creating, HandleState::Creating);
}

#[test]
fn unlock_is_through_when_nobody_is_to_be_woken() {
    assert_eq!(UnlockState::Start.request(), UnlockRequest::FetchSub { amount: 1 });
    assert_eq!(UnlockState::Start.reply(Reply::Value(1)), UnlockState::Done);
    assert_eq!(UnlockState::Start.reply(Reply::Value(0x43)), UnlockState::Done);
    assert_eq!(UnlockState::Start.reply(Reply::Value(0x41)), UnlockState::Reload);
    assert_eq!(UnlockState::Reload.reply(Reply::Value(0)), UnlockState::Done);
    assert_eq!(UnlockState::Reload.reply(Reply::Value(0x42)), UnlockState::Done);
    assert_eq!(UnlockState::Done.request(), UnlockRequest::Nothing);
}

#[test]
fn unlock_pops_and_wakes_the_first_waiter() {
    let state = UnlockState::Reload;
    assert_eq!(state.request(), UnlockRequest::Word(Access::Load));
    let state = state.reply(Reply::Value(0x80));
    assert_eq!(state, UnlockState::Seen { state: 0x80 });
    assert_eq!(
        state.request(),
        UnlockRequest::Word(exchange(0x80, 0x82, MemoryOrder::Acquire))
    );
    let state = state.reply(Reply::Exchanged(0x80));
    assert_eq!(state, UnlockState::QueueLocked);
    assert_eq!(state.request(), UnlockRequest::Word(Access::Load));
    let state = state.reply(Reply::Value(0x82));
    assert_eq!(state.request(), UnlockRequest::ReadNext { node: 0x80 });
    let state = state.reply(Reply::Value(0x40));
    assert_eq!(
        state.request(),
        UnlockRequest::Word(exchange(0x82, 0x40, MemoryOrder::Release))
    );
    let state = state.reply(Reply::Exchanged(0x82));
    assert_eq!(state.request(), UnlockRequest::Unpark { node: 0x80 });
    assert_eq!(state.reply(Reply::Done), UnlockState::Done);
}

#[test]
fn unlock_starts_over_when_the_queue_grows() {
    let state = UnlockState::Popping { state: 0x82, next: 0x40 };
    let state = state.reply(Reply::Refused(0xc2));
    assert_eq!(state.request(), UnlockRequest::ReadNext { node: 0xc0 });
    let refused = UnlockState::Seen { state: 0x80 }.reply(Reply::Refused(0xc1));
    assert_eq!(refused, UnlockState::Seen { state: 0xc1 });
}

#[test]
fn unlock_leaves_the_waiter_to_the_next_holder() {
    let state = UnlockState::QueueSeen { state: 0x83 };
    assert_eq!(
        state.request(),
        UnlockRequest::Word(exchange(0x83, 0x81, MemoryOrder::Release))
    );
    assert_eq!(state.reply(Reply::Exchanged(0x83)), UnlockState::Done);
    let state = UnlockState::QueueSeen { state: 0x83 }.reply(Reply::Refused(0x82));
    assert_eq!(state.request(), UnlockRequest::ReadNext { node: 0x80 });
}

#[test]
fn parker_wakes_only_who_is_parked() {
    let mut parker = Parker::new();
    assert_eq!(parker.state, EMPTY);
    assert!(!parker.unpark());
    assert_eq!(parker.state, UNPARKED);
    assert!(!parker.park());
    assert_eq!(parker.state, UNPARKED);

    let mut parker = Parker::new();
    assert!(parker.park());
    assert_eq!(parker.state, PARKED);
    assert!(parker.unpark());
    assert!(!parker.unpark());
    assert_eq!(parker.state, UNPARKED);
}

#[test]
fn park_claims_the_cell_and_waits() {
    let state = ParkState::Start;
    assert_eq!(state.request(), ParkRequest::Cell(Access::Load));
    let state = state.reply(Reply::Value(EMPTY));
    assert_eq!(
        state.request(),
        ParkRequest::Cell(exchange(EMPTY, PARKED, MemoryOrder::Acquire))
    );
    let state = state.reply(Reply::Refused(EMPTY)).reply(Reply::Exchanged(EMPTY));
    assert_eq!(state.request(), ParkRequest::Wait);
    assert_eq!(state.reply(Reply::Done), ParkState::Done);
    assert_eq!(ParkState::Start.reply(Reply::Value(UNPARKED)), ParkState::Done);
    assert_eq!(ParkState::Claim.reply(Reply::Refused(UNPARKED)), ParkState::Done);
    assert_eq!(ParkState::Done.request(), ParkRequest::Nothing);
}

#[test]
fn waiting_goes_on_while_the_cell_says_parked() {
    let state = WaitState::Recheck;
    assert_eq!(state.request(), WaitRequest::Cell(Access::Load));
    let state = state.reply(Reply::Value(PARKED));
    assert_eq!(state.request(), WaitRequest::Block { expected: PARKED });
    let state = state.reply(Reply::Done);
    assert_eq!(state, WaitState::Recheck);
    assert_eq!(state.reply(Reply::Value(UNPARKED)).request(), WaitRequest::Nothing);
}

#[test]
fn unpark_wakes_after_the_swap() {
    let state = UnparkState::Start;
    assert_eq!(state.request(), UnparkRequest::Cell(Access::Swap { new: UNPARKED }));
    assert_eq!(state.reply(Reply::Value(PARKED)).request(), UnparkRequest::Wake);
    assert_eq!(UnparkState::Start.reply(Reply::Value(EMPTY)).request(), UnparkRequest::Nothing);
    assert_eq!(UnparkState::Start.reply(Reply::Value(UNPARKED)), UnparkState::Done);
    assert_eq!(UnparkState::Waking.reply(Reply::Done), UnparkState::Done);
}

#[test]
fn condition_is_signalled_once() {
    let mut parker = condvar::Parker::new();
    assert!(parker.park());
    assert!(parker.unpark());
    assert!(!parker.park());
    assert!(!parker.unpark());
    assert!(parker.is_unparked);
}

#[test]
fn pauses_get_longer() {
    let mut wait = SpinWait::new();
    let mut pauses = vec![];
    for _ in 0..14 {
        pauses.push(wait.pause());
    }
    for pause in &pauses[0..4] {
        assert_eq!(*pause, Pause::Spin { times: 30 });
    }
    for pause in &pauses[4..10] {
        assert_eq!(*pause, Pause::Yield);
    }
    for pause in &pauses[10..12] {
        assert_eq!(*pause, Pause::Sleep { millis: 1 });
    }
    for pause in &pauses[12..14] {
        assert_eq!(*pause, Pause::Sleep { millis: 10 });
    }
    let mut last = SpinWait { spin_count: usize::MAX };
    assert_eq!(last.pause(), Pause::Spin { times: 30 });
    assert_eq!(last.spin_count, 0);
}

fn drive(state: &mut usize, kept: &mut Option<usize>, status: u32) -> Option<usize> {
    let mut thread = get_event_handle();
    for _ in 0..20 {
        let reply = match thread.request() {
            HandleRequest::Word(Access::Load) => HandleReply::Word(Reply::Value(*state)),
            HandleRequest::Word(Access::CompareExchangeWeak { current, new, success }) => {
                assert_eq!((current, new, success), (0, 1, MemoryOrder::Acquire));
                if *state == current {
                    *state = new;
                    HandleReply::Word(Reply::Exchanged(current))
                } else {
                    HandleReply::Word(Reply::Refused(*state))
                }
            }
            HandleRequest::Word(Access::Store { new }) => {
                assert_eq!(new, 2);
                *state = new;
                HandleReply::Word(Reply::Done)
            }
            HandleRequest::Word(_) => panic!("no such access"),
            HandleRequest::Yield => HandleReply::Word(Reply::Done),
            HandleRequest::Create { access } => {
                assert_eq!(access, 0xc0000000);
                HandleReply::Created { status, handle: 77 }
            }
            HandleRequest::Keep { handle } => {
                *kept = handle;
                HandleReply::Word(Reply::Done)
            }
            HandleRequest::Read => HandleReply::Kept { handle: *kept },
            HandleRequest::Nothing => break,
        };
        thread = thread.reply(reply);
    }
    match thread {
        HandleState::Done { handle } => handle,
        _ => panic!("not through"),
    }
}

#[test]
fn event_handle_is_created_once() {
    let (mut state, mut kept) = (0, None);
    assert_eq!(drive(&mut state, &mut kept, 0), Some(77));
    assert_eq!(state, 2);
    kept = Some(78);
    assert_eq!(drive(&mut state, &mut kept, 0), Some(78));
}

#[test]
fn event_handle_may_be_missing() {
    let (mut state, mut kept) = (0, None);
    assert_eq!(drive(&mut state, &mut kept, 5), None);
    assert_eq!(drive(&mut state, &mut kept, 0), None);
}

#[test]
fn event_handle_is_waited_for() {
    let thread = get_event_handle().reply(HandleReply::Word(Reply::Value(1)));
    assert_eq!(thread.request(), HandleRequest::Yield);
    let thread = thread.reply(HandleReply::Word(Reply::Done));
    assert_eq!(thread, HandleState::Reload);
    let refused = HandleState::Claim.reply(HandleReply::Word(Reply::Refused(1)));
    assert_eq!(refused, HandleState::Waiting);
}

#[test]
fn event_handle_is_the_same_for_threads_that_race() {
    for seed in 0..200u64 {
        let (mut state, mut kept, mut creations, mut seed) = (0usize, None, 0usize, seed);
        let mut threads = vec![get_event_handle(), get_event_handle(), get_event_handle()];
        while threads.iter().any(|thread| !matches!(thread, HandleState::Done { .. })) {
            seed = seed.wrapping_mul(6364136223846793005).wrapping_add(1442695040888963407);
            let t = (seed >> 33) as usize % threads.len();
            let thread = std::mem::replace(&mut threads[t], HandleState::Reload);
            let reply = match thread.request() {
                HandleRequest::Word(access) => {
                    let cell = AtomicUsize::new(state);
                    let reply = perform_on_word(&cell, access);
                    state = cell.into_inner();
                    HandleReply::Word(reply)
                }
                HandleRequest::Yield | HandleRequest::Nothing => HandleReply::Word(Reply::Done),
                HandleRequest::Create { .. } => {
                    creations += 1;
                    HandleReply::Created { status: 0, handle: 100 + t }
                }
                HandleRequest::Keep { handle } => {
                    kept = handle;
                    HandleReply::Word(Reply::Done)
                }
                HandleRequest::Read => HandleReply::Kept { handle: kept },
            };
            threads[t] = thread.reply(reply);
        }
        assert_eq!(creations, 1);
        assert!(kept.is_some());
        for thread in threads {
            assert_eq!(thread, HandleState::Done { handle: kept });
        }
    }
}
