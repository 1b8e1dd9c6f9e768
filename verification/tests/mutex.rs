use custom_lock::lock::LockState;
use custom_lock::mutex::Mutex;
use custom_lock::unlock::UnlockState;

#[test]
fn new_mutex_is_free_and_keeps_its_value() {
    let mutex = Mutex::new(5u32);
    assert_eq!(mutex.state, 0);
    assert_eq!(mutex.value, 5);
    assert_eq!(mutex.into_inner(), 5);
}

#[test]
fn from_and_default_make_free_mutexes() {
    let mutex: Mutex<u32> = Mutex::from(7);
    assert_eq!((mutex.state, mutex.value), (0, 7));
    let mutex: Mutex<u32> = Default::default();
    assert_eq!((mutex.state, mutex.value), (0, 0));
}

#[test]
fn get_mut_needs_no_lock() {
    let mut mutex = Mutex::new(1u8);
    *mutex.get_mut() = 9;
    assert_eq!((mutex.state, mutex.value), (0, 9));
    let mut held = Mutex { state: 1, value: 2u8 };
    *held.get_mut() += 1;
    assert_eq!((held.state, held.value), (1, 3));
    assert_eq!(held.into_inner(), 3);
}

#[test]
fn try_lock_takes_a_word_that_is_zero() {
    let mut mutex = Mutex::new(5u32);
    {
        let mut guard = mutex.try_lock().unwrap();
        *guard += 1;
        assert_eq!(*guard, 6);
        assert_eq!(guard.hold.word.as_deref(), Some(&1));
    }
    assert_eq!((mutex.state, mutex.value), (0, 6));
}

#[test]
fn try_lock_leaves_a_held_mutex_alone() {
    let mut mutex = Mutex { state: 1, value: 6u32 };
    assert!(mutex.try_lock().is_none());
    assert_eq!((mutex.state, mutex.value), (1, 6));
}

#[test]
fn guard_lets_the_mutex_go_when_it_leaves_scope() {
    for state in [0usize, 2, 0x40, 0x42] {
        let mut mutex = Mutex { state, value: 1u32 };
        match mutex.lock() {
            Ok(mut guard) => *guard = 2,
            Err(_) => panic!("not held"),
        }
        assert_eq!((mutex.state, mutex.value), (state, 2));
    }
    let mut mutex = Mutex::new(0u32);
    for _ in 0..3 {
        *mutex.try_lock().unwrap() += 1;
    }
    assert_eq!(mutex.into_inner(), 3);
}

#[test]
fn try_lock_gives_way_to_waiters() {
    let mut mutex = Mutex { state: 0x40, value: () };
    assert!(mutex.try_lock().is_none());
    assert_eq!(mutex.state, 0x40);
    let mut popping = Mutex { state: 0x42, value: () };
    assert!(popping.try_lock().is_none());
    assert_eq!(popping.state, 0x42);
}

#[test]
fn lock_takes_any_mutex_that_is_not_held() {
    for state in [0usize, 2, 0x40, 0x42] {
        let mut mutex = Mutex { state, value: 'a' };
        match mutex.lock() {
            Ok(mut guard) => {
                *guard = 'b';
                assert_eq!(guard.hold.word.as_deref(), Some(&(state + 1)));
            }
            Err(_) => panic!("not held"),
        }
        assert_eq!((mutex.state, mutex.value), (state, 'b'));
    }
}

#[test]
fn lock_leaves_a_held_mutex_alone() {
    for state in [1usize, 3, 0x41, 0x43] {
        let mut mutex = Mutex { state, value: 'a' };
        match mutex.lock() {
            Ok(_) => panic!("held"),
            Err(rest) => assert_eq!(rest, LockState::Seen { state, spin_count: 0 }),
        }
        assert_eq!((mutex.state, mutex.value), (state, 'a'));
    }
}

#[test]
fn unlock_undoes_lock() {
    let mut mutex = Mutex::new(1u32);
    let guard = mutex.try_lock().unwrap();
    assert_eq!(guard.unlock(), UnlockState::Done);
    assert_eq!((mutex.state, mutex.value), (0, 1));
    for state in [0usize, 2, 0x40, 0x42] {
        let mut mutex = Mutex { state, value: 1u32 };
        let rest = mutex.lock().unwrap_or_else(|_| panic!("not held")).unlock();
        assert_eq!(
            rest,
            if state == 0x40 { UnlockState::Reload } else { UnlockState::Done }
        );
        assert_eq!((mutex.state, mutex.value), (state, 1));
    }
}

#[test]
fn force_unlock_tells_whether_somebody_is_to_be_woken() {
    let expected = [
        (1usize, UnlockState::Done),
        (3, UnlockState::Done),
        (0x41, UnlockState::Reload),
        (0x43, UnlockState::Done),
    ];
    for (state, rest) in expected {
        let mut mutex = Mutex { state, value: () };
        assert_eq!(mutex.force_unlock(), rest);
        assert_eq!(mutex.state, state - 1);
    }
}
