use custom_lock::access::{Access, Reply};
use custom_lock::lock::{LockRequest, LockState};
use custom_lock::mutex::Mutex;
use custom_lock::parker::{
    ParkRequest, ParkState, Parker, UnparkRequest, UnparkState, WaitRequest, WaitState,
};
use custom_lock::unlock::{UnlockRequest, UnlockState};
use custom_lock::word::head;

/// What a thread is doing, one access to shared memory at a time.
enum Doing {
    Idle,
    Locking(LockState),
    Parking(ParkState),
    Waiting(WaitState),
    Reading,
    Writing(u128),
    Unlocking(UnlockState),
    Unparking(usize, UnparkState),
}

struct Node {
    next: usize,
    parker: Parker,
    asleep: bool,
}

struct Process {
    mutex: Mutex<u128>,
    nodes: Vec<Node>,
    threads: Vec<Doing>,
    rounds_left: Vec<usize>,
    seed: u64,
    parked: usize,
    woken: usize,
}

fn answer<V: Copy + PartialEq>(cell: &mut V, access: Access<V>, spurious: bool) -> Reply<V> {
    let before = *cell;
    match access {
        Access::Load => Reply::Value(before),
        Access::Store { new } => {
            *cell = new;
            Reply::Done
        }
        Access::Swap { new } => {
            *cell = new;
            Reply::Value(before)
        }
        Access::CompareExchangeWeak { current, new, .. } => {
            if before == current && !spurious {
                *cell = new;
                Reply::Exchanged(before)
            } else {
                Reply::Refused(before)
            }
        }
    }
}

fn address(thread: usize) -> usize {
    8 * (thread + 1)
}

fn owner(address: usize) -> usize {
    address / 8 - 1
}

impl Process {
    fn new(threads: usize, rounds: usize, seed: u64) -> Process {
        Process {
            mutex: Mutex::new(0),
            nodes: (0..threads)
                .map(|_| Node { next: 0, parker: Parker::new(), asleep: false })
                .collect(),
            threads: (0..threads).map(|_| Doing::Idle).collect(),
            rounds_left: vec![rounds; threads],
            seed,
            parked: 0,
            woken: 0,
        }
    }

    fn random(&mut self) -> usize {
        self.seed = self.seed.wrapping_mul(6364136223846793005).wrapping_add(1442695040888963407);
        (self.seed >> 33) as usize
    }

    fn holders(&self) -> usize {
        self.threads
            .iter()
            .filter(|doing| {
                matches!(
                    doing,
                    Doing::Reading | Doing::Writing(_) | Doing::Unlocking(UnlockState::Start)
                )
            })
            .count()
    }

    /// One step of thread `t`; false when it has nothing to do or sleeps.
    fn step(&mut self, t: usize) -> bool {
        if self.nodes[t].asleep {
            return false;
        }
        let spurious = self.random() % 8 == 0;
        let doing = std::mem::replace(&mut self.threads[t], Doing::Idle);
        self.threads[t] = match doing {
            Doing::Idle => {
                if self.rounds_left[t] == 0 {
                    return false;
                }
                self.rounds_left[t] -= 1;
                Doing::Locking(LockState::Start)
            }
            Doing::Locking(state) => match state.request() {
                LockRequest::Word(access) => {
                    let reply = answer(&mut self.mutex.state, access, spurious);
                    Doing::Locking(state.reply(reply))
                }
                LockRequest::Spin { .. } | LockRequest::Yield => {
                    Doing::Locking(state.reply(Reply::Done))
                }
                LockRequest::Enqueue { next } => {
                    let publish = state.publish(address(t));
                    self.nodes[t] = Node { next, parker: Parker::new(), asleep: false };
                    let reply = answer(&mut self.mutex.state, publish, spurious);
                    Doing::Locking(state.reply(reply))
                }
                LockRequest::Park => {
                    self.parked += 1;
                    Doing::Parking(ParkState::Start)
                }
                LockRequest::Nothing => Doing::Reading,
            },
            Doing::Parking(state) => match state.request() {
                ParkRequest::Cell(access) => {
                    let reply = answer(&mut self.nodes[t].parker.state, access, spurious);
                    Doing::Parking(state.reply(reply))
                }
                ParkRequest::Wait => Doing::Waiting(WaitState::Recheck),
                ParkRequest::Nothing => Doing::Locking(LockState::Queued.reply(Reply::Done)),
            },
            Doing::Waiting(state) => match state.request() {
                WaitRequest::Cell(access) => {
                    let reply = answer(&mut self.nodes[t].parker.state, access, spurious);
                    Doing::Waiting(state.reply(reply))
                }
                WaitRequest::Block { expected } => {
                    if self.nodes[t].parker.state == expected {
                        self.nodes[t].asleep = true;
                    }
                    Doing::Waiting(state.reply(Reply::Done))
                }
                WaitRequest::Nothing => Doing::Parking(ParkState::Waiting.reply(Reply::Done)),
            },
            Doing::Reading => Doing::Writing(self.mutex.value),
            Doing::Writing(seen) => {
                self.mutex.value = seen + 1;
                Doing::Unlocking(UnlockState::Start)
            }
            Doing::Unlocking(state) => match state.request() {
                UnlockRequest::FetchSub { amount } => {
                    assert_eq!(amount, 1);
                    let before = self.mutex.state;
                    let rest = self.mutex.force_unlock();
                    assert_eq!(rest, state.reply(Reply::Value(before)));
                    Doing::Unlocking(rest)
                }
                UnlockRequest::Word(access) => {
                    let reply = answer(&mut self.mutex.state, access, spurious);
                    Doing::Unlocking(state.reply(reply))
                }
                UnlockRequest::ReadNext { node } => {
                    let next = self.nodes[owner(node)].next;
                    Doing::Unlocking(state.reply(Reply::Value(next)))
                }
                UnlockRequest::Unpark { node } => Doing::Unparking(node, UnparkState::Start),
                UnlockRequest::Nothing => Doing::Idle,
            },
            Doing::Unparking(node, state) => match state.request() {
                UnparkRequest::Cell(access) => {
                    let cell = &mut self.nodes[owner(node)].parker.state;
                    let reply = answer(cell, access, spurious);
                    Doing::Unparking(node, state.reply(reply))
                }
                UnparkRequest::Wake => {
                    self.nodes[owner(node)].asleep = false;
                    self.woken += 1;
                    Doing::Unparking(node, state.reply(Reply::Done))
                }
                UnparkRequest::Nothing => {
                    let rest = UnlockState::Waking { node }.reply(Reply::Done);
                    Doing::Unlocking(rest)
                }
            },
        };
        assert!(self.holders() <= 1);
        true
    }

    fn run(&mut self) {
        loop {
            let threads = self.threads.len();
            let first = self.random() % threads;
            let moved = (0..threads).any(|k| self.step((first + k) % threads));
            if !moved {
                break;
            }
        }
        assert!(self.nodes.iter().all(|node| !node.asleep));
        assert!(self.rounds_left.iter().all(|rounds| *rounds == 0));
        assert_eq!(self.mutex.state, 0);
        assert_eq!(head(self.mutex.state), 0);
    }
}

#[test]
fn test_mutex() {
    const NUM_THREADS: usize = 3;
    const NUM_ITERATIONS: usize = 100 * 1000;

    let mut process = Process::new(NUM_THREADS, NUM_ITERATIONS, 1);
    process.run();
    assert_eq!(process.mutex.into_inner(), (NUM_THREADS * NUM_ITERATIONS) as u128);
}

#[test]
fn many_threads_queue_up_and_are_woken() {
    for seed in 0..20 {
        let mut process = Process::new(12, 300, seed);
        process.run();
        assert!(process.parked > 0);
        assert!(process.woken > 0);
        assert_eq!(process.mutex.into_inner(), 12 * 300);
    }
}

#[test]
fn one_thread_never_waits() {
    let mut process = Process::new(1, 1000, 7);
    process.run();
    assert_eq!(process.parked, 0);
    assert_eq!(process.mutex.into_inner(), 1000);
}
