//! What holds of one parker, the thread that waits there and those that wake it.
//!
//! Blocking is that of a futex: whoever asks to be blocked goes to sleep only while the cell
//! holds the expected value, a wake call ends the sleep, and so may nothing at all.

use crate::access::{answers, Reply};
use crate::parker::{
    ParkRequest, ParkState, UnparkRequest, UnparkState, WaitRequest, WaitState, EMPTY, PARKED,
    UNPARKED,
};
use vstd::prelude::*;

verus! {

/// A parker's cell, the thread that parks there, and any number of threads that unpark it.
pub ghost struct Parking {
    pub cell: i32,
    pub park: ParkState,
    pub wait: WaitState,
    /// Whether the parked thread sleeps in the kernel.
    pub asleep: bool,
    pub unparks: Seq<UnparkState>,
}

/// One step of the thread that parks, or of the thread `u` that unparks it.
pub ghost enum ParkingStep {
    ParkCell { cell: i32, park_reply: Reply<i32> },
    WaitCell { cell: i32, wait_reply: Reply<i32> },
    /// Asks to be blocked and goes to sleep.
    FallAsleep,
    /// Wakes up, for whatever reason.
    WakeUp,
    /// Comes back from being blocked.
    Return,
    WaitOver,
    UnparkCell { u: int, cell: i32, unpark_reply: Reply<i32> },
    UnparkWake { u: int },
}

impl Parking {
    pub open spec fn has(self, u: int) -> bool {
        0 <= u < self.unparks.len()
    }

    /// A parker that nobody has used yet.
    pub open spec fn starts(self) -> bool {
        &&& self.cell == EMPTY
        &&& self.park is Start
        &&& self.wait is Recheck
        &&& !self.asleep
        &&& forall|u: int| #[trigger] self.has(u) ==> self.unparks[u] is Start
    }

    /// Whether the step can be taken.
    pub open spec fn allows(self, step: ParkingStep) -> bool {
        match step {
            ParkingStep::ParkCell { cell, park_reply } => {
                &&& self.park.asks() matches ParkRequest::Cell(access)
                &&& answers(self.cell, access, cell, park_reply)
            },
            ParkingStep::WaitCell { cell, wait_reply } => {
                &&& self.park.asks() is Wait
                &&& self.wait.asks() matches WaitRequest::Cell(access)
                &&& answers(self.cell, access, cell, wait_reply)
            },
            ParkingStep::FallAsleep => {
                &&& self.park.asks() is Wait
                &&& self.wait.asks() matches WaitRequest::Block { expected }
                &&& self.cell == expected
                &&& !self.asleep
            },
            ParkingStep::WakeUp => self.asleep,
            ParkingStep::Return => {
                &&& self.park.asks() is Wait
                &&& self.wait.asks() is Block
                &&& !self.asleep
            },
            ParkingStep::WaitOver => self.park.asks() is Wait && self.wait.asks() is Nothing,
            ParkingStep::UnparkCell { u, cell, unpark_reply } => {
                &&& self.has(u)
                &&& self.unparks[u].asks() matches UnparkRequest::Cell(access)
                &&& answers(self.cell, access, cell, unpark_reply)
            },
            ParkingStep::UnparkWake { u } => self.has(u) && self.unparks[u].asks() is Wake,
        }
    }

    /// What the step makes of the parker and its threads.
    pub open spec fn take(self, step: ParkingStep) -> Parking {
        match step {
            ParkingStep::ParkCell { cell, park_reply } => Parking {
                cell,
                park: self.park.after(park_reply),
                ..self
            },
            ParkingStep::WaitCell { cell, wait_reply } => Parking {
                cell,
                wait: self.wait.after(wait_reply),
                ..self
            },
            ParkingStep::FallAsleep => Parking { asleep: true, ..self },
            ParkingStep::WakeUp => Parking { asleep: false, ..self },
            ParkingStep::Return => Parking { wait: self.wait.after(Reply::Done), ..self },
            ParkingStep::WaitOver => Parking { park: self.park.after(Reply::Done), ..self },
            ParkingStep::UnparkCell { u, cell, unpark_reply } => Parking {
                cell,
                unparks: self.unparks.update(u, self.unparks[u].after(unpark_reply)),
                ..self
            },
            ParkingStep::UnparkWake { u } => Parking {
                asleep: false,
                unparks: self.unparks.update(u, self.unparks[u].after(Reply::Done)),
                ..self
            },
        }
    }
}

/// Whether these follow on one another, from a parker that nobody has used yet, by these steps.
pub open spec fn is_parking_run(parkings: Seq<Parking>, steps: Seq<ParkingStep>) -> bool {
    &&& parkings.len() == steps.len() + 1
    &&& parkings[0].starts()
    &&& forall|i: int|
        0 <= i < steps.len() ==> parkings[i].allows(#[trigger] steps[i]) && parkings[i + 1]
            == parkings[i].take(steps[i])
}

/// What each step keeps.
spec fn is_sound(p: Parking) -> bool {
    &&& p.cell == EMPTY || p.cell == PARKED || p.cell == UNPARKED
    &&& match p.park {
        ParkState::Start | ParkState::Claim => p.cell != PARKED && p.wait is Recheck && !p.asleep,
        ParkState::Waiting => p.cell != EMPTY && (p.wait is Done ==> p.cell == UNPARKED),
        ParkState::Done => p.cell == UNPARKED && !p.asleep,
    }
    &&& p.asleep ==> p.wait is Blocked
    &&& p.cell == UNPARKED <==> exists|u: int| #[trigger] p.has(u) && !(p.unparks[u] is Start)
    &&& p.asleep && p.cell != PARKED ==> exists|u: int| #[trigger]
        p.has(u) && p.unparks[u] is Waking
    &&& forall|u: int, v: int| #[trigger]
        p.has(u) && #[trigger] p.has(v) && p.unparks[u] is Waking && p.unparks[v] is Waking ==> u
            == v
}

proof fn lemma_step(p: Parking, step: ParkingStep)
    requires
        is_sound(p),
        p.allows(step),
    ensures
        is_sound(p.take(step)),
{
    let p2 = p.take(step);
    assert(forall|u: int| p2.has(u) == p.has(u));
    match step {
        ParkingStep::UnparkCell { u, .. } => {
            assert(p2.has(u));
        },
        ParkingStep::UnparkWake { u } => {
            assert(p2.has(u));
        },
        _ => {},
    }
}

proof fn lemma_run(parkings: Seq<Parking>, steps: Seq<ParkingStep>, i: int)
    requires
        is_parking_run(parkings, steps),
        0 <= i < parkings.len(),
    ensures
        is_sound(parkings[i]),
    decreases i,
{
    if i > 0 {
        lemma_run(parkings, steps, i - 1);
        lemma_step(parkings[i - 1], steps[i - 1]);
    }
}

/// Parking ends only after some thread has marked the parked one as woken.
pub proof fn law_park_ends_after_unpark(
    parkings: Seq<Parking>,
    steps: Seq<ParkingStep>,
    i: int,
)
    requires
        is_parking_run(parkings, steps),
        0 <= i < parkings.len(),
        parkings[i].park is Done,
    ensures
        parkings[i].cell == UNPARKED,
        exists|u: int| #[trigger] parkings[i].has(u) && !(parkings[i].unparks[u] is Start),
{
    lemma_run(parkings, steps, i);
}

/// No wakeup is lost: a thread that sleeps although it was marked as woken is about to be woken,
/// by exactly one other.
pub proof fn law_no_wakeup_is_lost(parkings: Seq<Parking>, steps: Seq<ParkingStep>, i: int)
    requires
        is_parking_run(parkings, steps),
        0 <= i < parkings.len(),
    ensures
        parkings[i].asleep && parkings[i].cell == UNPARKED ==> exists|u: int| #[trigger]
            parkings[i].has(u) && parkings[i].unparks[u] is Waking,
        forall|u: int, v: int| #[trigger]
            parkings[i].has(u) && #[trigger] parkings[i].has(v) && parkings[i].unparks[u] is Waking
                && parkings[i].unparks[v] is Waking ==> u == v,
{
    lemma_run(parkings, steps, i);
}

/// Once an unpark is through, the thread does not sleep any more, nor again.
pub proof fn law_unparked_stays_awake(parkings: Seq<Parking>, steps: Seq<ParkingStep>, i: int)
    requires
        is_parking_run(parkings, steps),
        0 <= i < parkings.len(),
        exists|u: int| #[trigger] parkings[i].has(u) && parkings[i].unparks[u] is Done,
        forall|u: int| #[trigger] parkings[i].has(u) ==> !(parkings[i].unparks[u] is Waking),
    ensures
        !parkings[i].asleep,
        !parkings[i].allows(ParkingStep::FallAsleep),
{
    lemma_run(parkings, steps, i);
}

/// How much a thread that was marked as woken has still to do before it is through.
pub open spec fn left_to_do(p: Parking) -> nat {
    match p.park {
        ParkState::Start => 6,
        ParkState::Claim => 6,
        ParkState::Waiting => match p.wait {
            WaitState::Blocked => if p.asleep {
                5
            } else {
                4
            },
            WaitState::Recheck => 3,
            WaitState::Done => 2,
        },
        ParkState::Done => 0,
    }
}

/// Whether the step is one of the thread that parks.
pub open spec fn is_parkers(step: ParkingStep) -> bool {
    match step {
        ParkingStep::ParkCell { .. } => true,
        ParkingStep::WaitCell { .. } => true,
        ParkingStep::FallAsleep => true,
        ParkingStep::Return => true,
        ParkingStep::WaitOver => true,
        _ => false,
    }
}

/// Whether the step is one of the thread `u` that unparks.
pub open spec fn is_unparkers(step: ParkingStep, u: int) -> bool {
    match step {
        ParkingStep::UnparkCell { u: v, .. } => v == u,
        ParkingStep::UnparkWake { u: v } => v == u,
        _ => false,
    }
}

proof fn lemma_woken_step(p: Parking, step: ParkingStep)
    requires
        is_sound(p),
        p.allows(step),
        p.cell == UNPARKED,
    ensures
        p.take(step).cell == UNPARKED,
        left_to_do(p.take(step)) <= left_to_do(p),
        is_parkers(step) ==> left_to_do(p.take(step)) < left_to_do(p),
        !(step is FallAsleep),
{
}

/// Once a thread was marked as woken, that stays so, each step of its own brings it closer to the
/// end of its parking, and no step of another takes it further from there.
pub proof fn law_woken_thread_gets_through(
    parkings: Seq<Parking>,
    steps: Seq<ParkingStep>,
    i: int,
)
    requires
        is_parking_run(parkings, steps),
        0 <= i < steps.len(),
        parkings[i].cell == UNPARKED,
    ensures
        parkings[i + 1].cell == UNPARKED,
        left_to_do(parkings[i + 1]) <= left_to_do(parkings[i]),
        is_parkers(steps[i]) ==> left_to_do(parkings[i + 1]) < left_to_do(parkings[i]),
        left_to_do(parkings[i]) == 0 <==> parkings[i].park is Done,
{
    lemma_run(parkings, steps, i);
    assert(parkings[i].allows(steps[i]));
    lemma_woken_step(parkings[i], steps[i]);
}

/// Whether these follow on one another without end, from a parker that nobody has used yet, by
/// these steps. Now and then nothing may happen.
pub open spec fn is_endless_parking(
    parkings: spec_fn(nat) -> Parking,
    steps: spec_fn(nat) -> Option<ParkingStep>,
) -> bool {
    &&& parkings(0).starts()
    &&& forall|i: nat| goes_to(parkings(i), #[trigger] steps(i), parkings(i + 1))
}

pub open spec fn goes_to(p: Parking, step: Option<ParkingStep>, p2: Parking) -> bool {
    match step {
        Some(step) => p.allows(step) && p2 == p.take(step),
        None => p2 == p,
    }
}

pub open spec fn parker_is_due(p: Parking) -> bool {
    !(p.park is Done) && !p.asleep
}

pub open spec fn unparker_is_due(p: Parking, u: int) -> bool {
    p.has(u) && !(p.unparks[u] is Done)
}

pub open spec fn parker_moves(step: Option<ParkingStep>) -> bool {
    step matches Some(step) && is_parkers(step)
}

pub open spec fn unparker_moves(step: Option<ParkingStep>, u: int) -> bool {
    step matches Some(step) && is_unparkers(step, u)
}

/// Whether the scheduler is fair: whoever is not through and not asleep sooner or later takes a
/// step.
pub open spec fn is_fair(
    parkings: spec_fn(nat) -> Parking,
    steps: spec_fn(nat) -> Option<ParkingStep>,
) -> bool {
    &&& forall|i: nat| #[trigger]
        parker_is_due(parkings(i)) ==> exists|j: nat|
            i <= j && #[trigger] parker_moves(steps(j))
    &&& forall|i: nat, u: int| #[trigger]
        unparker_is_due(parkings(i), u) ==> exists|j: nat|
            i <= j && #[trigger] unparker_moves(steps(j), u)
}

proof fn lemma_endless(
    parkings: spec_fn(nat) -> Parking,
    steps: spec_fn(nat) -> Option<ParkingStep>,
    i: nat,
)
    requires
        is_endless_parking(parkings, steps),
    ensures
        is_sound(parkings(i)),
        parkings(i).unparks.len() == parkings(0).unparks.len(),
    decreases i,
{
    if i > 0 {
        let k = (i - 1) as nat;
        lemma_endless(parkings, steps, k);
        assert(goes_to(parkings(k), steps(k), parkings(k + 1)));
        if let Some(step) = steps(k) {
            lemma_step(parkings(k), step);
        }
    }
}

spec fn nobody_wakes(p: Parking) -> bool {
    forall|u: int| #[trigger] p.has(u) ==> !(p.unparks[u] is Waking)
}

/// What holds once the thread was marked as woken still holds later.
proof fn lemma_woken_stays(
    parkings: spec_fn(nat) -> Parking,
    steps: spec_fn(nat) -> Option<ParkingStep>,
    i: nat,
    j: nat,
)
    requires
        is_endless_parking(parkings, steps),
        parkings(i).cell == UNPARKED,
        i <= j,
    ensures
        parkings(j).cell == UNPARKED,
        left_to_do(parkings(j)) <= left_to_do(parkings(i)),
        nobody_wakes(parkings(i)) ==> nobody_wakes(parkings(j)),
    decreases j - i,
{
    if i < j {
        let k = (j - 1) as nat;
        lemma_woken_stays(parkings, steps, i, k);
        lemma_endless(parkings, steps, k);
        assert(goes_to(parkings(k), steps(k), parkings(k + 1)));
        if let Some(step) = steps(k) {
            lemma_woken_step(parkings(k), step);
            assert(forall|u: int| #[trigger] parkings(j).has(u) ==> parkings(k).has(u));
        }
    }
}

proof fn lemma_gets_through(
    parkings: spec_fn(nat) -> Parking,
    steps: spec_fn(nat) -> Option<ParkingStep>,
    i: nat,
) -> (end: nat)
    requires
        is_endless_parking(parkings, steps),
        is_fair(parkings, steps),
        parkings(i).cell == UNPARKED,
        nobody_wakes(parkings(i)),
    ensures
        parkings(end).park is Done,
    decreases left_to_do(parkings(i)),
{
    if parkings(i).park is Done {
        i
    } else {
        lemma_endless(parkings, steps, i);
        assert(parker_is_due(parkings(i)));
        let j = choose|j: nat| i <= j && #[trigger] parker_moves(steps(j));
        lemma_woken_stays(parkings, steps, i, j);
        lemma_endless(parkings, steps, j);
        assert(goes_to(parkings(j), steps(j), parkings(j + 1)));
        lemma_woken_step(parkings(j), steps(j)->0);
        lemma_woken_stays(parkings, steps, i, j + 1);
        lemma_gets_through(parkings, steps, j + 1)
    }
}

/// Some thread marks the parked one as woken.
proof fn lemma_gets_marked(
    parkings: spec_fn(nat) -> Parking,
    steps: spec_fn(nat) -> Option<ParkingStep>,
) -> (i: nat)
    requires
        is_endless_parking(parkings, steps),
        is_fair(parkings, steps),
        parkings(0).unparks.len() > 0,
    ensures
        parkings(i).cell == UNPARKED,
{
    assert(parkings(0).has(0));
    assert(unparker_is_due(parkings(0), 0));
    let j = choose|j: nat| 0 <= j && #[trigger] unparker_moves(steps(j), 0);
    lemma_endless(parkings, steps, j);
    lemma_endless(parkings, steps, j + 1);
    assert(goes_to(parkings(j), steps(j), parkings(j + 1)));
    assert(parkings(j + 1).has(0));
    j + 1
}

/// Whoever has to wake the thread after that does so.
proof fn lemma_gets_woken(
    parkings: spec_fn(nat) -> Parking,
    steps: spec_fn(nat) -> Option<ParkingStep>,
    i: nat,
) -> (j: nat)
    requires
        is_endless_parking(parkings, steps),
        is_fair(parkings, steps),
        parkings(i).cell == UNPARKED,
    ensures
        parkings(j).cell == UNPARKED,
        nobody_wakes(parkings(j)),
{
    if nobody_wakes(parkings(i)) {
        i
    } else {
        let u = choose|u: int| #[trigger] parkings(i).has(u) && parkings(i).unparks[u] is Waking;
        assert(unparker_is_due(parkings(i), u));
        let k = choose|k: nat| i <= k && #[trigger] unparker_moves(steps(k), u);
        lemma_woken_stays(parkings, steps, i, k);
        lemma_waker_waits(parkings, steps, i, k, u);
        lemma_endless(parkings, steps, k);
        assert(goes_to(parkings(k), steps(k), parkings(k + 1)));
        let p = parkings(k);
        let p2 = parkings(k + 1);
        assert(p.has(u));
        lemma_woken_step(p, steps(k)->0);
        assert forall|v: int| #[trigger] p2.has(v) implies !(p2.unparks[v] is Waking) by {
            assert(p.has(v));
        }
        k + 1
    }
}

/// Parking ends: under a fair scheduler, and if at least one thread unparks, in whatever order and
/// with whatever interleaving, the thread that parks comes back.
pub proof fn law_park_returns(
    parkings: spec_fn(nat) -> Parking,
    steps: spec_fn(nat) -> Option<ParkingStep>,
)
    requires
        is_endless_parking(parkings, steps),
        is_fair(parkings, steps),
        parkings(0).unparks.len() > 0,
    ensures
        exists|end: nat| (#[trigger] parkings(end)).park is Done,
{
    let i = lemma_gets_marked(parkings, steps);
    let j = lemma_gets_woken(parkings, steps, i);
    let end = lemma_gets_through(parkings, steps, j);
    assert(parkings(end).park is Done);
}

/// A thread that was about to wake the parked one has nothing else to do.
proof fn lemma_waker_waits(
    parkings: spec_fn(nat) -> Parking,
    steps: spec_fn(nat) -> Option<ParkingStep>,
    i: nat,
    j: nat,
    u: int,
)
    requires
        is_endless_parking(parkings, steps),
        parkings(i).has(u),
        parkings(i).unparks[u] is Waking,
        i <= j,
    ensures
        parkings(j).has(u),
        parkings(j).unparks[u] is Waking || parkings(j).unparks[u] is Done,
    decreases j - i,
{
    if i < j {
        let k = (j - 1) as nat;
        lemma_waker_waits(parkings, steps, i, k, u);
        assert(goes_to(parkings(k), steps(k), parkings(k + 1)));
    }
}

} // verus!
