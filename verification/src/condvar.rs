//! Putting one thread to sleep until another wakes it, over a mutex and a condition variable of
//! the operating system.
//!
//! Both methods run while that mutex is held, so each is one step to every other thread.

use vstd::prelude::*;

verus! {

/// What the mutex of the operating system protects.
#[derive(Debug, PartialEq, Eq)]
pub struct Parker {
    pub is_unparked: bool,
}

impl Parker {
    /// Whether a thread that parks here has to wait.
    pub open spec fn makes_wait(self) -> bool {
        !self.is_unparked
    }

    /// Whether an unpark here has to signal the condition variable.
    pub open spec fn calls_for_signal(self) -> bool {
        !self.is_unparked
    }

    /// The parker after an unpark.
    pub open spec fn unparked(self) -> Parker {
        Parker { is_unparked: true }
    }

    /// A parker that nobody has used yet.
    pub fn new() -> (parker: Parker)
        ensures
            !parker.is_unparked,
    {
        Parker { is_unparked: false }
    }

    /// Marks the thread as woken. Returns whether the condition variable has to be signalled:
    /// only the first time.
    pub fn unpark(&mut self) -> (signal: bool)
        ensures
            *final(self) == old(self).unparked(),
            signal == old(self).calls_for_signal(),
    {
        let signal = !self.is_unparked;
        if signal {
            self.is_unparked = true;
        }
        signal
    }

    /// Whether the thread has to wait on the condition variable, for the first time or once
    /// more.
    pub fn park(&self) -> (wait: bool)
        ensures
            wait == self.makes_wait(),
    {
        !self.is_unparked
    }
}

/// A parker and the thread that parks there.
pub ghost struct Parking {
    pub parker: Parker,
    /// Whether the thread waits on the condition variable.
    pub asleep: bool,
    /// Whether the thread is through.
    pub done: bool,
}

pub ghost enum ParkingStep {
    /// The thread looks at the parker, and waits or is through.
    Park,
    /// Some other thread unparks it, and signals if it has to.
    Unpark,
    /// The thread stops waiting for no reason.
    WakeUp,
}

impl Parking {
    /// A parker that nobody has used yet.
    pub open spec fn starts(self) -> bool {
        !self.parker.is_unparked && !self.asleep && !self.done
    }

    /// Whether the step can be taken.
    pub open spec fn allows(self, step: ParkingStep) -> bool {
        match step {
            ParkingStep::Park => !self.asleep && !self.done,
            ParkingStep::Unpark => true,
            ParkingStep::WakeUp => self.asleep,
        }
    }

    /// What the step makes of the parker and its thread.
    pub open spec fn take(self, step: ParkingStep) -> Parking {
        match step {
            ParkingStep::Park => Parking {
                asleep: self.parker.makes_wait(),
                done: !self.parker.makes_wait(),
                ..self
            },
            ParkingStep::Unpark => Parking {
                parker: self.parker.unparked(),
                asleep: self.asleep && !self.parker.calls_for_signal(),
                ..self
            },
            ParkingStep::WakeUp => Parking { asleep: false, ..self },
        }
    }
}

/// Whether these follow on one another, from a parker that nobody has used yet, by these steps.
pub open spec fn is_parking_run(parkings: Seq<Parking>, steps: Seq<ParkingStep>) -> bool {
    &&& parkings.len() == steps.len() + 1
    &&& parkings[0].starts()
    &&& forall|i: int|
        0 <= i < steps.len() ==> parkings[i].allows(#[trigger] steps[i]) && parkings[i + 1]
            == parkings[i].take(steps[i])
}

/// Parking ends only after an unpark, and no thread sleeps after one, whichever comes first.
pub proof fn law_unparked_stays_awake(parkings: Seq<Parking>, steps: Seq<ParkingStep>, i: int)
    requires
        is_parking_run(parkings, steps),
        0 <= i < parkings.len(),
    ensures
        parkings[i].done ==> parkings[i].parker.is_unparked,
        parkings[i].asleep ==> !parkings[i].parker.is_unparked,
    decreases i,
{
    if i > 0 {
        law_unparked_stays_awake(parkings, steps, i - 1);
        assert(parkings[i - 1].allows(steps[i - 1]));
    }
}

/// Once a thread was unparked it is through, or its next look at the parker gets it through.
pub proof fn law_woken_thread_gets_through(
    parkings: Seq<Parking>,
    steps: Seq<ParkingStep>,
    i: int,
)
    requires
        is_parking_run(parkings, steps),
        0 <= i < parkings.len(),
        parkings[i].parker.is_unparked,
    ensures
        parkings[i].done || (parkings[i].allows(ParkingStep::Park) && parkings[i].take(
            ParkingStep::Park,
        ).done),
{
    law_unparked_stays_awake(parkings, steps, i);
}

/// A thread has to wait exactly until the first unpark of its parker, and only that one signals:
/// after an unpark neither a park waits nor another unpark signals, and before it both do.
pub proof fn law_first_unpark_signals(
    fresh: Parker,
    parker: &mut Parker,
    signal: bool,
    again: &mut Parker,
    signal_again: bool,
    wait_fresh: bool,
    wait_before: bool,
    wait_after: bool,
)
    requires
        call_ensures(Parker::new, (), fresh),
        call_ensures(Parker::unpark, (parker,), signal),
        call_ensures(Parker::unpark, (again,), signal_again),
        *old(again) == *final(parker),
        call_ensures(Parker::park, (&fresh,), wait_fresh),
        call_ensures(Parker::park, (&*old(parker),), wait_before),
        call_ensures(Parker::park, (&*final(parker),), wait_after),
    ensures
        wait_fresh,
        signal == wait_before,
        wait_before == !old(parker).is_unparked,
        final(parker).is_unparked,
        !wait_after,
        !signal_again,
        *final(again) == *old(again),
{
}

} // verus!
