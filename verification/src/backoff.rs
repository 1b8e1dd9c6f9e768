//! Waiting for a cell to change where the operating system cannot block a thread on it.

use vstd::prelude::*;

verus! {

/// What to do before looking at the cell again.
#[derive(Debug, PartialEq, Eq)]
pub enum Pause {
    /// So many hints to the processor that this is a spin loop.
    Spin { times: usize },
    /// Give the rest of this time slice away.
    Yield,
    /// Sleep.
    Sleep { millis: u64 },
}

/// How often a thread has looked at the cell.
#[derive(Debug, PartialEq, Eq)]
pub struct SpinWait {
    pub spin_count: usize,
}

/// The pause before the look with this number.
pub open spec fn pause_at(spin_count: usize) -> Pause {
    if spin_count <= 4 {
        Pause::Spin { times: 30 }
    } else if spin_count <= 10 {
        Pause::Yield
    } else if spin_count <= 12 {
        Pause::Sleep { millis: 1 }
    } else {
        Pause::Sleep { millis: 10 }
    }
}

/// How patient a pause is.
pub open spec fn patience(pause: Pause) -> int {
    match pause {
        Pause::Spin { .. } => -1,
        Pause::Yield => 0,
        Pause::Sleep { millis } => millis as int,
    }
}

/// A thread gets no less patient, until its count wraps around.
pub proof fn law_patience_grows(earlier: usize, later: usize)
    requires
        earlier <= later,
    ensures
        patience(pause_at(earlier)) <= patience(pause_at(later)),
{
}

impl SpinWait {
    /// A thread that has not looked yet.
    pub fn new() -> (wait: SpinWait)
        ensures
            wait.spin_count == 0,
    {
        SpinWait { spin_count: 0 }
    }

    /// Counts one more look, which may wrap around, and returns the pause before the next one.
    pub fn pause(&mut self) -> (pause: Pause)
        ensures
            final(self).spin_count == (if old(self).spin_count == usize::MAX {
                0
            } else {
                old(self).spin_count + 1
            }),
            pause == pause_at(final(self).spin_count),
    {
        self.spin_count = self.spin_count.wrapping_add(1);
        match self.spin_count {
            0..=4 => Pause::Spin { times: 30 },
            5..=10 => Pause::Yield,
            11..=12 => Pause::Sleep { millis: 1 },
            _ => Pause::Sleep { millis: 10 },
        }
    }
}

/// Each pause counts one look, around the end of the range if need be. Up to the fourth look a
/// thread spins 30 times, up to the tenth it yields, up to the twelfth it sleeps for 1 ms, and
/// from then on for 10 ms.
pub proof fn law_pauses_in_order(wait: &mut SpinWait, pause: Pause)
    requires
        call_ensures(SpinWait::pause, (wait,), pause),
    ensures
        old(wait).spin_count < usize::MAX ==> final(wait).spin_count == old(wait).spin_count + 1,
        old(wait).spin_count == usize::MAX ==> final(wait).spin_count == 0,
        final(wait).spin_count <= 4 <==> pause == (Pause::Spin { times: 30 }),
        5 <= final(wait).spin_count <= 10 <==> pause == Pause::Yield,
        11 <= final(wait).spin_count <= 12 <==> pause == (Pause::Sleep { millis: 1 }),
        13 <= final(wait).spin_count <==> pause == (Pause::Sleep { millis: 10 }),
{
}

} // verus!
