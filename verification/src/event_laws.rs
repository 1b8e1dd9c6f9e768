//! What holds of all threads that ask for the event handle.

use crate::access::{answers, Reply};
use crate::event::{
    created, HandleReply, HandleRequest, HandleState, INITIALIZED, INITIALIZING, UNINITIALIZED,
};
use crate::progress_laws::{lemma_sum_update, sum};
use vstd::prelude::*;

verus! {

/// The shared state, what was kept, and the threads that ask.
pub ghost struct Handles {
    pub state: usize,
    pub kept: Option<usize>,
    pub threads: Seq<HandleState>,
}

/// One step of thread `t`.
pub ghost enum HandleStep {
    Word { t: int, state: usize, reply: Reply<usize> },
    Yield { t: int },
    Create { t: int, status: u32, handle: usize },
    Keep { t: int },
    Read { t: int },
}

impl Handles {
    pub open spec fn has(self, t: int) -> bool {
        0 <= t < self.threads.len()
    }

    /// Nobody has asked yet.
    pub open spec fn starts(self) -> bool {
        &&& self.state == UNINITIALIZED
        &&& forall|t: int| #[trigger] self.has(t) ==> self.threads[t] is Reload
    }

    /// Whether the step can be taken.
    pub open spec fn allows(self, step: HandleStep) -> bool {
        match step {
            HandleStep::Word { t, state, reply } => {
                &&& self.has(t)
                &&& self.threads[t].asks() matches HandleRequest::Word(access)
                &&& answers(self.state, access, state, reply)
            },
            HandleStep::Yield { t } => self.has(t) && self.threads[t].asks() is Yield,
            HandleStep::Create { t, .. } => self.has(t) && self.threads[t].asks() is Create,
            HandleStep::Keep { t } => self.has(t) && self.threads[t].asks() is Keep,
            HandleStep::Read { t } => self.has(t) && self.threads[t].asks() is Read,
        }
    }

    pub open spec fn told(self, t: int, reply: HandleReply) -> Handles {
        Handles { threads: self.threads.update(t, self.threads[t].after(reply)), ..self }
    }

    /// What the step makes of it all.
    pub open spec fn take(self, step: HandleStep) -> Handles {
        match step {
            HandleStep::Word { t, state, reply } => Handles { state, ..self }.told(
                t,
                HandleReply::Word(reply),
            ),
            HandleStep::Yield { t } => self.told(t, HandleReply::Word(Reply::Done)),
            HandleStep::Create { t, status, handle } => self.told(
                t,
                HandleReply::Created { status, handle },
            ),
            HandleStep::Keep { t } => Handles {
                kept: self.threads[t].asks()->Keep_handle,
                ..self
            }.told(t, HandleReply::Word(Reply::Done)),
            HandleStep::Read { t } => self.told(t, HandleReply::Kept { handle: self.kept }),
        }
    }
}

/// Whether these follow on one another, from the start, by these steps.
pub open spec fn is_handle_run(all: Seq<Handles>, steps: Seq<HandleStep>) -> bool {
    &&& all.len() == steps.len() + 1
    &&& all[0].starts()
    &&& forall|i: int|
        0 <= i < steps.len() ==> all[i].allows(#[trigger] steps[i]) && all[i + 1] == all[i].take(
            steps[i],
        )
}

/// How many of the first `i` steps create a handle.
pub open spec fn creations(steps: Seq<HandleStep>, i: int) -> int
    decreases i,
{
    if i <= 0 {
        0
    } else {
        creations(steps, i - 1) + (if steps[i - 1] is Create {
            1int
        } else {
            0int
        })
    }
}

spec fn works(thread: HandleState) -> bool {
    thread is Creating || thread is Keeping || thread is Publishing
}

/// What each step keeps, `worker` being the thread that creates the handle.
spec fn is_sound(h: Handles, worker: Option<int>, count: int) -> bool {
    &&& h.state == UNINITIALIZED || h.state == INITIALIZING || h.state == INITIALIZED
    &&& h.state == INITIALIZING <==> worker is Some
    &&& worker matches Some(w) ==> h.has(w)
    &&& forall|t: int| #[trigger] h.has(t) ==> (works(h.threads[t]) <==> worker == Some(t))
    &&& forall|t: int| #[trigger]
        h.has(t) && (h.threads[t] is Reading || h.threads[t] is Done) ==> h.state == INITIALIZED
    &&& forall|t: int| #[trigger]
        h.has(t) && h.threads[t] is Waiting ==> h.state != UNINITIALIZED
    &&& forall|t: int| #[trigger]
        h.has(t) ==> (h.threads[t] matches HandleState::Done { handle } ==> handle == h.kept)
    &&& count == (if h.state == UNINITIALIZED {
        0int
    } else if h.state == INITIALIZED {
        1
    } else if h.threads[worker->0] is Creating {
        0
    } else {
        1
    })
}

/// The thread that takes the step.
pub open spec fn stepper(step: HandleStep) -> int {
    match step {
        HandleStep::Word { t, .. } => t,
        HandleStep::Yield { t } => t,
        HandleStep::Create { t, .. } => t,
        HandleStep::Keep { t } => t,
        HandleStep::Read { t } => t,
    }
}

spec fn next_worker(h: Handles, worker: Option<int>, step: HandleStep) -> Option<int> {
    let t = stepper(step);
    if works(h.take(step).threads[t]) {
        Some(t)
    } else if works(h.threads[t]) {
        None
    } else {
        worker
    }
}

proof fn lemma_step(h: Handles, worker: Option<int>, count: int, step: HandleStep)
    requires
        is_sound(h, worker, count),
        h.allows(step),
    ensures
        is_sound(
            h.take(step),
            next_worker(h, worker, step),
            count + (if step is Create {
                1int
            } else {
                0int
            }),
        ),
{
    let h2 = h.take(step);
    let t = stepper(step);
    let worker2 = next_worker(h, worker, step);
    assert(forall|u: int| h2.has(u) == h.has(u));
    assert(h.has(t));
    assert(forall|u: int| #[trigger] h2.has(u) && u != t ==> h2.threads[u] == h.threads[u]);
    assert(h2.state == INITIALIZING <==> worker2 is Some);
    assert(forall|u: int| #[trigger] h2.has(u) ==> (works(h2.threads[u]) <==> worker2 == Some(u)));
}

proof fn lemma_run(all: Seq<Handles>, steps: Seq<HandleStep>, i: int) -> (worker: Option<int>)
    requires
        is_handle_run(all, steps),
        0 <= i < all.len(),
    ensures
        is_sound(all[i], worker, creations(steps, i)),
    decreases i,
{
    if i == 0 {
        None
    } else {
        let worker = lemma_run(all, steps, i - 1);
        lemma_step(all[i - 1], worker, creations(steps, i - 1), steps[i - 1]);
        next_worker(all[i - 1], worker, steps[i - 1])
    }
}

/// The handle is created at most once.
pub proof fn law_created_once(all: Seq<Handles>, steps: Seq<HandleStep>, i: int)
    requires
        is_handle_run(all, steps),
        0 <= i < all.len(),
    ensures
        0 <= creations(steps, i) <= 1,
{
    let worker = lemma_run(all, steps, i);
}

/// Every thread that gets the handle gets the same one, after it was created.
pub proof fn law_everybody_gets_the_same(
    all: Seq<Handles>,
    steps: Seq<HandleStep>,
    i: int,
    t: int,
    u: int,
)
    requires
        is_handle_run(all, steps),
        0 <= i < all.len(),
        all[i].has(t),
        all[i].has(u),
        all[i].threads[t] is Done,
        all[i].threads[u] is Done,
    ensures
        all[i].threads[t]->Done_handle == all[i].threads[u]->Done_handle,
        all[i].threads[t]->Done_handle == all[i].kept,
        all[i].state == INITIALIZED,
        creations(steps, i) == 1,
{
    let worker = lemma_run(all, steps, i);
}

/// The shared state only goes from the first of its three values to the second, and from there to
/// the third.
pub proof fn law_state_only_advances(all: Seq<Handles>, steps: Seq<HandleStep>, i: int)
    requires
        is_handle_run(all, steps),
        0 <= i < steps.len(),
    ensures
        all[i].state == UNINITIALIZED || all[i].state == INITIALIZING || all[i].state
            == INITIALIZED,
        all[i + 1].state == all[i].state || (all[i].state == UNINITIALIZED && all[i + 1].state
            == INITIALIZING) || (all[i].state == INITIALIZING && all[i + 1].state == INITIALIZED),
{
    let worker = lemma_run(all, steps, i);
    assert(all[i].allows(steps[i]));
    assert(all[i].has(stepper(steps[i])));
}

/// What is kept once the handle is there, and what every thread has that is through, is the very
/// handle that the creation returned, if its status was 0, and none if it was another.
pub proof fn law_kept_is_what_was_created(
    all: Seq<Handles>,
    steps: Seq<HandleStep>,
    i: int,
    k: int,
)
    requires
        is_handle_run(all, steps),
        0 <= k < i < all.len(),
        steps[k] is Create,
        all[i].state == INITIALIZED,
    ensures
        all[i].kept == created(steps[k]->status, steps[k]->Create_handle),
        steps[k]->status == 0 ==> all[i].kept == Some(steps[k]->Create_handle),
        steps[k]->status != 0 ==> all[i].kept == None::<usize>,
        forall|t: int| #[trigger]
            all[i].has(t) && all[i].threads[t] is Done && steps[k]->status == 0
                ==> all[i].threads[t]->Done_handle == Some(steps[k]->Create_handle),
        forall|t: int| #[trigger]
            all[i].has(t) && all[i].threads[t] is Done && steps[k]->status != 0
                ==> all[i].threads[t]->Done_handle == None::<usize>,
{
    lemma_creation_is_kept(all, steps, i, k);
    let worker = lemma_run(all, steps, i);
}

/// Whoever is through has what a creation that came before returned: its very handle, if its
/// status was 0, and none if it was another.
pub proof fn law_handle_comes_from_a_creation(
    all: Seq<Handles>,
    steps: Seq<HandleStep>,
    i: int,
    t: int,
)
    requires
        is_handle_run(all, steps),
        0 <= i < all.len(),
        all[i].has(t),
        all[i].threads[t] is Done,
    ensures
        exists|k: int|
            0 <= k < i && #[trigger] steps[k] is Create && all[i].threads[t]->Done_handle == (
            if steps[k]->status == 0 {
                Some(steps[k]->Create_handle)
            } else {
                None
            }),
{
    let worker = lemma_run(all, steps, i);
    let k = lemma_find_creation(steps, i);
    law_kept_is_what_was_created(all, steps, i, k);
}

proof fn lemma_find_creation(steps: Seq<HandleStep>, i: int) -> (k: int)
    requires
        creations(steps, i) > 0,
    ensures
        0 <= k < i,
        steps[k] is Create,
    decreases i,
{
    if steps[i - 1] is Create {
        i - 1
    } else {
        lemma_find_creation(steps, i - 1)
    }
}

proof fn lemma_creation_is_kept(all: Seq<Handles>, steps: Seq<HandleStep>, i: int, k: int)
    requires
        is_handle_run(all, steps),
        0 <= k < i < all.len(),
        steps[k] is Create,
    ensures
        all[i].state != UNINITIALIZED,
        all[i].state == INITIALIZED ==> all[i].kept == created(
            steps[k]->status,
            steps[k]->Create_handle,
        ),
        forall|t: int| #[trigger]
            all[i].has(t) ==> !(all[i].threads[t] is Creating) && (
            all[i].threads[t] matches HandleState::Keeping { handle } ==> handle == created(
                steps[k]->status,
                steps[k]->Create_handle,
            )) && (all[i].threads[t] is Publishing ==> all[i].kept == created(
                steps[k]->status,
                steps[k]->Create_handle,
            )),
    decreases i,
{
    let worker = lemma_run(all, steps, i - 1);
    let h = all[i - 1];
    let step = steps[i - 1];
    assert(h.allows(step));
    assert(forall|t: int| all[i].has(t) == h.has(t));
    let t = stepper(step);
    assert(h.has(t));
    assert(forall|u: int| #[trigger] all[i].has(u) && u != t ==> all[i].threads[u] == h.threads[u]);
    if i - 1 > k {
        lemma_creation_is_kept(all, steps, i - 1, k);
    }
    let handle = created(steps[k]->status, steps[k]->Create_handle);
    assert forall|u: int| #[trigger] all[i].has(u) implies !(all[i].threads[u] is Creating) && (
    all[i].threads[u] is Keeping ==> all[i].threads[u]->Keeping_handle == handle) && (
    all[i].threads[u] is Publishing ==> all[i].kept == handle) by {
        assert(h.has(u));
    }
}

/// How much a thread has still to do, given the shared state.
pub open spec fn effort(thread: HandleState, state: usize) -> nat {
    match thread {
        HandleState::Done { .. } => 0,
        HandleState::Reading => 3,
        HandleState::Publishing => 6,
        HandleState::Keeping { .. } => 7,
        HandleState::Creating => 8,
        HandleState::Claim => if state == UNINITIALIZED {
            9
        } else {
            12
        },
        HandleState::Reload => 10,
        HandleState::Waiting => if state == INITIALIZED {
            11
        } else {
            10
        },
    }
}

/// How much all threads together have still to do, given the shared state.
pub open spec fn total_effort(h: Handles) -> nat {
    sum(Seq::new(h.threads.len(), |t: int| effort(h.threads[t], h.state)))
}

/// Whether the threads are closer to the end in `later`.
pub open spec fn is_closer(later: Handles, earlier: Handles) -> bool {
    ||| later.state > earlier.state
    ||| later.state == earlier.state && total_effort(later) < total_effort(earlier)
}

/// Whether the threads are as close to the end in `later`.
pub open spec fn is_as_close(later: Handles, earlier: Handles) -> bool {
    later.state == earlier.state && total_effort(later) == total_effort(earlier)
}

/// Steps in which a thread waits for another that is at work.
pub open spec fn is_idle(h: Handles, step: HandleStep) -> bool {
    h.state != INITIALIZED && match h.threads[stepper(step)] {
        HandleState::Reload => h.state == INITIALIZING,
        HandleState::Waiting => true,
        _ => false,
    }
}

/// Steps in which a thread tries an exchange.
pub open spec fn is_exchange(h: Handles, step: HandleStep) -> bool {
    h.threads[stepper(step)] is Claim
}

/// Steps in which an exchange fails although the shared state was the expected one.
pub open spec fn is_spurious(h: Handles, step: HandleStep) -> bool {
    is_exchange(h, step) && (step matches HandleStep::Word { reply, .. } && reply
        == Reply::Refused(UNINITIALIZED))
}

/// Whether the step brings the threads closer to the end.
pub open spec fn is_useful(h: Handles, step: HandleStep) -> bool {
    !is_idle(h, step) && !is_spurious(h, step)
}

proof fn lemma_cost(h: Handles, worker: Option<int>, count: int, step: HandleStep)
    requires
        is_sound(h, worker, count),
        h.allows(step),
    ensures
        is_useful(h, step) ==> is_closer(h.take(step), h),
        !is_useful(h, step) ==> is_as_close(h.take(step), h),
{
    let h2 = h.take(step);
    let t = stepper(step);
    assert(h.has(t));
    if h2.state == h.state {
        let e = Seq::new(h.threads.len(), |t: int| effort(h.threads[t], h.state));
        let e2 = Seq::new(h2.threads.len(), |t: int| effort(h2.threads[t], h2.state));
        lemma_sum_update(e, t, effort(h2.threads[t], h.state));
        assert(e2 =~= e.update(t, effort(h2.threads[t], h.state)));
    }
}

/// Every step counts: it brings the threads closer to the end, unless a thread waits for another
/// that is at work, or an exchange fails for no reason. Then they are as close as before.
pub proof fn law_every_step_counts(all: Seq<Handles>, steps: Seq<HandleStep>, i: int)
    requires
        is_handle_run(all, steps),
        0 <= i < steps.len(),
    ensures
        is_useful(all[i], steps[i]) ==> is_closer(all[i + 1], all[i]),
        !is_useful(all[i], steps[i]) ==> is_as_close(all[i + 1], all[i]),
{
    let worker = lemma_run(all, steps, i);
    assert(all[i].allows(steps[i]));
    lemma_cost(all[i], worker, creations(steps, i), steps[i]);
}

/// Whether these follow on one another without end, from the start, by these steps. Now and then
/// nothing may happen.
pub open spec fn is_endless_run(
    all: spec_fn(nat) -> Handles,
    steps: spec_fn(nat) -> Option<HandleStep>,
) -> bool {
    &&& all(0).starts()
    &&& forall|i: nat| goes_to(all(i), #[trigger] steps(i), all(i + 1))
}

pub open spec fn goes_to(h: Handles, step: Option<HandleStep>, h2: Handles) -> bool {
    match step {
        Some(step) => h.allows(step) && h2 == h.take(step),
        None => h2 == h,
    }
}

pub open spec fn is_asking(h: Handles, t: int) -> bool {
    h.has(t) && !(h.threads[t] is Done)
}

pub open spec fn moves(step: Option<HandleStep>, t: int) -> bool {
    step matches Some(step) && stepper(step) == t
}

pub open spec fn fails(h: Handles, step: Option<HandleStep>, t: int) -> bool {
    step matches Some(step) && stepper(step) == t && is_spurious(h, step)
}

pub open spec fn exchanges(h: Handles, step: Option<HandleStep>, t: int) -> bool {
    step matches Some(step) && stepper(step) == t && is_exchange(h, step) && !is_spurious(h, step)
}

/// Whether the scheduler is fair: a thread that has not got the handle yet sooner or later takes a
/// step.
pub open spec fn is_fair(
    all: spec_fn(nat) -> Handles,
    steps: spec_fn(nat) -> Option<HandleStep>,
) -> bool {
    forall|i: nat, t: int| #[trigger]
        is_asking(all(i), t) ==> exists|j: nat| i <= j && #[trigger] moves(steps(j), t)
}

/// Whether no thread's exchanges fail for no reason for ever: after one that does, one sooner or
/// later does not.
pub open spec fn exchanges_get_through(
    all: spec_fn(nat) -> Handles,
    steps: spec_fn(nat) -> Option<HandleStep>,
) -> bool {
    forall|i: nat, t: int| #[trigger]
        fails(all(i), steps(i), t) ==> exists|j: nat|
            i <= j && #[trigger] exchanges(all(j), steps(j), t)
}

/// Whether every thread has the handle.
pub open spec fn all_done(h: Handles) -> bool {
    forall|t: int| #[trigger] h.has(t) ==> h.threads[t] is Done
}

spec fn helps(h: Handles, step: Option<HandleStep>) -> bool {
    step matches Some(step) && is_useful(h, step)
}

/// Whether thread `t` has something to do that does not depend on another.
spec fn is_pressing(h: Handles, t: int) -> bool {
    is_asking(h, t) && (h.state == INITIALIZING ==> works(h.threads[t]))
}

proof fn lemma_endless_run(
    all: spec_fn(nat) -> Handles,
    steps: spec_fn(nat) -> Option<HandleStep>,
    i: nat,
) -> (known: (Option<int>, int))
    requires
        is_endless_run(all, steps),
    ensures
        is_sound(all(i), known.0, known.1),
    decreases i,
{
    if i == 0 {
        (None, 0)
    } else {
        let k = (i - 1) as nat;
        let (worker, count) = lemma_endless_run(all, steps, k);
        assert(goes_to(all(k), steps(k), all(k + 1)));
        match steps(k) {
            Some(step) => {
                lemma_step(all(k), worker, count, step);
                (
                    next_worker(all(k), worker, step),
                    count + (if step is Create {
                        1int
                    } else {
                        0int
                    }),
                )
            },
            None => (worker, count),
        }
    }
}

proof fn lemma_closer_by(
    all: spec_fn(nat) -> Handles,
    steps: spec_fn(nat) -> Option<HandleStep>,
    i: nat,
    j: nat,
)
    requires
        is_endless_run(all, steps),
        i <= j,
    ensures
        is_closer(all(j), all(i)) || is_as_close(all(j), all(i)),
    decreases j - i,
{
    if i < j {
        let k = (j - 1) as nat;
        lemma_closer_by(all, steps, i, k);
        let (worker, count) = lemma_endless_run(all, steps, k);
        assert(goes_to(all(k), steps(k), all(k + 1)));
        if let Some(step) = steps(k) {
            lemma_cost(all(k), worker, count, step);
        }
    }
}

proof fn lemma_presses_on(
    all: spec_fn(nat) -> Handles,
    steps: spec_fn(nat) -> Option<HandleStep>,
    i: nat,
    j: nat,
    t: int,
)
    requires
        is_endless_run(all, steps),
        forall|k: nat| i <= k ==> !(#[trigger] helps(all(k), steps(k))),
        is_pressing(all(i), t),
        i <= j,
    ensures
        is_pressing(all(j), t),
    decreases j - i,
{
    if i < j {
        let k = (j - 1) as nat;
        lemma_presses_on(all, steps, i, k, t);
        let (worker, count) = lemma_endless_run(all, steps, k);
        assert(goes_to(all(k), steps(k), all(k + 1)));
        assert(!helps(all(k), steps(k)));
        if let Some(step) = steps(k) {
            assert(all(k).has(stepper(step)));
        }
    }
}

/// While some thread does not have the handle, something useful happens sooner or later.
proof fn lemma_something_helps(
    all: spec_fn(nat) -> Handles,
    steps: spec_fn(nat) -> Option<HandleStep>,
    i: nat,
) -> (j: nat)
    requires
        is_endless_run(all, steps),
        is_fair(all, steps),
        exchanges_get_through(all, steps),
        !all_done(all(i)),
    ensures
        i <= j,
        helps(all(j), steps(j)),
{
    let h = all(i);
    if !(exists|j: nat| i <= j && #[trigger] helps(all(j), steps(j))) {
        let (worker, count) = lemma_endless_run(all, steps, i);
        let t = if h.state == INITIALIZING {
            worker->0
        } else {
            choose|t: int| #[trigger] h.has(t) && !(h.threads[t] is Done)
        };
        assert(h.has(t));
        assert(is_pressing(all(i), t));
        let j = choose|j: nat| i <= j && #[trigger] moves(steps(j), t);
        lemma_presses_on(all, steps, i, j, t);
        let known = lemma_endless_run(all, steps, j);
        assert(goes_to(all(j), steps(j), all(j + 1)));
        assert(!helps(all(j), steps(j)));
        assert(fails(all(j), steps(j), t));
        let k = choose|k: nat| j <= k && #[trigger] exchanges(all(k), steps(k), t);
        assert(helps(all(k), steps(k)));
    }
    choose|j: nat| i <= j && #[trigger] helps(all(j), steps(j))
}

proof fn lemma_ends(
    all: spec_fn(nat) -> Handles,
    steps: spec_fn(nat) -> Option<HandleStep>,
    i: nat,
) -> (end: nat)
    requires
        is_endless_run(all, steps),
        is_fair(all, steps),
        exchanges_get_through(all, steps),
    ensures
        all_done(all(end)),
    decreases INITIALIZED - all(i).state, total_effort(all(i)),
{
    if all_done(all(i)) {
        i
    } else {
        let j = lemma_something_helps(all, steps, i);
        lemma_closer_by(all, steps, i, j);
        let (worker, count) = lemma_endless_run(all, steps, j);
        let known = lemma_endless_run(all, steps, j + 1);
        assert(goes_to(all(j), steps(j), all(j + 1)));
        lemma_cost(all(j), worker, count, steps(j)->0);
        lemma_ends(all, steps, j + 1)
    }
}

/// Everybody gets the handle: given a fair scheduler, and exchanges that do not fail for no reason
/// for ever, there comes a time when every thread that asked has it.
pub proof fn law_everybody_gets_through(
    all: spec_fn(nat) -> Handles,
    steps: spec_fn(nat) -> Option<HandleStep>,
)
    requires
        is_endless_run(all, steps),
        is_fair(all, steps),
        exchanges_get_through(all, steps),
    ensures
        exists|end: nat| #[trigger] all_done(all(end)),
{
    let end = lemma_ends(all, steps, 0);
    assert(all_done(all(end)));
}

} // verus!
