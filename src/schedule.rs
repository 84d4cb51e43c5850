//! The bounded scheduler: dispatches hour units in order, never keeps more
//! than a fixed ceiling of them in flight, and records exactly one terminal
//! outcome per unit, which advances the progress count.
//!
//! The caller performs the fetches. It asks `dispatch` for units to start
//! while it hands one out, and reports each finished fetch to `complete`; the
//! run is over when `is_done` holds.

use vstd::prelude::*;
use crate::hour::Hour;
use crate::expand::{get_dates, hours_between};

verus! {

/// Documented limit of the service: new connections per second per source
/// address, used as the default concurrency ceiling.
pub const PAPERTRAIL_PARALLEL_REQUESTS: usize = 10;

/// Where one unit stands in a run.
#[derive(Clone, Copy, Debug, PartialEq, Eq, Structural)]
pub enum UnitState {
    /// Not dispatched yet.
    Pending,
    /// Dispatched, outcome not known yet.
    Active,
    /// Terminal: the archive was stored.
    Succeeded,
    /// Terminal: the fetch or the write failed.
    Failed,
}

impl UnitState {
    pub open spec fn active(self) -> bool {
        self is Active
    }

    pub open spec fn terminal(self) -> bool {
        self is Succeeded || self is Failed
    }
}

/// Number of entries of `s` that satisfy `f`.
pub open spec fn count_where(s: Seq<UnitState>, f: spec_fn(UnitState) -> bool) -> nat
    decreases s.len(),
{
    if s.len() == 0 {
        0
    } else {
        count_where(s.drop_last(), f) + if f(s.last()) {
            1nat
        } else {
            0nat
        }
    }
}

pub open spec fn is_active(u: UnitState) -> bool {
    u.active()
}

pub open spec fn is_terminal(u: UnitState) -> bool {
    u.terminal()
}

pub open spec fn is_failed(u: UnitState) -> bool {
    u is Failed
}

proof fn lemma_count_update(s: Seq<UnitState>, i: int, v: UnitState, f: spec_fn(UnitState) -> bool)
    requires
        0 <= i < s.len(),
    ensures
        count_where(s.update(i, v), f) + (if f(s[i]) { 1int } else { 0int }) == count_where(s, f) + (if f(v) { 1int } else { 0int }),
    decreases s.len(),
{
    if i == s.len() - 1 {
        assert(s.update(i, v).drop_last() =~= s.drop_last());
    } else {
        assert(s.update(i, v).drop_last() =~= s.drop_last().update(i, v));
        lemma_count_update(s.drop_last(), i, v, f);
    }
}

proof fn lemma_count_bounds(s: Seq<UnitState>, f: spec_fn(UnitState) -> bool)
    ensures
        count_where(s, f) <= s.len(),
        count_where(s, f) == s.len() ==> forall|i: int| 0 <= i < s.len() ==> f(#[trigger] s[i]),
        (forall|i: int| 0 <= i < s.len() ==> !f(#[trigger] s[i])) ==> count_where(s, f) == 0,
    decreases s.len(),
{
    if s.len() > 0 {
        lemma_count_bounds(s.drop_last(), f);
        assert(forall|i: int| 0 <= i < s.len() - 1 ==> #[trigger] s.drop_last()[i] == s[i]);
        if count_where(s, f) == s.len() {
            assert forall|i: int| 0 <= i < s.len() implies f(#[trigger] s[i]) by {
                if i < s.len() - 1 {
                    assert(f(s.drop_last()[i]));
                }
            }
        }
    }
}

/// The state of a run: its units, the state of each, and the ceiling.
pub struct Scheduler {
    units: Vec<Hour>,
    states: Vec<UnitState>,
    ceiling: usize,
    next: usize,
    active: usize,
    completed: usize,
    failed: usize,
}

impl Scheduler {
    /// The units of the run, in dispatch order.
    pub closed spec fn units(&self) -> Seq<Hour> {
        self.units@
    }

    /// The state of each unit.
    pub closed spec fn states(&self) -> Seq<UnitState> {
        self.states@
    }

    /// The most units that may be in flight at once.
    pub closed spec fn ceiling(&self) -> nat {
        self.ceiling as nat
    }

    /// Number of units in flight: dispatched, not yet terminal.
    pub open spec fn active_count(&self) -> nat {
        count_where(self.states(), |u: UnitState| is_active(u))
    }

    /// Number of units that reached their terminal outcome: the progress count.
    pub open spec fn completed_count(&self) -> nat {
        count_where(self.states(), |u: UnitState| is_terminal(u))
    }

    /// Number of units dispatched so far: units `0 .. dispatched()` have
    /// left `Pending`, the others have not.
    pub open spec fn dispatched(&self) -> nat {
        self.active_count() + self.completed_count()
    }

    /// Number of units whose outcome is `Failed`.
    pub open spec fn failed_count(&self) -> nat {
        count_where(self.states(), |u: UnitState| is_failed(u))
    }

    /// Every unit reached its terminal outcome.
    pub open spec fn done(&self) -> bool {
        self.completed_count() == self.states().len()
    }

    /// The state is consistent: one state per unit, units dispatched in
    /// order, the counters equal to what the states hold, and the ceiling
    /// respected.
    pub closed spec fn wf(&self) -> bool {
        &&& self.units@.len() == self.states@.len()
        &&& self.ceiling > 0
        &&& self.next <= self.states@.len()
        &&& forall|i: int| 0 <= i < self.states@.len() ==> (#[trigger] self.states@[i] is Pending <==> i >= self.next)
        &&& self.active == self.active_count()
        &&& self.completed == self.completed_count()
        &&& self.failed == self.failed_count()
        &&& self.active + self.completed == self.next
        &&& self.active <= self.ceiling
    }

    /// What holds of every consistent state: in-flight units never exceed
    /// the ceiling, and the two counts never exceed the number of units.
    pub proof fn lemma_wf_bounds(&self)
        requires
            self.wf(),
        ensures
            self.active_count() <= self.ceiling(),
            self.active_count() + self.completed_count() <= self.states().len(),
            self.states().len() == self.units().len(),
            self.ceiling() > 0,
    {
    }

    /// A unit's terminal outcome, once reached, is the one it keeps, and a
    /// dispatched unit is never pending again: a step from `self` to `next`
    /// changes no terminal state, returns no unit to `Pending`, keeps the
    /// units and the ceiling, and moves the progress count only forward.
    pub open spec fn steps_to(&self, next: &Scheduler) -> bool {
        &&& next.units() == self.units()
        &&& next.ceiling() == self.ceiling()
        &&& next.states().len() == self.states().len()
        &&& forall|i: int| 0 <= i < self.states().len() && (#[trigger] self.states()[i]).terminal()
            ==> next.states()[i] == self.states()[i]
        &&& forall|i: int| 0 <= i < self.states().len() && !(#[trigger] self.states()[i] is Pending)
            ==> !(next.states()[i] is Pending)
        &&& self.completed_count() <= next.completed_count()
    }

    /// A run over `units`, none dispatched, at most `ceiling` in flight.
    pub fn new(units: Vec<Hour>, ceiling: usize) -> (r: Scheduler)
        requires
            ceiling > 0,
        ensures
            r.wf(),
            r.units() == units@,
            r.ceiling() == ceiling,
            r.states() == Seq::new(units@.len(), |i: int| UnitState::Pending),
            r.active_count() == 0,
            r.completed_count() == 0,
            r.failed_count() == 0,
            r.done() <==> units@.len() == 0,
    {
        let mut states: Vec<UnitState> = Vec::new();
        let n = units.len();
        while states.len() < n
            invariant
                n == units@.len(),
                states@.len() <= n,
                forall|i: int| 0 <= i < states@.len() ==> #[trigger] states@[i] == UnitState::Pending,
            decreases n - states@.len(),
        {
            states.push(UnitState::Pending);
        }
        let r = Scheduler { units, states, ceiling, next: 0, active: 0, completed: 0, failed: 0 };
        proof {
            lemma_count_bounds(r.states@, |u: UnitState| is_failed(u));
            lemma_count_bounds(r.states@, |u: UnitState| is_active(u));
            lemma_count_bounds(r.states@, |u: UnitState| is_terminal(u));
            assert(r.states() =~= Seq::new(units@.len(), |i: int| UnitState::Pending));
        }
        r
    }

    /// Starts the next pending unit if the ceiling leaves room: returns its
    /// index, now in flight, or `None` where no unit is pending or the
    /// ceiling is reached. Where it returns `None` and the run is not over,
    /// some unit is in flight, so a completion is still to come.
    pub fn dispatch(&mut self) -> (r: Option<usize>)
        requires
            old(self).wf(),
        ensures
            final(self).wf(),
            old(self).steps_to(final(self)),
            final(self).active_count() <= final(self).ceiling(),
            r is Some <==> old(self).active_count() < old(self).ceiling() && old(self).dispatched()
                < old(self).states().len(),
            match r {
                Some(i) => {
                    &&& i == old(self).dispatched()
                    &&& old(self).states()[i as int] is Pending
                    &&& final(self).states() == old(self).states().update(i as int, UnitState::Active)
                    &&& final(self).active_count() == old(self).active_count() + 1
                    &&& final(self).completed_count() == old(self).completed_count()
                    &&& final(self).failed_count() == old(self).failed_count()
                },
                None => final(self).states() == old(self).states(),
            },
            r is None && !final(self).done() ==> final(self).active_count() > 0,
    {
        proof {
            lemma_count_bounds(self.states@, |u: UnitState| is_active(u));
            lemma_count_bounds(self.states@, |u: UnitState| is_terminal(u));
        }
        if self.active < self.ceiling && self.next < self.states.len() {
            let i = self.next;
            proof {
                lemma_count_update(self.states@, i as int, UnitState::Active, |u: UnitState| is_active(u));
                lemma_count_update(self.states@, i as int, UnitState::Active, |u: UnitState| is_terminal(u));
                lemma_count_update(self.states@, i as int, UnitState::Active, |u: UnitState| is_failed(u));
            }
            self.states.set(i, UnitState::Active);
            self.next = i + 1;
            self.active = self.active + 1;
            Some(i)
        } else {
            proof {
                if self.next == self.states@.len() && self.active == 0 {
                    assert(self.completed == self.states@.len());
                }
            }
            None
        }
    }

    /// Records the outcome of the unit `unit`: where it is in flight, it
    /// becomes `Succeeded` or `Failed` and the progress count advances by one
    /// (returns `true`); any other report changes nothing (returns `false`),
    /// so no unit is counted twice.
    pub fn complete(&mut self, unit: usize, succeeded: bool) -> (accepted: bool)
        requires
            old(self).wf(),
        ensures
            final(self).wf(),
            old(self).steps_to(final(self)),
            final(self).active_count() <= final(self).ceiling(),
            accepted == (unit < old(self).states().len() && old(self).states()[unit as int] is Active),
            accepted ==> final(self).states() == old(self).states().update(
                unit as int,
                if succeeded { UnitState::Succeeded } else { UnitState::Failed },
            ),
            accepted ==> final(self).completed_count() == old(self).completed_count() + 1,
            accepted ==> final(self).active_count() + 1 == old(self).active_count(),
            accepted ==> final(self).failed_count() == old(self).failed_count() + if succeeded {
                0nat
            } else {
                1nat
            },
            !accepted ==> final(self).states() == old(self).states(),
    {
        if unit < self.states.len() && self.states[unit] == UnitState::Active {
            let v = if succeeded { UnitState::Succeeded } else { UnitState::Failed };
            proof {
                lemma_count_update(self.states@, unit as int, v, |u: UnitState| is_active(u));
                lemma_count_update(self.states@, unit as int, v, |u: UnitState| is_terminal(u));
                lemma_count_update(self.states@, unit as int, v, |u: UnitState| is_failed(u));
                lemma_count_bounds(self.states@, |u: UnitState| is_terminal(u));
                lemma_count_bounds(self.states@, |u: UnitState| is_failed(u));
                lemma_count_bounds(self.states@.update(unit as int, v), |u: UnitState| is_failed(u));
            }
            self.states.set(unit, v);
            self.active = self.active - 1;
            self.completed = self.completed + 1;
            if !succeeded {
                self.failed = self.failed + 1;
            }
            true
        } else {
            false
        }
    }

    /// Number of units of the run: the progress total.
    pub fn total(&self) -> (r: usize)
        requires
            self.wf(),
        ensures
            r == self.units().len(),
    {
        self.units.len()
    }

    /// Number of units that reached their terminal outcome: the progress count.
    pub fn completed(&self) -> (r: usize)
        requires
            self.wf(),
        ensures
            r == self.completed_count(),
    {
        self.completed
    }

    /// Number of units whose outcome is `Failed`.
    pub fn failed(&self) -> (r: usize)
        requires
            self.wf(),
        ensures
            r == self.failed_count(),
    {
        self.failed
    }

    /// Number of units in flight.
    pub fn in_flight(&self) -> (r: usize)
        requires
            self.wf(),
        ensures
            r == self.active_count(),
    {
        self.active
    }

    /// The concurrency ceiling of the run.
    pub fn max_in_flight(&self) -> (r: usize)
        requires
            self.wf(),
        ensures
            r == self.ceiling(),
    {
        self.ceiling
    }

    /// Whether every unit reached its terminal outcome.
    pub fn is_done(&self) -> (r: bool)
        requires
            self.wf(),
        ensures
            r == self.done(),
    {
        self.completed == self.units.len()
    }

    /// The hour of unit `i`.
    pub fn unit(&self, i: usize) -> (r: Hour)
        requires
            self.wf(),
            i < self.units().len(),
        ensures
            r == self.units()[i as int],
    {
        self.units[i]
    }

    /// The state of unit `i`.
    pub fn state(&self, i: usize) -> (r: UnitState)
        requires
            self.wf(),
            i < self.units().len(),
        ensures
            r == self.states()[i as int],
    {
        self.states[i]
    }

    /// When the run is over, every unit holds exactly one terminal outcome,
    /// `Succeeded` or `Failed`, none is in flight, and the progress count
    /// equals the number of units.
    pub proof fn lemma_done_all_terminal(&self)
        requires
            self.wf(),
            self.done(),
        ensures
            forall|i: int| 0 <= i < self.units().len() ==> (#[trigger] self.states()[i] is Succeeded) != (
            self.states()[i] is Failed),
            self.completed_count() == self.units().len(),
            self.active_count() == 0,
    {
        lemma_count_bounds(self.states@, |u: UnitState| is_terminal(u));
        assert forall|i: int| 0 <= i < self.units().len() implies (#[trigger] self.states()[i] is Succeeded) != (
        self.states()[i] is Failed) by {
            assert(is_terminal(self.states@[i]));
        }
    }

    /// A run over no units is over from the start: nothing is pending, so
    /// `dispatch` hands out no unit and no fetch takes place.
    pub proof fn lemma_empty_run(&self)
        requires
            self.wf(),
            self.units().len() == 0,
        ensures
            self.done(),
            forall|i: int| 0 <= i < self.states().len() ==> !(#[trigger] self.states()[i] is Pending),
    {
    }
}

/// A run over the hour units of `[start, end)`, at most `ceiling` in flight;
/// over from the start where `start >= end`.
pub fn plan_run(start: Hour, end: Hour, ceiling: usize) -> (r: Scheduler)
    requires
        start.wf(),
        end.wf(),
        ceiling > 0,
    ensures
        r.wf(),
        r.units() == hours_between(start, end),
        r.ceiling() == ceiling,
        r.active_count() == 0,
        r.completed_count() == 0,
        r.done() <==> start.index >= end.index,
{
    let dates = get_dates(start, end);
    Scheduler::new(dates, ceiling)
}

} // verus!
