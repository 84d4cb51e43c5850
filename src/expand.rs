//! Expansion of a half-open range of hours into the hour units of a run.

use vstd::prelude::*;
use crate::hour::Hour;

verus! {

/// Number of hour units in `[start, end)`: the hours between the two, or zero
/// where the range is empty or inverted.
pub open spec fn span(start: Hour, end: Hour) -> nat {
    if start.index < end.index {
        (end.index - start.index) as nat
    } else {
        0
    }
}

/// The hour units of `[start, end)`: `start`, `start + 1h`, ..., stopping
/// strictly before `end`.
pub open spec fn hours_between(start: Hour, end: Hour) -> Seq<Hour> {
    Seq::new(span(start, end), |i: int| Hour { index: (start.index + i) as i64 })
}

/// The number of hour units in `[start, end)`, clamped to zero where the range
/// is empty or inverted.
pub fn unit_count(start: Hour, end: Hour) -> (r: u64)
    requires
        start.wf(),
        end.wf(),
    ensures
        r == span(start, end),
{
    if start.index < end.index {
        (end.index - start.index) as u64
    } else {
        0
    }
}

/// The hour units of `[start, end)`, in increasing order; empty where
/// `start >= end`.
pub fn get_dates(start: Hour, end: Hour) -> (dates: Vec<Hour>)
    requires
        start.wf(),
        end.wf(),
    ensures
        dates@ == hours_between(start, end),
        forall|i: int| 0 <= i < dates@.len() ==> (#[trigger] dates@[i]).wf(),
{
    let mut date = start;
    let mut dates: Vec<Hour> = Vec::new();
    while date.index < end.index
        invariant
            start.wf(),
            end.wf(),
            start.index <= date.index,
            date.index <= end.index || date.index == start.index,
            dates@.len() == date.index - start.index,
            forall|i: int|
                0 <= i < dates@.len() ==> #[trigger] dates@[i] == (Hour {
                    index: (start.index + i) as i64,
                }),
        decreases end.index - date.index,
    {
        dates.push(date);
        date = date.next();
    }
    assert(dates@ =~= hours_between(start, end));
    dates
}

/// Expanding `[start, end)` gives `(end - start) / 1h` units when
/// `start < end`, each exactly one hour after the one before it, and none
/// when `start >= end`.
pub proof fn lemma_expansion_steps(start: Hour, end: Hour)
    requires
        start.wf(),
        end.wf(),
    ensures
        start.index < end.index ==> hours_between(start, end).len() == (end.secs() - start.secs()) / 3600,
        start.index >= end.index ==> hours_between(start, end).len() == 0,
        forall|i: int|
            0 < i < hours_between(start, end).len() ==> #[trigger] hours_between(start, end)[i].secs()
                == hours_between(start, end)[i - 1].secs() + 3600,
        forall|i: int, j: int|
            0 <= i < j < hours_between(start, end).len() ==> #[trigger] hours_between(
                start,
                end,
            )[i].index < #[trigger] hours_between(start, end)[j].index,
{
    assert((end.index * 3600 - start.index * 3600) / 3600 == end.index - start.index) by (nonlinear_arith);
}

} // verus!
