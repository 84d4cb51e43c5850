//! What a run leaves in the output directory, as a map from file path to
//! content, for a backend that answers each URL in a fixed way.

use vstd::prelude::*;
use crate::hour::Hour;
use crate::expand::hours_between;
use crate::fetch::{path_of, success_status, url_of, write_of, Action, FetchPlan, ARCHIVE_SUFFIX};

verus! {

/// A backend's answer, status and body, for each requested URL.
pub type Backend = spec_fn(Seq<char>) -> (u16, Seq<u8>);

/// The file written for the unit `date`, if any: the response that `backend`
/// gives to the unit's URL, handled as `respond` handles it.
pub open spec fn unit_write(output_dir: Seq<char>, backend: Backend, date: Hour) -> Option<(Seq<char>, Seq<u8>)> {
    write_of(path_of(output_dir, date.label()), backend(url_of(date.label())).0, backend(url_of(date.label())).1)
}

/// `files` after one write, which replaces any earlier content of its path.
pub open spec fn apply_write(files: Map<Seq<char>, Seq<u8>>, w: Option<(Seq<char>, Seq<u8>)>) -> Map<Seq<char>, Seq<u8>> {
    match w {
        Some(pw) => files.insert(pw.0, pw.1),
        None => files,
    }
}

/// `files` after the units of `done` reached their outcome, in that order.
pub open spec fn run_files(
    files: Map<Seq<char>, Seq<u8>>,
    output_dir: Seq<char>,
    backend: Backend,
    done: Seq<Hour>,
) -> Map<Seq<char>, Seq<u8>>
    decreases done.len(),
{
    if done.len() == 0 {
        files
    } else {
        run_files(apply_write(files, unit_write(output_dir, backend, done[0])), output_dir, backend, done.drop_first())
    }
}

/// The model follows the library's own steps: for a plan made by
/// `plan_fetch` and the backend's answer to its URL, the action that
/// `respond` returns writes exactly `unit_write` of the unit.
pub proof fn lemma_respond_is_unit_write(
    plan: FetchPlan,
    token: Seq<char>,
    output_dir: Seq<char>,
    date: Hour,
    backend: Backend,
    action: Action,
)
    requires
        plan.is_plan_for(token, output_dir, date),
        action.written() == write_of(plan.path@, backend(plan.url@).0, backend(plan.url@).1),
    ensures
        action.written() == unit_write(output_dir, backend, date),
{
}

/// Two labels give the same file in one directory only if they are equal.
pub proof fn lemma_path_injective(output_dir: Seq<char>, a: Seq<char>, b: Seq<char>)
    requires
        path_of(output_dir, a) == path_of(output_dir, b),
    ensures
        a == b,
{
    reveal_strlit("/");
    let pa = path_of(output_dir, a);
    let start = output_dir.len() as int + 1;
    assert(pa.len() == output_dir.len() + 1 + a.len() + ARCHIVE_SUFFIX@.len());
    assert(a =~= pa.subrange(start, start + a.len() as int));
    assert(b =~= pa.subrange(start, start + b.len() as int));
}

/// Once the file of a successful unit holds that unit's body, later units
/// leave it so: a unit that writes the same path fetched the same URL.
pub proof fn lemma_file_kept(
    files: Map<Seq<char>, Seq<u8>>,
    output_dir: Seq<char>,
    backend: Backend,
    done: Seq<Hour>,
    date: Hour,
)
    requires
        success_status(backend(url_of(date.label())).0),
        files.contains_key(path_of(output_dir, date.label())),
        files[path_of(output_dir, date.label())] == backend(url_of(date.label())).1,
    ensures
        run_files(files, output_dir, backend, done).contains_key(path_of(output_dir, date.label())),
        run_files(files, output_dir, backend, done)[path_of(output_dir, date.label())]
            == backend(url_of(date.label())).1,
    decreases done.len(),
{
    if done.len() > 0 {
        let next = apply_write(files, unit_write(output_dir, backend, done[0]));
        let p = path_of(output_dir, date.label());
        if unit_write(output_dir, backend, done[0]) is Some && path_of(output_dir, done[0].label()) == p {
            lemma_path_injective(output_dir, done[0].label(), date.label());
        }
        assert(next.contains_key(p) && next[p] == backend(url_of(date.label())).1);
        lemma_file_kept(next, output_dir, backend, done.drop_first(), date);
    }
}

/// Failure isolation: after a run, every unit whose fetch succeeded has its
/// file, holding its body, whatever the outcomes of the other units.
pub proof fn lemma_success_written(
    files: Map<Seq<char>, Seq<u8>>,
    output_dir: Seq<char>,
    backend: Backend,
    done: Seq<Hour>,
    date: Hour,
)
    requires
        done.contains(date),
        success_status(backend(url_of(date.label())).0),
    ensures
        run_files(files, output_dir, backend, done).contains_key(path_of(output_dir, date.label())),
        run_files(files, output_dir, backend, done)[path_of(output_dir, date.label())]
            == backend(url_of(date.label())).1,
    decreases done.len(),
{
    let next = apply_write(files, unit_write(output_dir, backend, done[0]));
    if done[0] == date {
        lemma_file_kept(next, output_dir, backend, done.drop_first(), date);
    } else {
        let i = choose|i: int| 0 <= i < done.len() && done[i] == date;
        assert(done.drop_first()[i - 1] == date);
        lemma_success_written(next, output_dir, backend, done.drop_first(), date);
    }
}

/// A file that no successful unit of the run names keeps what it held.
pub proof fn lemma_other_files_untouched(
    files: Map<Seq<char>, Seq<u8>>,
    output_dir: Seq<char>,
    backend: Backend,
    done: Seq<Hour>,
    path: Seq<char>,
)
    requires
        forall|i: int|
            0 <= i < done.len() && success_status(backend(url_of(done[i].label())).0)
                ==> path_of(output_dir, #[trigger] done[i].label()) != path,
    ensures
        run_files(files, output_dir, backend, done).contains_key(path) == files.contains_key(path),
        files.contains_key(path) ==> run_files(files, output_dir, backend, done)[path] == files[path],
    decreases done.len(),
{
    if done.len() > 0 {
        let next = apply_write(files, unit_write(output_dir, backend, done[0]));
        assert(forall|i: int| 0 <= i < done.len() - 1 ==> #[trigger] done.drop_first()[i] == done[i + 1]);
        lemma_other_files_untouched(next, output_dir, backend, done.drop_first(), path);
    }
}

/// Idempotence: running again any units of an earlier run, against the same
/// backend and in any order, leaves the output directory as the first run
/// left it.
pub proof fn lemma_rerun_idempotent(
    files: Map<Seq<char>, Seq<u8>>,
    output_dir: Seq<char>,
    backend: Backend,
    first: Seq<Hour>,
    again: Seq<Hour>,
)
    requires
        forall|i: int| 0 <= i < again.len() ==> first.contains(#[trigger] again[i]),
    ensures
        run_files(run_files(files, output_dir, backend, first), output_dir, backend, again)
            == run_files(files, output_dir, backend, first),
    decreases again.len(),
{
    let after = run_files(files, output_dir, backend, first);
    if again.len() > 0 {
        let date = again[0];
        assert(first.contains(again[0]));
        if success_status(backend(url_of(date.label())).0) {
            lemma_success_written(files, output_dir, backend, first, date);
            assert(apply_write(after, unit_write(output_dir, backend, date)) =~= after);
        }
        assert(forall|i: int| 0 <= i < again.len() - 1 ==> #[trigger] again.drop_first()[i] == again[i + 1]);
        assert(forall|i: int| 0 <= i < again.len() - 1 ==> first.contains(#[trigger] again.drop_first()[i])) by {
            assert forall|i: int| 0 <= i < again.len() - 1 implies first.contains(#[trigger] again.drop_first()[i]) by {
                assert(first.contains(again[i + 1]));
            }
        }
        lemma_rerun_idempotent(files, output_dir, backend, first, again.drop_first());
    }
}

/// An empty or inverted range has no units, and its run leaves the output
/// directory as it was.
pub proof fn lemma_empty_range_writes_nothing(
    files: Map<Seq<char>, Seq<u8>>,
    output_dir: Seq<char>,
    backend: Backend,
    start: Hour,
    end: Hour,
)
    requires
        start.index >= end.index,
    ensures
        hours_between(start, end).len() == 0,
        run_files(files, output_dir, backend, hours_between(start, end)) == files,
{
}

} // verus!
