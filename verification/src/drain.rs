//! The drain loop's decisions. Each poll of the loop either finishes the
//! run, idles while no task is registered yet, or makes a pass over a
//! snapshot of the table: one rendered line per task, plus every `Done`
//! payload to persist and every failure to report. The caller performs those
//! side effects first and only then sweeps the terminal tasks out of the
//! registry (`Root::sweep_terminal`) — a task leaves the table only after
//! its side effect has completed. The sweep reports whether it drained the
//! table, and the loop finishes on the poll after a draining sweep: it must
//! see the transition to empty, not merely find the table empty before any
//! worker registered.

use vstd::prelude::*;

use crate::registry::{Root, done_only, failed_only, lemma_filter_push, live_only, views_of};
use crate::render::{render_line, rendered_line};
use crate::state::{State, StateView, TaskView, is_terminal};

verus! {

/// What one drain poll decides.
pub enum Tick {
    /// A previous pass drained the table: print the closing banner and stop.
    Finish,
    /// Nothing is registered (yet): render nothing, poll again.
    Idle,
    /// A rendering pass over a non-empty table.
    Pass {
        /// One progress line per task, in table order.
        lines: Vec<String>,
        /// The destination name and payload of every `Done` task, in order.
        writes: Vec<(String, Vec<u8>)>,
        /// The name of every `Failed` task, in order, for a failure report.
        failures: Vec<String>,
    },
}

/// The table a full poll — a pass with its sweep — leaves behind: terminal
/// tasks are removed, and a finishing or idle poll changes nothing.
pub open spec fn next_tasks(s: Seq<TaskView>, ready: bool) -> Seq<TaskView> {
    if ready || s.len() == 0 {
        s
    } else {
        live_only(s)
    }
}

/// The completion flag a full poll leaves behind: it is raised exactly by a
/// sweep that empties the table, and stays raised.
pub open spec fn next_ready(s: Seq<TaskView>, ready: bool) -> bool {
    if ready {
        true
    } else if s.len() == 0 {
        false
    } else {
        live_only(s).len() == 0
    }
}

/// The write a `Done` task asks for: its destination name and payload.
pub open spec fn done_write(t: TaskView) -> (Seq<char>, Seq<u8>) {
    match t.state {
        StateView::Done { target_file, data } => (target_file, data),
        _ => (Seq::empty(), Seq::empty()),
    }
}

/// The models of a list of pending writes.
pub open spec fn write_views(ws: Seq<(String, Vec<u8>)>) -> Seq<(Seq<char>, Seq<u8>)> {
    ws.map_values(|w: (String, Vec<u8>)| (w.0@, w.1@))
}

/// One poll of the drain loop, under the registry's lock. `ready` is the
/// completion flag the previous poll left behind. The registry itself is
/// only read: the caller sweeps it after performing the pass's side effects.
pub fn drain_tick(root: &Root, ready: bool) -> (t: Tick)
    ensures
        t is Finish <==> ready,
        t is Idle <==> (!ready && root@.len() == 0),
        t is Pass <==> (!ready && root@.len() > 0),
        t matches Tick::Pass { lines, writes, failures } ==> {
            &&& lines@.len() == root@.len()
            &&& forall|i: int| 0 <= i < lines@.len() ==> rendered_line(root@[i], lines@[i]@)
            &&& write_views(writes@) == done_only(root@).map_values(
                |tv: TaskView| done_write(tv),
            )
            &&& failures@.map_values(|n: String| n@) == failed_only(root@).map_values(
                |tv: TaskView| tv.name,
            )
        },
{
    if ready {
        return Tick::Finish;
    }
    if root.is_empty() {
        return Tick::Idle;
    }

    let mut rest = root.snapshot();
    let ghost orig = rest@;
    let ghost k: int = 0;
    let mut lines: Vec<String> = Vec::new();
    let mut writes: Vec<(String, Vec<u8>)> = Vec::new();
    let mut failures: Vec<String> = Vec::new();
    while rest.len() > 0
        invariant
            views_of(orig) == root@,
            0 <= k <= orig.len(),
            rest@ == orig.subrange(k, orig.len() as int),
            lines@.len() == k,
            forall|j: int| 0 <= j < k ==> rendered_line(root@[j], lines@[j]@),
            write_views(writes@) == done_only(views_of(orig.subrange(0, k))).map_values(
                |tv: TaskView| done_write(tv),
            ),
            failures@.map_values(|n: String| n@) == failed_only(
                views_of(orig.subrange(0, k)),
            ).map_values(|tv: TaskView| tv.name),
        decreases rest@.len(),
    {
        let t = rest.remove(0);
        proof {
            assert(t == orig[k]);
            assert(rest@ =~= orig.subrange(k + 1, orig.len() as int));
            assert(views_of(orig.subrange(0, k + 1)) =~= views_of(orig.subrange(0, k)).push(
                orig[k]@,
            ));
            lemma_filter_push(
                views_of(orig.subrange(0, k)),
                orig[k]@,
                |tv: TaskView| tv.state is Done,
            );
            lemma_filter_push(
                views_of(orig.subrange(0, k)),
                orig[k]@,
                |tv: TaskView| tv.state is Failed,
            );
        }
        let line = render_line(&t);
        lines.push(line);
        let ghost pfx_writes = writes@;
        let ghost pfx_failures = failures@;
        match t.state {
            State::Done { target_file, data } => {
                writes.push((target_file, data));
                proof {
                    assert(write_views(writes@) =~= write_views(pfx_writes).push(
                        done_write(orig[k]@),
                    ));
                    assert(write_views(writes@) =~= done_only(
                        views_of(orig.subrange(0, k + 1)),
                    ).map_values(|tv: TaskView| done_write(tv)));
                }
            },
            State::Failed => {
                failures.push(t.name);
                proof {
                    assert(failures@.map_values(|n: String| n@) =~= pfx_failures.map_values(
                        |n: String| n@,
                    ).push(orig[k]@.name));
                    assert(failures@.map_values(|n: String| n@) =~= failed_only(
                        views_of(orig.subrange(0, k + 1)),
                    ).map_values(|tv: TaskView| tv.name));
                }
            },
            _ => {},
        }
        proof {
            k = k + 1;
        }
    }
    proof {
        assert(orig.subrange(0, k) =~= orig);
    }
    Tick::Pass { lines, writes, failures }
}

/// A filter that keeps every element changes nothing.
proof fn lemma_filter_all(s: Seq<TaskView>, p: spec_fn(TaskView) -> bool)
    requires
        forall|i: int| 0 <= i < s.len() ==> p(#[trigger] s[i]),
    ensures
        s.filter(p) == s,
    decreases s.len(),
{
    if s.len() > 0 {
        let s0 = s.drop_last();
        lemma_filter_all(s0, p);
        assert(s =~= s0.push(s.last()));
        lemma_filter_push(s0, s.last(), p);
        assert(s.filter(p) =~= s);
    } else {
        assert(s.filter(p) =~= s);
    }
}

/// A filter that keeps no element empties the sequence.
proof fn lemma_filter_empty(s: Seq<TaskView>, p: spec_fn(TaskView) -> bool)
    requires
        forall|i: int| 0 <= i < s.len() ==> !p(#[trigger] s[i]),
    ensures
        s.filter(p).len() == 0,
    decreases s.len(),
{
    if s.len() > 0 {
        let s0 = s.drop_last();
        lemma_filter_empty(s0, p);
        assert(s =~= s0.push(s.last()));
        lemma_filter_push(s0, s.last(), p);
    } else {
        assert(s.filter(p) =~= Seq::<TaskView>::empty());
    }
}

/// Once a sweep drains the table and no new task is created, the loop stops
/// after at most one more poll: a pass over a table whose tasks are all
/// terminal sweeps them all out and raises the completion flag, and the next
/// poll — `drain_tick` with that flag — finishes the loop, whatever else
/// happens in between.
pub proof fn lemma_drain_loop_stops(s: Seq<TaskView>)
    requires
        s.len() > 0,
        forall|i: int| 0 <= i < s.len() ==> is_terminal(#[trigger] s[i].state),
    ensures
        next_tasks(s, false).len() == 0,
        next_ready(s, false),
        next_tasks(next_tasks(s, false), next_ready(s, false)) == next_tasks(s, false),
        next_ready(next_tasks(s, false), next_ready(s, false)),
{
    lemma_filter_empty(s, |t: TaskView| !is_terminal(t.state));
}

/// When every task in the table is `Done` — as after launching any number of
/// workers that all succeed — a single pass hands out exactly one write per
/// task, the sweep empties the table and raises the completion flag, and the
/// loop finishes on the following poll.
pub proof fn lemma_all_done_one_pass(s: Seq<TaskView>)
    requires
        s.len() > 0,
        forall|i: int| 0 <= i < s.len() ==> #[trigger] s[i].state is Done,
    ensures
        done_only(s).len() == s.len(),
        next_tasks(s, false).len() == 0,
        next_ready(s, false),
{
    lemma_filter_all(s, |t: TaskView| t.state is Done);
    lemma_filter_empty(s, |t: TaskView| !is_terminal(t.state));
}

} // verus!
