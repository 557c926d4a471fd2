//! The task registry: an ordered table of live tasks keyed by their unique,
//! monotonically assigned identifiers, together with the identifier counter.
//!
//! All callers go through the operations here; the table itself is never
//! handed out for raw mutation. One run shares a single registry, placed
//! behind one exclusive lock by the surrounding program, so every operation
//! is specified as a sequential step.

use vstd::prelude::*;

use crate::state::{State, StateView, Task, TaskView, is_terminal};

verus! {

/// The models of a sequence of tasks, in table order.
pub open spec fn views_of(tasks: Seq<Task>) -> Seq<TaskView> {
    tasks.map_values(|t: Task| t@)
}

/// Whether a task with identifier `id` is in the table.
pub open spec fn has_id(s: Seq<TaskView>, id: nat) -> bool {
    exists|i: int| 0 <= i < s.len() && s[i].id == id
}

/// The position of the task with identifier `id` (meaningful only when
/// `has_id(s, id)` holds; identifiers are unique in a well-formed table).
pub open spec fn idx_of(s: Seq<TaskView>, id: nat) -> int {
    choose|i: int| 0 <= i < s.len() && s[i].id == id
}

/// The state of the task with identifier `id`.
pub open spec fn state_of(s: Seq<TaskView>, id: nat) -> StateView {
    s[idx_of(s, id)].state
}

/// What a `set_state_by_id` call leaves in the table: the addressed task's
/// state is replaced, except that a missing task changes nothing and a task
/// already in a terminal state is left exactly as it was.
pub open spec fn set_result(s: Seq<TaskView>, id: nat, sv: StateView) -> Seq<TaskView> {
    if has_id(s, id) {
        if is_terminal(state_of(s, id)) {
            s
        } else {
            let i = idx_of(s, id);
            s.update(i, TaskView { id: s[i].id, name: s[i].name, state: sv })
        }
    } else {
        s
    }
}

/// The live (non-terminal) tasks of a table, in order.
pub open spec fn live_only(s: Seq<TaskView>) -> Seq<TaskView> {
    s.filter(|t: TaskView| !is_terminal(t.state))
}

/// The terminal tasks of a table, in order.
pub open spec fn terminal_only(s: Seq<TaskView>) -> Seq<TaskView> {
    s.filter(|t: TaskView| is_terminal(t.state))
}

/// The `Done` tasks of a table, in order.
pub open spec fn done_only(s: Seq<TaskView>) -> Seq<TaskView> {
    s.filter(|t: TaskView| t.state is Done)
}

/// The `Failed` tasks of a table, in order.
pub open spec fn failed_only(s: Seq<TaskView>) -> Seq<TaskView> {
    s.filter(|t: TaskView| t.state is Failed)
}

/// Filtering a pushed sequence filters the push.
pub proof fn lemma_filter_push(s: Seq<TaskView>, x: TaskView, p: spec_fn(TaskView) -> bool)
    ensures
        s.push(x).filter(p) == if p(x) {
            s.filter(p).push(x)
        } else {
            s.filter(p)
        },
{
    reveal_with_fuel(Seq::<TaskView>::filter, 2);
    assert(s.push(x).drop_last() =~= s);
    assert(s.push(x).last() == x);
    assert(s.push(x).len() == s.len() + 1);
}

/// Every element a filter keeps was in the sequence.
proof fn lemma_filter_members(s: Seq<TaskView>, p: spec_fn(TaskView) -> bool)
    ensures
        forall|i: int| 0 <= i < s.filter(p).len() ==> s.contains(#[trigger] s.filter(p)[i]),
    decreases s.len(),
{
    if s.len() > 0 {
        let s0 = s.drop_last();
        lemma_filter_members(s0, p);
        assert(s =~= s0.push(s.last()));
        lemma_filter_push(s0, s.last(), p);
        assert forall|i: int| 0 <= i < s.filter(p).len() implies s.contains(
            #[trigger] s.filter(p)[i],
        ) by {
            if i < s0.filter(p).len() {
                let e = s0.filter(p)[i];
                assert(s0.contains(e));
                let k = choose|k: int| 0 <= k < s0.len() && s0[k] == e;
                assert(s[k] == e);
            } else {
                assert(s.filter(p)[i] == s.last());
            }
        }
    }
}

/// Filtering keeps strictly increasing, bounded identifiers so.
proof fn lemma_filter_wf(s: Seq<TaskView>, p: spec_fn(TaskView) -> bool, bound: nat)
    requires
        forall|i: int, j: int| 0 <= i < j < s.len() ==> s[i].id < s[j].id,
        forall|i: int| 0 <= i < s.len() ==> s[i].id <= bound,
    ensures
        forall|i: int, j: int|
            0 <= i < j < s.filter(p).len() ==> s.filter(p)[i].id < s.filter(p)[j].id,
        forall|i: int| 0 <= i < s.filter(p).len() ==> s.filter(p)[i].id <= bound,
    decreases s.len(),
{
    if s.len() > 0 {
        let s0 = s.drop_last();
        lemma_filter_wf(s0, p, bound);
        lemma_filter_members(s0, p);
        assert(s =~= s0.push(s.last()));
        lemma_filter_push(s0, s.last(), p);
        assert forall|i: int, j: int|
            0 <= i < j < s.filter(p).len() implies s.filter(p)[i].id < s.filter(p)[j].id by {
            if j < s0.filter(p).len() {
            } else {
                let e = s0.filter(p)[i];
                assert(s0.contains(e));
                let k = choose|k: int| 0 <= k < s0.len() && s0[k] == e;
                assert(s0[k].id < s.last().id);
            }
        }
        assert forall|i: int| 0 <= i < s.filter(p).len() implies s.filter(p)[i].id <= bound by {
            if i < s0.filter(p).len() {
            } else {
                assert(s.filter(p)[i] == s.last());
            }
        }
    }
}

/// What a `remove` call leaves in the table.
pub open spec fn without_id(s: Seq<TaskView>, id: nat) -> Seq<TaskView> {
    if has_id(s, id) {
        s.remove(idx_of(s, id))
    } else {
        s
    }
}

/// The shared task table plus the identifier counter.
pub struct Root {
    tasks: Vec<Task>,
    id: usize,
}

impl View for Root {
    type V = Seq<TaskView>;

    closed spec fn view(&self) -> Seq<TaskView> {
        views_of(self.tasks@)
    }
}

impl Root {
    /// The identifier counter: the last identifier handed out.
    pub closed spec fn counter(self) -> nat {
        self.id as nat
    }

    /// Well-formedness: identifiers are strictly increasing in table order
    /// (hence unique at every instant) and never exceed the counter.
    pub open spec fn wf(self) -> bool {
        &&& forall|i: int, j: int|
            0 <= i < j < self@.len() ==> self@[i].id < self@[j].id
        &&& forall|i: int| 0 <= i < self@.len() ==> self@[i].id <= self.counter()
    }

    /// In a well-formed table an identifier occurs at one position only.
    pub proof fn lemma_id_unique(self, i: int, j: int)
        requires
            self.wf(),
            0 <= i < self@.len(),
            0 <= j < self@.len(),
            self@[i].id == self@[j].id,
        ensures
            i == j,
    {
    }

    /// The executable counter, so that unverified callers can rule out
    /// identifier overflow before asking for a task.
    pub fn counter_val(&self) -> (n: usize)
        ensures
            n as nat == self.counter(),
    {
        self.id
    }

    /// The number of live tasks.
    pub fn len(&self) -> (n: usize)
        ensures
            n == self@.len(),
    {
        self.tasks.len()
    }

    /// Whether the table is empty.
    pub fn is_empty(&self) -> (b: bool)
        ensures
            b == (self@.len() == 0),
    {
        self.tasks.is_empty()
    }

    /// Allocates the next identifier and inserts a fresh task for it, in the
    /// initial `FetchingURL` state. The new identifier is strictly larger
    /// than every identifier ever present, so no two calls return the same
    /// one.
    pub fn new_task(&mut self, name: String) -> (id: usize)
        requires
            old(self).wf(),
            old(self).counter() < usize::MAX,
        ensures
            final(self).wf(),
            id as nat == old(self).counter() + 1,
            final(self).counter() == id as nat,
            final(self)@ == old(self)@.push(
                TaskView { id: id as nat, name: name@, state: StateView::FetchingURL },
            ),
            forall|j: int| 0 <= j < old(self)@.len() ==> old(self)@[j].id < id as nat,
    {
        self.id = self.id + 1;
        let t = Task { id: self.id, name, state: State::FetchingURL };
        let ghost pre = self.tasks@;
        self.tasks.push(t);
        proof {
            assert(self@ =~= views_of(pre).push(
                TaskView { id: self.id as nat, name: t.name@, state: StateView::FetchingURL },
            ));
        }
        self.id
    }

    /// Replaces the state of the task with the given identifier. Returns
    /// `None` when no such task is in the table (a benign race: the drain
    /// loop removed it), `Some(())` when it is. A task already in a terminal
    /// state is left untouched: terminal states are truly terminal.
    pub fn set_state_by_id(&mut self, id: usize, state: State) -> (r: Option<()>)
        requires
            old(self).wf(),
        ensures
            final(self).wf(),
            final(self).counter() == old(self).counter(),
            r is Some <==> has_id(old(self)@, id as nat),
            final(self)@ == set_result(old(self)@, id as nat, state@),
    {
        let ghost pre = self@;
        let mut i: usize = 0;
        while i < self.tasks.len()
            invariant
                pre == old(self)@,
                self@ == pre,
                self.counter() == old(self).counter(),
                self.wf(),
                i <= self@.len(),
                forall|j: int| 0 <= j < i ==> self@[j].id != id as nat,
            decreases self@.len() - i,
        {
            if self.tasks[i].id == id {
                proof {
                    assert(pre[i as int].id == id as nat);
                    assert(has_id(pre, id as nat));
                    self.lemma_id_unique(i as int, idx_of(pre, id as nat));
                }
                let mut t = self.tasks.remove(i);
                if t.state.is_settled() {
                    self.tasks.insert(i, t);
                    proof {
                        assert(self@ =~= pre);
                    }
                } else {
                    t.state = state;
                    self.tasks.insert(i, t);
                    proof {
                        let tv = TaskView {
                            id: pre[i as int].id,
                            name: pre[i as int].name,
                            state: state@,
                        };
                        assert(self@ =~= pre.update(i as int, tv));
                    }
                }
                return Some(());
            }
            i = i + 1;
        }
        proof {
            assert(!has_id(pre, id as nat));
        }
        None
    }

    /// A consistent point-in-time copy of the table, in identifier order:
    /// every entry carries exactly the state value most recently written for
    /// it, never a blend of two writes.
    pub fn snapshot(&self) -> (r: Vec<Task>)
        ensures
            views_of(r@) == self@,
    {
        let r = self.tasks.clone();
        proof {
            assert forall|i: int| 0 <= i < r@.len() implies views_of(r@)[i] == self@[i] by {
                assert(vstd::prelude::cloned::<Task>(self.tasks@[i], r@[i]));
            }
            assert(views_of(r@) =~= self@);
        }
        r
    }

    /// Deletes the task with the given identifier; does nothing when it is
    /// already gone.
    pub fn remove(&mut self, id: usize)
        requires
            old(self).wf(),
        ensures
            final(self).wf(),
            final(self).counter() == old(self).counter(),
            final(self)@ == without_id(old(self)@, id as nat),
    {
        let ghost pre = self@;
        let mut i: usize = 0;
        while i < self.tasks.len()
            invariant
                pre == old(self)@,
                self@ == pre,
                self.counter() == old(self).counter(),
                self.wf(),
                i <= self@.len(),
                forall|j: int| 0 <= j < i ==> self@[j].id != id as nat,
            decreases self@.len() - i,
        {
            if self.tasks[i].id == id {
                proof {
                    assert(pre[i as int].id == id as nat);
                    assert(has_id(pre, id as nat));
                    self.lemma_id_unique(i as int, idx_of(pre, id as nat));
                }
                let _ = self.tasks.remove(i);
                proof {
                    assert(self@ =~= pre.remove(i as int));
                }
                return;
            }
            i = i + 1;
        }
        proof {
            assert(!has_id(pre, id as nat));
        }
    }

    /// Removes every terminal task from the table — the caller performs each
    /// one's side effect (persisting a `Done` payload, reporting a failure)
    /// before calling this — and reports whether the table is now empty, so
    /// the caller can record that the run may complete. Live tasks stay, in
    /// order.
    pub fn sweep_terminal(&mut self) -> (drained: bool)
        requires
            old(self).wf(),
        ensures
            final(self).wf(),
            final(self).counter() == old(self).counter(),
            final(self)@ == live_only(old(self)@),
            drained == (live_only(old(self)@).len() == 0),
    {
        let mut kept: Vec<Task> = Vec::new();
        let ghost orig = self.tasks@;
        let ghost k: int = 0;
        while self.tasks.len() > 0
            invariant
                views_of(orig) == old(self)@,
                self.counter() == old(self).counter(),
                0 <= k <= orig.len(),
                self.tasks@ == orig.subrange(k, orig.len() as int),
                views_of(kept@) == live_only(views_of(orig.subrange(0, k))),
            decreases self.tasks@.len(),
        {
            let t = self.tasks.remove(0);
            proof {
                assert(t == orig[k]);
                assert(self.tasks@ =~= orig.subrange(k + 1, orig.len() as int));
                assert(views_of(orig.subrange(0, k + 1)) =~= views_of(
                    orig.subrange(0, k),
                ).push(orig[k]@));
                lemma_filter_push(
                    views_of(orig.subrange(0, k)),
                    orig[k]@,
                    |tv: TaskView| !is_terminal(tv.state),
                );
            }
            if !t.state.is_settled() {
                kept.push(t);
            }
            proof {
                k = k + 1;
            }
        }
        proof {
            assert(orig.subrange(0, k) =~= orig);
        }
        self.tasks = kept;
        proof {
            lemma_filter_wf(
                old(self)@,
                |tv: TaskView| !is_terminal(tv.state),
                old(self).counter(),
            );
        }
        self.is_empty()
    }
}

impl Default for Root {
    /// A run starts from an empty table and a counter of zero.
    fn default() -> (r: Self)
        ensures
            r.wf(),
            r@ == Seq::<TaskView>::empty(),
            r.counter() == 0,
    {
        let r = Root { tasks: Vec::new(), id: 0 };
        proof {
            assert(r@ =~= Seq::<TaskView>::empty());
        }
        r
    }
}

/// Task identifiers are handed out in strictly increasing order, so the ids
/// returned by any sequence of `new_task` calls are pairwise distinct: each
/// call returns one more than the counter it found, leaves the counter at
/// that value, and no other operation lowers the counter.
pub proof fn lemma_ids_strictly_increase(c0: nat, id1: nat, c_mid: nat, id2: nat)
    requires
        id1 == c0 + 1,
        c_mid >= id1,
        id2 == c_mid + 1,
    ensures
        id2 > id1,
        id2 != id1,
{
}

/// Once a task's state is terminal, no `set_state_by_id` call changes the
/// table at all: terminal states are frozen.
pub proof fn lemma_terminal_frozen(s: Seq<TaskView>, id: nat, sv: StateView)
    requires
        has_id(s, id),
        is_terminal(state_of(s, id)),
    ensures
        set_result(s, id, sv) == s,
{
}

} // verus!
