//! The per-task state machine: a task is created while its locator is being
//! fetched, reports download progress, and ends in a terminal state.

use vstd::prelude::*;

verus! {

/// The state of one download job.
///
/// A task moves `FetchingURL -> Download* -> Done`, or to `Failed` directly
/// when no locator could be resolved. `Done` and `Failed` are terminal.
pub enum State {
    FetchingURL,
    Failed,
    Download { current: usize, total: Option<u64> },
    Done { target_file: String, data: Vec<u8> },
}

/// The mathematical model of a `State`.
pub enum StateView {
    FetchingURL,
    Failed,
    Download { current: nat, total: Option<nat> },
    Done { target_file: Seq<char>, data: Seq<u8> },
}

/// The model of an optional content-length hint.
pub open spec fn total_view(total: Option<u64>) -> Option<nat> {
    match total {
        Some(n) => Some(n as nat),
        None => None,
    }
}

impl View for State {
    type V = StateView;

    open spec fn view(&self) -> StateView {
        match self {
            State::FetchingURL => StateView::FetchingURL,
            State::Failed => StateView::Failed,
            State::Download { current, total } => StateView::Download {
                current: *current as nat,
                total: total_view(*total),
            },
            State::Done { target_file, data } => StateView::Done {
                target_file: target_file@,
                data: data@,
            },
        }
    }
}

/// A terminal state never changes again.
pub open spec fn is_terminal(s: StateView) -> bool {
    s is Failed || s is Done
}

impl State {
    /// Executable test for a terminal state.
    pub fn is_settled(&self) -> (b: bool)
        ensures
            b == is_terminal(self@),
    {
        match self {
            State::Failed => true,
            State::Done { .. } => true,
            _ => false,
        }
    }
}

impl Clone for State {
    fn clone(&self) -> (r: Self)
        ensures
            r@ == self@,
    {
        match self {
            State::FetchingURL => State::FetchingURL,
            State::Failed => State::Failed,
            State::Download { current, total } => State::Download {
                current: *current,
                total: *total,
            },
            State::Done { target_file, data } => {
                let d = data.clone();
                proof {
                    assert(d@ =~= data@);
                }
                State::Done { target_file: target_file.clone(), data: d }
            },
        }
    }
}

/// One download job: an identifier unique for the whole run, a human-readable
/// label, and the job's current state.
pub struct Task {
    pub id: usize,
    pub name: String,
    pub state: State,
}

/// The mathematical model of a `Task`.
pub struct TaskView {
    pub id: nat,
    pub name: Seq<char>,
    pub state: StateView,
}

impl View for Task {
    type V = TaskView;

    open spec fn view(&self) -> TaskView {
        TaskView { id: self.id as nat, name: self.name@, state: self.state@ }
    }
}

impl Clone for Task {
    fn clone(&self) -> (r: Self)
        ensures
            r@ == self@,
    {
        Task { id: self.id, name: self.name.clone(), state: self.state.clone() }
    }
}

} // verus!
