//! The download worker's decisions. The surrounding program resolves the
//! locator and pulls chunks from the byte source; every decision and every
//! registry transition a worker makes lives here, verified: recording
//! progress chunk by chunk, deriving the destination file name from the
//! locator, and the locator-failure shortcut to `Failed`.

use vstd::prelude::*;

use crate::registry::{Root, has_id, set_result};
use crate::state::{State, StateView, total_view};

verus! {

/// The final `/`-delimited segment of a locator (empty when the locator is
/// empty or ends in `/`).
pub open spec fn last_segment(s: Seq<char>) -> Seq<char>
    decreases s.len(),
{
    if s.len() == 0 {
        Seq::empty()
    } else if s[s.len() - 1] == '/' {
        Seq::empty()
    } else {
        last_segment(s.drop_last()).push(s[s.len() - 1])
    }
}

/// The destination file name derived from a locator: its final path segment,
/// or a fallback literal when none can be extracted.
pub open spec fn dest_name(s: Seq<char>) -> Seq<char> {
    if last_segment(s).len() == 0 {
        "unknown.file"@
    } else {
        last_segment(s)
    }
}

/// When no `/` occurs at or after position `k`, and `k` sits just past a `/`
/// (or at the very start), the last segment is exactly the tail from `k`.
proof fn lemma_last_segment_tail(s: Seq<char>, k: int)
    requires
        0 <= k <= s.len(),
        forall|i: int| k <= i < s.len() ==> s[i] != '/',
        k > 0 ==> s[k - 1] == '/',
    ensures
        last_segment(s) == s.subrange(k, s.len() as int),
    decreases s.len(),
{
    if k == s.len() {
        if s.len() > 0 {
            assert(s[s.len() - 1] == '/');
        }
        assert(last_segment(s) =~= s.subrange(k, s.len() as int));
    } else {
        assert(s[s.len() - 1] != '/');
        lemma_last_segment_tail(s.drop_last(), k);
        assert(s.drop_last().subrange(k, s.len() - 1).push(s[s.len() - 1]) =~= s.subrange(
            k,
            s.len() as int,
        ));
    }
}

/// Computes the destination file name for a locator: the text after the last
/// `/`, or `unknown.file` when that text is empty.
pub fn target_file_of(url: &str) -> (r: String)
    ensures
        r@ == dest_name(url@),
{
    let n = url.unicode_len();
    let mut cut: usize = 0;
    let mut i: usize = 0;
    while i < n
        invariant
            n == url@.len(),
            i <= n,
            cut <= i,
            cut > 0 ==> url@[cut - 1] == '/',
            forall|j: int| cut <= j < i ==> url@[j] != '/',
        decreases n - i,
    {
        if url.get_char(i) == '/' {
            cut = i + 1;
        }
        i = i + 1;
    }
    proof {
        lemma_last_segment_tail(url@, cut as int);
    }
    if cut == n {
        String::from_str("unknown.file")
    } else {
        let seg = url.substring_char(cut, n);
        seg.to_owned()
    }
}

/// The `Downloading` report for an accumulated payload: the byte count so
/// far, beside the byte source's optional total-size hint.
pub open spec fn progress_state(content: Seq<u8>, total: Option<u64>) -> StateView {
    StateView::Download { current: content.len(), total: total_view(total) }
}

/// Records the locator-failure shortcut: the task moves straight to
/// `Failed`. Returns `None` when the task is no longer in the table, which a
/// worker must surface: the drain loop never removes a live task.
pub fn fail_task(root: &mut Root, id: usize) -> (r: Option<()>)
    requires
        old(root).wf(),
    ensures
        final(root).wf(),
        final(root).counter() == old(root).counter(),
        final(root)@ == set_result(old(root)@, id as nat, StateView::Failed),
        r is Some <==> has_id(old(root)@, id as nat),
{
    root.set_state_by_id(id, State::Failed)
}

/// One job's streaming transfer: the task it reports to, the locator it
/// reads from, the total-size hint, and the payload accumulated so far.
pub struct Transfer {
    pub id: usize,
    pub url: String,
    pub total: Option<u64>,
    pub content: Vec<u8>,
}

impl Transfer {
    /// Opens a transfer: nothing has been accumulated yet.
    pub fn begin(id: usize, url: String, total: Option<u64>) -> (t: Transfer)
        ensures
            t.id == id,
            t.url == url,
            t.total == total,
            t.content@ == Seq::<u8>::empty(),
    {
        Transfer { id, url, total, content: Vec::new() }
    }

    /// The bytes accumulated so far.
    pub fn bytes_so_far(&self) -> (n: usize)
        ensures
            n == self.content@.len(),
    {
        self.content.len()
    }

    /// One successful chunk: the payload grows by exactly the chunk, and the
    /// task's state is set to `Downloading` with the new cumulative count —
    /// which never decreases. Returns `None` when the task is no longer in
    /// the table (see `fail_task`).
    pub fn on_chunk(&mut self, root: &mut Root, chunk: Vec<u8>) -> (r: Option<()>)
        requires
            old(root).wf(),
        ensures
            final(root).wf(),
            final(root).counter() == old(root).counter(),
            final(self).id == old(self).id,
            final(self).url == old(self).url,
            final(self).total == old(self).total,
            final(self).content@ == old(self).content@ + chunk@,
            final(self).content@.len() >= old(self).content@.len(),
            final(root)@ == set_result(
                old(root)@,
                old(self).id as nat,
                progress_state(final(self).content@, old(self).total),
            ),
            r is Some <==> has_id(old(root)@, old(self).id as nat),
    {
        let mut c = chunk;
        self.content.append(&mut c);
        let cur = self.content.len();
        root.set_state_by_id(self.id, State::Download { current: cur, total: self.total })
    }

    /// Stream exhausted: the task is set to `Done`, carrying the destination
    /// name derived from the locator and the whole accumulated payload.
    /// Returns `None` when the task is no longer in the table (see
    /// `fail_task`).
    pub fn finish(self, root: &mut Root) -> (r: Option<()>)
        requires
            old(root).wf(),
        ensures
            final(root).wf(),
            final(root).counter() == old(root).counter(),
            final(root)@ == set_result(
                old(root)@,
                self.id as nat,
                StateView::Done { target_file: dest_name(self.url@), data: self.content@ },
            ),
            r is Some <==> has_id(old(root)@, self.id as nat),
    {
        let target = target_file_of(self.url.as_str());
        root.set_state_by_id(self.id, State::Done { target_file: target, data: self.content })
    }
}

/// Progress reports for one task never go backwards: however a transfer's
/// payload grows — by one chunk, or across any number of them — the byte
/// count its successive `Downloading` states carry is non-decreasing.
pub proof fn lemma_bytes_monotonic(content: Seq<u8>, grown: Seq<u8>, total: Option<u64>)
    requires
        content.len() <= grown.len(),
    ensures
        progress_state(content, total) matches StateView::Download { current: c1, .. }
            && progress_state(grown, total) matches StateView::Download { current: c2, .. }
            && c1 <= c2,
{
}

} // verus!
