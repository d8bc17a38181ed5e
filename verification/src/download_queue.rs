use std::collections::VecDeque;
use vstd::multiset::Multiset;
use vstd::prelude::*;
use vstd::string::*;

use crate::text::{decimal, list_text, push_decimal, push_list};

verus! {

/// What the contracts see of a download queue: its capacity, the files
/// that wait (front first) and the files being downloaded (oldest first).
pub struct QueueState {
    pub queue_size: usize,
    pub queue: Seq<i64>,
    pub in_progress: Seq<i64>,
}

/// `s` with every occurrence of `x` taken out, the others kept in order.
pub open spec fn without(s: Seq<i64>, x: i64) -> Seq<i64>
    decreases s.len(),
{
    if s.len() == 0 {
        s
    } else {
        let rest = without(s.drop_last(), x);
        if s.last() == x {
            rest
        } else {
            rest.push(s.last())
        }
    }
}

/// The state after a download of `obj` is asked for, and whether it starts
/// at once: it does while fewer than `queue_size` files are in progress;
/// else it waits at the back of the queue.
pub open spec fn after_may_be_download(q: QueueState, obj: i64) -> (QueueState, bool) {
    if q.in_progress.len() >= q.queue_size {
        (QueueState { queue_size: q.queue_size, queue: q.queue.push(obj), in_progress: q.in_progress }, false)
    } else {
        (QueueState { queue_size: q.queue_size, queue: q.queue, in_progress: q.in_progress.push(obj) }, true)
    }
}

/// The state after the download of `obj` is reported done, and the file that
/// starts in its place: every occurrence of `obj` leaves the files in
/// progress, and the front of the queue, if any, joins them.
pub open spec fn after_mark_as_done(q: QueueState, obj: i64) -> (QueueState, Option<i64>) {
    let kept = without(q.in_progress, obj);
    if q.queue.len() == 0 {
        (QueueState { queue_size: q.queue_size, queue: q.queue, in_progress: kept }, None)
    } else {
        (
            QueueState {
                queue_size: q.queue_size,
                queue: q.queue.drop_first(),
                in_progress: kept.push(q.queue[0]),
            },
            Some(q.queue[0]),
        )
    }
}

/// Every file that the queue holds, waiting or in progress, as often as it
/// is held.
pub open spec fn held(q: QueueState) -> Multiset<i64> {
    q.queue.to_multiset().add(q.in_progress.to_multiset())
}

/// No more downloads run than the queue allows.
pub open spec fn within_capacity(q: QueueState) -> bool {
    q.in_progress.len() <= q.queue_size
}

/// No file waits while a download could run.
pub open spec fn no_idle_slot(q: QueueState) -> bool {
    q.queue.len() > 0 ==> q.in_progress.len() >= q.queue_size
}

/// Taking `x` out of `s` drops exactly its occurrences and keeps the others.
pub proof fn lemma_without(s: Seq<i64>, x: i64)
    ensures
        without(s, x).len() == s.len() - s.to_multiset().count(x),
        without(s, x).to_multiset().count(x) == 0,
        forall|y: i64| y != x ==> #[trigger] without(s, x).to_multiset().count(y) == s.to_multiset().count(y),
    decreases s.len(),
{
    broadcast use vstd::seq_lib::group_to_multiset_ensures;
    broadcast use vstd::multiset::group_multiset_axioms;

    if s.len() == 0 {
        assert(s.to_multiset() =~= Multiset::<i64>::empty());
    } else {
        let init = s.drop_last();
        lemma_without(init, x);
        assert(s =~= init.push(s.last()));
        assert(s.to_multiset() == init.to_multiset().insert(s.last()));
    }
}

/// A download that is asked for is held once more, and nothing else
/// changes in what the queue holds.
pub proof fn law_may_be_download_holds_the_file(q: QueueState, obj: i64)
    ensures
        held(after_may_be_download(q, obj).0) =~= held(q).insert(obj),
{
    broadcast use vstd::seq_lib::group_to_multiset_ensures;
    broadcast use vstd::multiset::group_multiset_axioms;

}

/// After a download is reported done, the file is held only where it still
/// waits in the queue; every other file is held as often as before (the
/// file that starts only moves from the queue to the downloads in progress).
pub proof fn law_mark_as_done_releases_the_file(q: QueueState, obj: i64)
    ensures
        held(after_mark_as_done(q, obj).0).count(obj) == q.queue.to_multiset().count(obj),
        forall|y: i64|
            y != obj ==> #[trigger] held(after_mark_as_done(q, obj).0).count(y) == held(q).count(y),
{
    broadcast use vstd::seq_lib::group_to_multiset_ensures;
    broadcast use vstd::multiset::group_multiset_axioms;

    lemma_without(q.in_progress, obj);
    if q.queue.len() > 0 {
        assert(q.queue.drop_first() =~= q.queue.remove(0));
    }
}

/// Asking for a download never runs more downloads than the queue allows,
/// and never leaves a file waiting while a download could run.
pub proof fn law_may_be_download_keeps_invariants(q: QueueState, obj: i64)
    ensures
        within_capacity(q) ==> within_capacity(after_may_be_download(q, obj).0),
        no_idle_slot(q) ==> no_idle_slot(after_may_be_download(q, obj).0),
{
}

/// Reporting done a download that is in progress never runs more downloads
/// than the queue allows; where that download ran once, no file is left
/// waiting while a download could run.
pub proof fn law_mark_as_done_keeps_invariants(q: QueueState, obj: i64)
    requires
        q.in_progress.contains(obj),
    ensures
        within_capacity(q) ==> within_capacity(after_mark_as_done(q, obj).0),
        q.in_progress.to_multiset().count(obj) == 1 && no_idle_slot(q) ==> no_idle_slot(
            after_mark_as_done(q, obj).0,
        ),
{
    broadcast use vstd::seq_lib::group_to_multiset_ensures;

    lemma_without(q.in_progress, obj);
}

/// Files leave the waiting line in the order in which they joined it: the
/// file that a report of completion starts is the one that waited longest,
/// and a file that has to wait joins the line behind all the others.
pub proof fn law_first_come_first_served(q: QueueState, obj: i64, done: i64)
    ensures
        !after_may_be_download(q, obj).1 ==> after_may_be_download(q, obj).0.queue == q.queue.push(obj),
        q.queue.len() > 0 ==> after_mark_as_done(q, done).1 == Some(q.queue[0])
            && after_mark_as_done(q, done).0.queue == q.queue.subrange(1, q.queue.len() as int),
        q.queue.len() == 0 ==> after_mark_as_done(q, done).1 == None::<i64>,
{
}

/// A call on a download queue: a download asked for, or one reported done.
pub enum QueueCall {
    MayBeDownload { obj: i64 },
    MarkAsDone { obj: i64 },
}

/// What a run of calls on a queue leaves: the final state, the files that
/// the reports of completion started (the `Some` results, in call order) and
/// the files that had to wait (those asked for with a `false` result, in
/// call order).
pub struct QueueRun {
    pub state: QueueState,
    pub started: Seq<i64>,
    pub waited: Seq<i64>,
}

/// The run of some calls, in order, on a queue in state `q`.
pub open spec fn run_calls(q: QueueState, calls: Seq<QueueCall>) -> QueueRun
    decreases calls.len(),
{
    if calls.len() == 0 {
        QueueRun { state: q, started: Seq::empty(), waited: Seq::empty() }
    } else {
        let before = run_calls(q, calls.drop_last());
        match calls.last() {
            QueueCall::MayBeDownload { obj } => {
                let (next, started_now) = after_may_be_download(before.state, obj);
                QueueRun {
                    state: next,
                    started: before.started,
                    waited: if started_now {
                        before.waited
                    } else {
                        before.waited.push(obj)
                    },
                }
            },
            QueueCall::MarkAsDone { obj } => {
                let (next, new) = after_mark_as_done(before.state, obj);
                QueueRun {
                    state: next,
                    started: match new {
                        Some(n) => before.started.push(n),
                        None => before.started,
                    },
                    waited: before.waited,
                }
            },
        }
    }
}

/// First come, first served over any run of calls: the files that reports
/// of completion start, in call order, followed by the files still waiting,
/// are exactly the files that waited at first followed by those that had to
/// wait during the run, in call order; so the files started are a prefix of
/// that line, none skipped, repeated or reordered.
pub proof fn law_first_come_first_served_over_runs(q: QueueState, calls: Seq<QueueCall>)
    ensures
        run_calls(q, calls).started + run_calls(q, calls).state.queue == q.queue + run_calls(
            q,
            calls,
        ).waited,
        run_calls(q, calls).started.is_prefix_of(q.queue + run_calls(q, calls).waited),
    decreases calls.len(),
{
    let r = run_calls(q, calls);
    if calls.len() > 0 {
        let before = run_calls(q, calls.drop_last());
        law_first_come_first_served_over_runs(q, calls.drop_last());
        match calls.last() {
            QueueCall::MayBeDownload { obj } => {
                if !after_may_be_download(before.state, obj).1 {
                    assert(r.started + r.state.queue =~= (before.started + before.state.queue).push(obj));
                    assert(q.queue + r.waited =~= (q.queue + before.waited).push(obj));
                }
            },
            QueueCall::MarkAsDone { obj } => {
                if before.state.queue.len() > 0 {
                    assert(r.started + r.state.queue =~= before.started + before.state.queue);
                }
            },
        }
    }
    assert((q.queue + r.waited).subrange(0, r.started.len() as int) =~= r.started) by {
        assert(r.started + r.state.queue == q.queue + r.waited);
        assert forall|i: int| 0 <= i < r.started.len() implies (q.queue + r.waited)[i] == r.started[i] by {
            assert((r.started + r.state.queue)[i] == r.started[i]);
        }
    }
}

/// A report of completion starts nothing only when every file that ever
/// waited in a run has already been started: where the call at position `k`
/// of a run reports a download done and gets `None`, the files started
/// before it are all the files that waited before it.
pub proof fn law_none_only_when_all_started(q: QueueState, calls: Seq<QueueCall>, k: int)
    requires
        0 <= k < calls.len(),
        calls[k] matches QueueCall::MarkAsDone { obj } && after_mark_as_done(
            run_calls(q, calls.take(k)).state,
            obj,
        ).1 is None,
    ensures
        run_calls(q, calls.take(k)).started == q.queue + run_calls(q, calls.take(k)).waited,
{
    law_first_come_first_served_over_runs(q, calls.take(k));
    let r = run_calls(q, calls.take(k));
    assert(r.state.queue.len() == 0);
    assert(r.started + r.state.queue =~= r.started);
}

/// The line that describes the state of a queue in the log, with the
/// fields as `Debug` writes them.
pub open spec fn state_text(q: QueueState) -> Seq<char> {
    "download queue state: DownloadQueue { queue_size: "@ + decimal(q.queue_size as nat) + ", queue: "@
        + list_text(q.queue) + ", in_progress: "@ + list_text(q.in_progress) + " }"@
}

/// A queue of file downloads of which at most `queue_size` run at a time
/// (where every finished download is reported once); the others wait their
/// turn in the order in which they were asked for.
#[derive(Debug)]
pub struct DownloadQueue {
    queue_size: usize,
    queue: VecDeque<i64>,
    in_progress: Vec<i64>,
}

impl View for DownloadQueue {
    type V = QueueState;

    closed spec fn view(&self) -> QueueState {
        QueueState { queue_size: self.queue_size, queue: self.queue@, in_progress: self.in_progress@ }
    }
}

impl DownloadQueue {
    /// An empty queue that runs at most `queue_size` downloads at a time.
    pub fn new(queue_size: usize) -> (q: Self)
        ensures
            q@.queue_size == queue_size,
            q@.queue == Seq::<i64>::empty(),
            q@.in_progress == Seq::<i64>::empty(),
    {
        DownloadQueue { queue_size, queue: VecDeque::new(), in_progress: Vec::new() }
    }

    /// The line that describes the state of the queue in the log.
    pub fn log_state(&self) -> (line: String)
        ensures
            line@ == state_text(self@),
    {
        let mut waiting: Vec<i64> = Vec::new();
        let mut i: usize = 0;
        while i < self.queue.len()
            invariant
                i <= self.queue@.len(),
                waiting@ == self.queue@.take(i as int),
            decreases self.queue@.len() - i,
        {
            waiting.push(self.queue[i]);
            proof {
                assert(waiting@ =~= self.queue@.take(i + 1));
            }
            i += 1;
        }
        proof {
            assert(waiting@ =~= self.queue@);
        }
        let mut line = String::new();
        line.append("download queue state: DownloadQueue { queue_size: ");
        push_decimal(&mut line, self.queue_size as u64);
        line.append(", queue: ");
        push_list(&mut line, &waiting);
        line.append(", in_progress: ");
        push_list(&mut line, &self.in_progress);
        line.append(" }");
        proof {
            assert(line@ =~= state_text(self@));
        }
        line
    }

    /// Whether the download of `obj` is in progress.
    pub fn is_in_progress(&self, obj: &i64) -> (r: bool)
        ensures
            r == self@.in_progress.contains(*obj),
    {
        let mut i: usize = 0;
        while i < self.in_progress.len()
            invariant
                i <= self.in_progress@.len(),
                forall|j: int| 0 <= j < i ==> self.in_progress@[j] != *obj,
            decreases self.in_progress@.len() - i,
        {
            if self.in_progress[i] == *obj {
                return true;
            }
            i += 1;
        }
        false
    }

    /// Asks for the download of `obj`: it starts at once, and the result is
    /// `true`, where fewer than `queue_size` downloads are in progress; else
    /// it waits at the back of the queue, and the result is `false`.
    pub fn may_be_download(&mut self, obj: i64) -> (started: bool)
        ensures
            (final(self)@, started) == after_may_be_download(old(self)@, obj),
    {
        if self.in_progress.len() >= self.queue_size {
            self.queue.push_back(obj);
            false
        } else {
            self.in_progress.push(obj);
            true
        }
    }

    /// Reports the download of `obj` done: every occurrence of `obj` leaves
    /// the downloads in progress, and the file at the front of the queue, if
    /// any, starts in its place and is the result.
    pub fn mark_as_done_and_get_new(&mut self, obj: &i64) -> (new: Option<i64>)
        ensures
            (final(self)@, new) == after_mark_as_done(old(self)@, *obj),
    {
        let mut kept: Vec<i64> = Vec::new();
        let mut i: usize = 0;
        while i < self.in_progress.len()
            invariant
                i <= self.in_progress@.len(),
                kept@ == without(self.in_progress@.take(i as int), *obj),
            decreases self.in_progress@.len() - i,
        {
            proof {
                assert(self.in_progress@.take(i + 1).drop_last() =~= self.in_progress@.take(i as int));
            }
            let x = self.in_progress[i];
            if x != *obj {
                kept.push(x);
            }
            i += 1;
        }
        proof {
            assert(self.in_progress@.take(i as int) =~= self.in_progress@);
        }
        self.in_progress = kept;
        let new = self.queue.pop_front();
        match new {
            Some(n) => {
                self.in_progress.push(n);
                Some(n)
            },
            None => None,
        }
    }
    /// The most downloads that run at a time.
    pub fn queue_size(&self) -> (n: usize)
        ensures
            n == self@.queue_size,
    {
        self.queue_size
    }

    /// The files that wait, the next to start first.
    pub fn queue(&self) -> (q: &VecDeque<i64>)
        ensures
            q@ == self@.queue,
    {
        &self.queue
    }

    /// The files being downloaded, in the order in which they started.
    pub fn in_progress(&self) -> (p: &Vec<i64>)
        ensures
            p@ == self@.in_progress,
    {
        &self.in_progress
    }
}

} // verus!
