//! The content-fetching policy: which tasks need a download given what
//! is already on disk, and the bounded-concurrency bookkeeping a caller
//! drives while running the downloads. The caller performs the network
//! and file work; every decision is taken here.
use vstd::prelude::*;

verus! {

/// One download task: where the content comes from, where it goes, and
/// what is known about its expected content.
pub struct DownloadTask {
    pub source_url: String,
    pub destination_path: String,
    pub expected_digest: Option<String>,
    pub expected_size: Option<u64>,
}

/// What the caller found on disk for one task: whether the destination
/// exists, and the digest of the existing file when one was computed.
pub struct FileState {
    pub exists: bool,
    pub actual_digest: Option<String>,
}

/// A task needs its download: always when the destination is missing;
/// when it exists, only when an expected digest is supplied and the
/// existing file's digest does not match it.
pub open spec fn needs_download_spec(
    exists: bool,
    actual: Option<Seq<char>>,
    expected: Option<Seq<char>>,
) -> bool {
    if !exists {
        true
    } else {
        match expected {
            Option::None => false,
            Option::Some(e) => match actual {
                Option::None => true,
                Option::Some(a) => a != e,
            },
        }
    }
}

/// Decides whether one task needs its download.
pub fn needs_download(state: &FileState, expected_digest: &Option<String>) -> (r: bool)
    ensures
        r == needs_download_spec(
            state.exists,
            (match state.actual_digest {
                Option::Some(a) => Option::Some(a@),
                Option::None => Option::None,
            }),
            (match expected_digest {
                Option::Some(e) => Option::Some(e@),
                Option::None => Option::None,
            }),
        ),
{
    if !state.exists {
        return true;
    }
    match expected_digest {
        Option::None => false,
        Option::Some(e) => match &state.actual_digest {
            Option::None => true,
            Option::Some(a) => !(*a == *e),
        },
    }
}

/// The view of one file state.
pub open spec fn state_digest_view(s: FileState) -> Option<Seq<char>> {
    match s.actual_digest {
        Option::Some(a) => Option::Some(a@),
        Option::None => Option::None,
    }
}

/// The view of one task's expected digest.
pub open spec fn task_digest_view(t: DownloadTask) -> Option<Seq<char>> {
    match t.expected_digest {
        Option::Some(e) => Option::Some(e@),
        Option::None => Option::None,
    }
}

/// The indices of the tasks that need their download, in order.
pub open spec fn download_plan_spec(
    tasks: Seq<DownloadTask>,
    states: Seq<FileState>,
    at: int,
) -> Seq<int>
    decreases tasks.len() - at,
{
    if at < 0 || at >= tasks.len() {
        Seq::empty()
    } else {
        if needs_download_spec(
            states[at].exists,
            state_digest_view(states[at]),
            task_digest_view(tasks[at]),
        ) {
            seq![at] + download_plan_spec(tasks, states, at + 1)
        } else {
            download_plan_spec(tasks, states, at + 1)
        }
    }
}

/// Collects the indices of the tasks that need their download.
pub fn plan_downloads(tasks: &Vec<DownloadTask>, states: &Vec<FileState>) -> (r: Vec<usize>)
    requires
        tasks@.len() == states@.len(),
    ensures
        r@.map_values(|i: usize| i as int) == download_plan_spec(tasks@, states@, 0),
{
    let mut out: Vec<usize> = Vec::new();
    let mut i: usize = 0;
    proof {
        assert(out@.map_values(|k: usize| k as int) + download_plan_spec(tasks@, states@, 0)
            =~= download_plan_spec(tasks@, states@, 0));
    }
    while i < tasks.len()
        invariant
            tasks@.len() == states@.len(),
            i <= tasks@.len(),
            download_plan_spec(tasks@, states@, 0) == out@.map_values(|k: usize| k as int)
                + download_plan_spec(tasks@, states@, i as int),
        decreases tasks@.len() - i,
    {
        if needs_download(&states[i], &tasks[i].expected_digest) {
            let ghost old_out = out@;
            out.push(i);
            proof {
                assert(out@.map_values(|k: usize| k as int) =~= old_out.map_values(
                    |k: usize| k as int,
                ).push(i as int));
                assert(out@.map_values(|k: usize| k as int) + download_plan_spec(
                    tasks@,
                    states@,
                    i + 1,
                ) =~= old_out.map_values(|k: usize| k as int) + (seq![i as int]
                    + download_plan_spec(tasks@, states@, i + 1)));
            }
        }
        i += 1;
    }
    proof {
        assert(download_plan_spec(tasks@, states@, i as int) =~= Seq::<int>::empty());
        assert(out@.map_values(|k: usize| k as int) + Seq::<int>::empty() =~= out@.map_values(
            |k: usize| k as int,
        ));
    }
    out
}

/// Law: a second run over tasks whose destinations all exist and that
/// carry no expected digest plans no download at all.
pub proof fn lemma_fetch_idempotent(tasks: Seq<DownloadTask>, states: Seq<FileState>, at: int)
    requires
        tasks.len() == states.len(),
        forall|i: int|
            0 <= i < tasks.len() ==> states[i].exists && tasks[i].expected_digest is None,
    ensures
        download_plan_spec(tasks, states, at).len() == 0,
    decreases tasks.len() - at,
{
    if 0 <= at < tasks.len() {
        lemma_fetch_idempotent(tasks, states, at + 1);
    }
}

/// Law: a task whose destination exists but whose digest does not match
/// the expected one is re-fetched.
pub proof fn lemma_integrity_gate(actual: Seq<char>, expected: Seq<char>)
    requires
        actual != expected,
    ensures
        needs_download_spec(true, Option::Some(actual), Option::Some(expected)),
{
}

/// The outcome counts of one fetch round.
pub struct FetchReport {
    pub succeeded: usize,
    pub failed: usize,
}

/// Bookkeeping of one bounded-concurrency fetch round: how many tasks
/// have been handed out, how many are running, and how each finished.
/// The caller performs the downloads; it may only start a task when this
/// planner hands one out, so at most `max_concurrency` run at once.
pub struct FetchPlanner {
    pub total: usize,
    pub started: usize,
    pub in_flight: usize,
    pub succeeded: usize,
    pub failed: usize,
    pub max_concurrency: usize,
}

impl FetchPlanner {
    /// The planner's invariant: the permit bound holds and the counts
    /// account for every started task.
    pub open spec fn wf(&self) -> bool {
        &&& self.max_concurrency >= 1
        &&& self.started <= self.total
        &&& self.in_flight <= self.max_concurrency
        &&& self.succeeded + self.failed + self.in_flight == self.started
    }

    /// A fresh round over `total` tasks under a positive permit bound.
    pub fn new(total: usize, max_concurrency: usize) -> (r: FetchPlanner)
        requires
            max_concurrency >= 1,
        ensures
            r.wf(),
            r.total == total,
            r.started == 0,
            r.in_flight == 0,
            r.succeeded == 0,
            r.failed == 0,
            r.max_concurrency == max_concurrency,
    {
        FetchPlanner {
            total,
            started: 0,
            in_flight: 0,
            succeeded: 0,
            failed: 0,
            max_concurrency,
        }
    }

    /// Hands out the next task index when tasks remain and a permit is
    /// free; hands out nothing otherwise.
    pub fn try_start(&mut self) -> (r: Option<usize>)
        requires
            old(self).wf(),
        ensures
            final(self).wf(),
            final(self).total == old(self).total,
            final(self).max_concurrency == old(self).max_concurrency,
            final(self).succeeded == old(self).succeeded,
            final(self).failed == old(self).failed,
            (match r {
                Option::Some(idx) => old(self).started < old(self).total && old(self).in_flight
                    < old(self).max_concurrency && idx == old(self).started && final(self).started
                    == old(self).started + 1 && final(self).in_flight == old(self).in_flight + 1,
                Option::None => (old(self).started == old(self).total || old(self).in_flight
                    == old(self).max_concurrency) && *final(self) == *old(self),
            }),
    {
        if self.started < self.total && self.in_flight < self.max_concurrency {
            let idx = self.started;
            self.started = self.started + 1;
            self.in_flight = self.in_flight + 1;
            Option::Some(idx)
        } else {
            Option::None
        }
    }

    /// Records one finished task, returning its permit.
    pub fn on_complete(&mut self, ok: bool)
        requires
            old(self).wf(),
            old(self).in_flight > 0,
        ensures
            final(self).wf(),
            final(self).total == old(self).total,
            final(self).max_concurrency == old(self).max_concurrency,
            final(self).started == old(self).started,
            final(self).in_flight == old(self).in_flight - 1,
            ok ==> final(self).succeeded == old(self).succeeded + 1 && final(self).failed == old(
                self,
            ).failed,
            !ok ==> final(self).failed == old(self).failed + 1 && final(self).succeeded == old(
                self,
            ).succeeded,
    {
        self.in_flight = self.in_flight - 1;
        if ok {
            self.succeeded = self.succeeded + 1;
        } else {
            self.failed = self.failed + 1;
        }
    }

    /// The round is over: every task was handed out and every one came
    /// back.
    pub fn is_done(&self) -> (r: bool)
        ensures
            r == (self.started == self.total && self.in_flight == 0),
    {
        self.started == self.total && self.in_flight == 0
    }

    /// The tasks currently holding a permit.
    pub fn active(&self) -> (r: usize)
        ensures
            r == self.in_flight,
    {
        self.in_flight
    }

    /// The outcome counts; once the round is over they account for every
    /// task.
    pub fn report(&self) -> (r: FetchReport)
        requires
            self.wf(),
        ensures
            r.succeeded == self.succeeded,
            r.failed == self.failed,
            self.started == self.total && self.in_flight == 0 ==> r.succeeded + r.failed
                == self.total,
    {
        FetchReport { succeeded: self.succeeded, failed: self.failed }
    }
}

/// Law: however the round is driven, a well-formed planner never has
/// more tasks holding a permit than the concurrency bound allows.
pub proof fn lemma_concurrency_bound(p: FetchPlanner)
    requires
        p.wf(),
    ensures
        p.in_flight <= p.max_concurrency,
{
}

} // verus!
