//! The queue as a mathematical value, and the steps that it takes.
use vstd::prelude::*;

use super::job::{JobState, JobView};
use super::scheduler::{
    KillOutcome, PauseOutcome, RemoveOutcome, RestartOutcome, RunResult, SetPriorityOutcome,
};
use crate::clock::Timestamp;
use crate::paths;
use crate::text;

verus! {

/// What the queue holds.
#[verifier::ext_equal]
pub struct AppStateView {
    pub next_id: u32,
    pub jobs: Map<u32, JobView>,
    pub cpu_limit: Option<u32>,
}

/// What is kept of the queue while no daemon runs.
#[verifier::ext_equal]
pub struct StoredView {
    pub next_id: u32,
    pub jobs: Seq<(u32, JobView)>,
    pub cpu_limit: Option<u32>,
}

/// What a job is launched with.
#[verifier::ext_equal]
pub struct RunSpecView {
    pub id: u32,
    pub argv: Seq<Seq<char>>,
    pub cwd: Seq<char>,
    pub log_path: Seq<char>,
    pub assigned_gpus: Seq<u32>,
    pub env: Seq<(Seq<char>, Seq<char>)>,
}

/// `keys` lists the members of `dom`, each once, in increasing order.
pub open spec fn lists_in_order(keys: Seq<u32>, dom: Set<u32>) -> bool {
    &&& forall|i: int, j: int| 0 <= i < j < keys.len() ==> keys[i] < keys[j]
    &&& forall|k: u32| #[trigger] dom.contains(k) <==> keys.contains(k)
}

/// The map that a list of entries writes; of two entries with one id the later
/// counts.
pub open spec fn entry_map(entries: Seq<(u32, JobView)>) -> Map<u32, JobView>
    decreases entries.len(),
{
    if entries.len() == 0 {
        Map::empty()
    } else {
        entry_map(entries.drop_last()).insert(entries.last().0, entries.last().1)
    }
}

/// The queue that is taken up from stored state: what was stored, but for the
/// jobs that ran, which have failed.
pub open spec fn loaded(stored: Option<StoredView>, now: Timestamp) -> AppStateView {
    let before = match stored {
        None => AppStateView::empty(),
        Some(stored) => AppStateView {
            next_id: stored.next_id,
            jobs: entry_map(stored.jobs),
            cpu_limit: stored.cpu_limit,
        },
    };
    before.moved(JobState::Running, JobState::Failed, Some(now))
}

/// The name of the log file of job `id`.
pub open spec fn log_name(id: u32) -> Seq<char> {
    text::decimal(id as nat) + ".log"@
}

impl JobView {
    /// A job that has just entered the queue.
    pub open spec fn queued(
        id: u32,
        log_dir: Seq<char>,
        argv: Seq<Seq<char>>,
        label: Option<Seq<char>>,
        cwd: Seq<char>,
        gpus: u32,
        priority: i32,
        env: Seq<(Seq<char>, Seq<char>)>,
        now: Timestamp,
    ) -> JobView {
        JobView {
            id,
            argv,
            label,
            cwd,
            state: JobState::Queued,
            exit_code: None,
            log_path: paths::joined_path(log_dir, log_name(id)),
            enqueued_at: now,
            started_at: None,
            finished_at: None,
            priority,
            gpus,
            assigned_gpus: Seq::empty(),
            env,
        }
    }

    /// The job put into another state, with the time of its end if there is
    /// one, if it is in state `from`; else the job itself.
    pub open spec fn moved(self, from: JobState, to: JobState, end: Option<Timestamp>) -> JobView {
        if self.state == from {
            JobView {
                state: to,
                finished_at: if end is Some {
                    end
                } else {
                    self.finished_at
                },
                ..self
            }
        } else {
            self
        }
    }

    /// The job after a run with the given outcome.
    pub open spec fn finished(self, result: RunResult, now: Timestamp) -> JobView {
        let released = JobView { assigned_gpus: Seq::empty(), finished_at: Some(now), ..self };
        match result {
            RunResult::Exited(code) => JobView {
                exit_code: code,
                state: JobState::Finished,
                ..released
            },
            RunResult::Killed => JobView { state: JobState::Killed, ..released },
            RunResult::SpawnFailed => JobView { state: JobState::Failed, ..released },
            RunResult::Restarted => JobView {
                state: JobState::Queued,
                exit_code: None,
                started_at: None,
                finished_at: None,
                ..released
            },
        }
    }

    /// What the job is launched with.
    pub open spec fn run_spec(self, id: u32) -> RunSpecView {
        RunSpecView {
            id,
            argv: self.argv,
            cwd: self.cwd,
            log_path: self.log_path,
            assigned_gpus: self.assigned_gpus,
            env: self.env,
        }
    }
}

impl AppStateView {
    /// The queue before anything was added.
    pub open spec fn empty() -> AppStateView {
        AppStateView { next_id: 0, jobs: Map::empty(), cpu_limit: None }
    }

    pub open spec fn has(self, id: u32) -> bool {
        self.jobs.contains_key(id)
    }

    /// Whether there is a job `id` in the given state.
    pub open spec fn in_state(self, id: u32, state: JobState) -> bool {
        self.has(id) && self.jobs[id].state == state
    }

    /// The ids under which the jobs are found, in increasing order.
    pub open spec fn ids(self) -> Seq<u32> {
        choose|keys: Seq<u32>| lists_in_order(keys, self.jobs.dom())
    }

    /// The ids under which the jobs in a state are found, in increasing order.
    pub open spec fn ids_in(self, state: JobState) -> Seq<u32> {
        self.ids().filter(|k: u32| self.jobs[k].state == state)
    }

    /// The ids that the jobs in a state carry, in the order in which the jobs are
    /// found.
    pub open spec fn carried_ids_in(self, state: JobState) -> Seq<u32> {
        self.ids_in(state).map_values(|k: u32| self.jobs[k].id)
    }

    /// All jobs, in increasing order of their ids.
    pub open spec fn listing(self) -> Seq<JobView> {
        self.ids().map_values(|k: u32| self.jobs[k])
    }

    /// The queue with job `id` replaced.
    pub open spec fn with_job(self, id: u32, job: JobView) -> AppStateView {
        AppStateView { jobs: self.jobs.insert(id, job), ..self }
    }

    /// The queue with every job that is in state `from` put into state `to`.
    pub open spec fn moved(
        self,
        from: JobState,
        to: JobState,
        end: Option<Timestamp>,
    ) -> AppStateView {
        AppStateView {
            jobs: self.jobs.map_values(|j: JobView| j.moved(from, to, end)),
            ..self
        }
    }

    /// The queue after a job was added to it.
    pub open spec fn added(
        self,
        log_dir: Seq<char>,
        argv: Seq<Seq<char>>,
        label: Option<Seq<char>>,
        cwd: Seq<char>,
        gpus: u32,
        priority: i32,
        env: Seq<(Seq<char>, Seq<char>)>,
        now: Timestamp,
    ) -> AppStateView {
        let id = self.next_id;
        AppStateView {
            next_id: (id + 1) as u32,
            jobs: self.jobs.insert(
                id,
                JobView::queued(id, log_dir, argv, label, cwd, gpus, priority, env, now),
            ),
            ..self
        }
    }

    /// The queue after a fresh copy of job `id` was added to it.
    pub open spec fn rerun(self, log_dir: Seq<char>, id: u32, now: Timestamp) -> AppStateView {
        if self.has(id) {
            let job = self.jobs[id];
            self.added(
                log_dir,
                job.argv,
                job.label,
                job.cwd,
                job.gpus,
                job.priority,
                job.env,
                now,
            )
        } else {
            self
        }
    }

    // -- capacity ----------------------------------------------------------

    /// Whether `id` is a running job that holds GPU `index`.
    pub open spec fn holds(self, id: u32, index: u32) -> bool {
        self.in_state(id, JobState::Running) && self.jobs[id].assigned_gpus.contains(index)
    }

    /// Whether some running job holds GPU `index`.
    pub open spec fn held(self, index: u32) -> bool {
        exists|k: u32| #[trigger] self.holds(k, index)
    }

    /// The GPU indices that are currently free, in increasing order: the full
    /// pool `0..gpu_total` minus every index held by a running job.
    pub open spec fn free_gpus(self, gpu_total: u32) -> Seq<u32> {
        Seq::new(gpu_total as nat, |i: int| i as u32).filter(|i: u32| !self.held(i))
    }

    /// Whether `id` is a running job that asks for no GPU.
    pub open spec fn runs_on_cpu(self, id: u32) -> bool {
        self.in_state(id, JobState::Running) && self.jobs[id].gpus == 0
    }

    /// How many CPU (0-GPU) jobs are running.
    pub open spec fn running_cpu_count(self) -> nat {
        self.ids().filter(|k: u32| self.runs_on_cpu(k)).len()
    }

    /// Whether one more CPU job may start.
    pub open spec fn cpu_has_room(self) -> bool {
        match self.cpu_limit {
            None => true,
            Some(limit) => self.running_cpu_count() < limit,
        }
    }

    /// Whether `id` is a queued job that could start right now: a GPU job when
    /// enough GPUs are free, a CPU job while the CPU limit leaves room.
    pub open spec fn fits(self, gpu_total: u32, id: u32) -> bool {
        &&& self.in_state(id, JobState::Queued)
        &&& if self.jobs[id].gpus == 0 {
            self.cpu_has_room()
        } else {
            self.jobs[id].gpus <= self.free_gpus(gpu_total).len()
        }
    }

    /// Whether the job found under `a` is ahead of the one found under `b`: by
    /// higher priority, then by the lower id that it carries. Of two jobs that carry
    /// one id, the one that is found first is ahead.
    pub open spec fn ahead(self, a: u32, b: u32) -> bool {
        let (x, y) = (self.jobs[a], self.jobs[b]);
        ||| x.priority > y.priority
        ||| x.priority == y.priority && x.id < y.id
        ||| x.priority == y.priority && x.id == y.id && a < b
    }

    /// Whether the job found under `id` is the one whose turn it is: it fits, and is
    /// ahead of every other job that fits.
    pub open spec fn is_next(self, gpu_total: u32, id: u32) -> bool {
        &&& self.fits(gpu_total, id)
        &&& forall|other: u32| #[trigger]
            self.fits(gpu_total, other) && other != id ==> self.ahead(id, other)
    }

    /// Whether `id` is the job to start next: the job whose turn it is carries that
    /// id.
    pub open spec fn starts_next(self, gpu_total: u32, id: u32) -> bool {
        exists|k: u32| #[trigger] self.is_next(gpu_total, k) && self.jobs[k].id == id
    }

    /// Whether the job to start next can be found under its id, if there is one.
    pub open spec fn can_start(self, gpu_total: u32) -> bool {
        forall|id: u32| #[trigger] self.starts_next(gpu_total, id) ==> self.has(id)
    }

    /// The lowest free GPUs, `gpus` of them, or all where there are not as many.
    pub open spec fn lowest_free(self, gpu_total: u32, gpus: u32) -> Seq<u32> {
        let free = self.free_gpus(gpu_total);
        if gpus <= free.len() {
            free.take(gpus as int)
        } else {
            free
        }
    }

    /// The queue after job `id` was started on the lowest free GPUs.
    pub open spec fn started(self, gpu_total: u32, id: u32, now: Timestamp) -> AppStateView {
        let job = self.jobs[id];
        self.with_job(
            id,
            JobView {
                state: JobState::Running,
                started_at: Some(now),
                assigned_gpus: self.lowest_free(gpu_total, job.gpus),
                ..job
            },
        )
    }

    // -- the other steps ---------------------------------------------------

    /// The queue after job `id` ended with the given outcome.
    pub open spec fn finished(self, id: u32, result: RunResult, now: Timestamp) -> AppStateView {
        if self.has(id) {
            self.with_job(id, self.jobs[id].finished(result, now))
        } else {
            self
        }
    }

    /// What a request to kill job `id` comes to.
    pub open spec fn kill_outcome(self, id: u32) -> KillOutcome {
        if !self.has(id) {
            KillOutcome::NotFound
        } else {
            match self.jobs[id].state {
                JobState::Running => KillOutcome::Running,
                JobState::Queued => KillOutcome::Dequeued,
                JobState::Paused => KillOutcome::Dequeued,
                _ => KillOutcome::AlreadyDone,
            }
        }
    }

    /// The queue after a request to kill job `id`: a job that waits is dropped,
    /// any other is left as it is.
    pub open spec fn kill_requested(self, id: u32, now: Timestamp) -> AppStateView {
        if self.kill_outcome(id) == KillOutcome::Dequeued {
            self.with_job(
                id,
                JobView {
                    state: JobState::Killed,
                    finished_at: Some(now),
                    ..self.jobs[id]
                },
            )
        } else {
            self
        }
    }

    /// What a request to restart job `id` comes to.
    pub open spec fn restart_outcome(self, id: u32) -> RestartOutcome {
        if !self.has(id) {
            RestartOutcome::NotFound
        } else if self.jobs[id].state == JobState::Running {
            RestartOutcome::Restarting
        } else {
            RestartOutcome::NotRunning
        }
    }

    /// What a request to change the priority of job `id` comes to.
    pub open spec fn priority_outcome(self, id: u32) -> SetPriorityOutcome {
        if !self.has(id) {
            SetPriorityOutcome::NotFound
        } else if self.jobs[id].state == JobState::Queued {
            SetPriorityOutcome::Updated
        } else {
            SetPriorityOutcome::NotQueued
        }
    }

    /// The queue after the priority of a queued job was changed.
    pub open spec fn prioritised(self, id: u32, priority: i32) -> AppStateView {
        if self.in_state(id, JobState::Queued) {
            self.with_job(id, JobView { priority, ..self.jobs[id] })
        } else {
            self
        }
    }

    /// What a request about job `id` that is meant for jobs in one state comes
    /// to.
    pub open spec fn pause_outcome(self, id: u32, from: JobState) -> PauseOutcome {
        if !self.has(id) {
            PauseOutcome::NotFound
        } else if self.jobs[id].state == from {
            PauseOutcome::Done
        } else {
            PauseOutcome::WrongState
        }
    }

    /// The queue after one job was moved from one state to another, if it was
    /// in the first.
    pub open spec fn shifted(self, id: u32, from: JobState, to: JobState) -> AppStateView {
        if self.in_state(id, from) {
            self.with_job(id, JobView { state: to, ..self.jobs[id] })
        } else {
            self
        }
    }

    /// The queue after the label of job `id` was set.
    pub open spec fn labelled(self, id: u32, label: Option<Seq<char>>) -> AppStateView {
        if self.has(id) {
            self.with_job(id, JobView { label, ..self.jobs[id] })
        } else {
            self
        }
    }

    /// The queue after every queued job was dropped.
    pub open spec fn cancelled(self, now: Timestamp) -> AppStateView {
        self.moved(JobState::Queued, JobState::Killed, Some(now))
    }

    /// What a request to remove job `id` comes to.
    pub open spec fn remove_outcome(self, id: u32) -> RemoveOutcome {
        if !self.has(id) {
            RemoveOutcome::NotFound
        } else if self.jobs[id].state == JobState::Running {
            RemoveOutcome::Running
        } else {
            RemoveOutcome::Removed
        }
    }

    /// The queue after a request to remove job `id`: a running job stays.
    pub open spec fn removed(self, id: u32) -> AppStateView {
        if self.has(id) && self.jobs[id].state != JobState::Running {
            AppStateView { jobs: self.jobs.remove(id), ..self }
        } else {
            self
        }
    }

    /// What is kept of the queue: its jobs in increasing order of their ids.
    pub open spec fn stored(self) -> StoredView {
        StoredView {
            next_id: self.next_id,
            jobs: self.ids().map_values(|k: u32| (k, self.jobs[k])),
            cpu_limit: self.cpu_limit,
        }
    }

    /// The ids of the jobs that are over, in increasing order.
    pub open spec fn terminal_ids(self) -> Seq<u32> {
        self.ids().filter(|k: u32| self.jobs[k].state.terminal())
    }

    /// The queue without the jobs that are over.
    pub open spec fn cleared(self) -> AppStateView {
        AppStateView {
            jobs: Map::new(
                |k: u32| self.has(k) && !self.jobs[k].state.terminal(),
                |k: u32| self.jobs[k],
            ),
            ..self
        }
    }
}

// ---------------------------------------------------------------------------
// Lemmas on listings
// ---------------------------------------------------------------------------

/// A set has one listing in order at most.
pub proof fn lemma_listing_is_unique(a: Seq<u32>, b: Seq<u32>, dom: Set<u32>)
    requires
        lists_in_order(a, dom),
        lists_in_order(b, dom),
    ensures
        a == b,
    decreases a.len(),
{
    if a.len() == 0 {
        if b.len() > 0 {
            assert(b.contains(b[0]));
            assert(dom.contains(b[0]));
        }
    } else {
        assert(a.contains(a[0]));
        assert(dom.contains(a[0]));
        assert(b.contains(a[0]));
        assert(b.contains(b[0]));
        assert(dom.contains(b[0]));
        assert(a.contains(b[0]));
        let i = choose|i: int| 0 <= i < b.len() && b[i] == a[0];
        let j = choose|j: int| 0 <= j < a.len() && a[j] == b[0];
        assert(a[0] == b[0]);
        let (ra, rb) = (a.skip(1), b.skip(1));
        let rest = dom.remove(a[0]);
        assert forall|k: u32| #[trigger] rest.contains(k) <==> ra.contains(k) by {
            if ra.contains(k) {
                let m = choose|m: int| 0 <= m < ra.len() && ra[m] == k;
                assert(a[m + 1] == k);
                assert(a.contains(k));
            }
            if rest.contains(k) {
                let m = choose|m: int| 0 <= m < a.len() && a[m] == k;
                assert(ra[m - 1] == k);
            }
        }
        assert forall|k: u32| #[trigger] rest.contains(k) <==> rb.contains(k) by {
            if rb.contains(k) {
                let m = choose|m: int| 0 <= m < rb.len() && rb[m] == k;
                assert(b[m + 1] == k);
                assert(b.contains(k));
            }
            if rest.contains(k) {
                let m = choose|m: int| 0 <= m < b.len() && b[m] == k;
                assert(rb[m - 1] == k);
            }
        }
        lemma_listing_is_unique(ra, rb, rest);
        assert(a == seq![a[0]] + ra);
        assert(b == seq![b[0]] + rb);
    }
}

/// A listing in order is the list of ids.
pub proof fn lemma_ids(s: AppStateView, keys: Seq<u32>)
    requires
        lists_in_order(keys, s.jobs.dom()),
    ensures
        s.ids() == keys,
{
    lemma_listing_is_unique(s.ids(), keys, s.jobs.dom());
}

/// Filtering one more element of a sequence.
pub proof fn lemma_filter_step<A>(s: Seq<A>, i: int, p: spec_fn(A) -> bool)
    requires
        0 <= i < s.len(),
    ensures
        s.take(i + 1).filter(p) == (if p(s[i]) {
            s.take(i).filter(p).push(s[i])
        } else {
            s.take(i).filter(p)
        }),
{
    reveal(Seq::filter);
    assert(s.take(i + 1).drop_last() == s.take(i));
}

/// The name of a log file is one plain path component.
pub proof fn lemma_log_name_is_plain(id: u32)
    ensures
        paths::plain_name(log_name(id)),
{
    let digits = text::decimal(id as nat);
    text::lemma_decimal_reads_back(id as nat);
    reveal_strlit(".log");
    let name = log_name(id);
    assert forall|i: int| 0 <= i < name.len() implies {
        &&& #[trigger] name[i] != '/'
        &&& name[i] != '\\'
        &&& name[i] != ':'
    } by {
        if i < digits.len() {
            assert(text::is_digit(digits[i]));
        } else {
            assert(name[i] == ".log"@[i - digits.len()]);
        }
    }
    assert(text::is_digit(digits[0]));
    assert(name[0] != '.');
}

/// Different jobs have different names for their log files.
pub proof fn lemma_log_name_injective(a: u32, b: u32)
    requires
        log_name(a) == log_name(b),
    ensures
        a == b,
{
    let (x, y) = (text::decimal(a as nat), text::decimal(b as nat));
    let tail = ".log"@;
    assert((x + tail).len() == (y + tail).len());
    assert((x + tail).take(x.len() as int) == x);
    assert((y + tail).take(y.len() as int) == y);
    text::lemma_decimal_injective(a as nat, b as nat);
}

} // verus!
