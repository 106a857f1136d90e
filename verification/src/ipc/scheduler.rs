//! The queue: which jobs there are, where each stands, and which runs next.
use std::collections::{BTreeMap, BTreeSet};

use vstd::prelude::*;

use super::job;
use super::job::{Job, JobState, JobView};
use super::laws;
use super::queue;
use super::queue::{AppStateView, RunSpecView, StoredView};
use crate::clock::{utc_now, Timestamp};
use crate::paths;
use crate::paths::join_path;
use crate::text;

verus! {

broadcast use vstd::std_specs::btree::group_btree_axioms;

/// What the scheduler needs in order to actually launch a job.
#[derive(Debug)]
pub struct RunSpec {
    pub id: u32,
    pub argv: Vec<String>,
    pub cwd: String,
    pub log_path: String,
    /// GPU indices reserved for this job; passed to the child as visible devices.
    pub assigned_gpus: Vec<u32>,
    /// Environment to run the job under (captured from the client at `add` time).
    pub env: Vec<(String, String)>,
}

/// The outcome of running a job.
#[derive(Debug, Clone, Copy, PartialEq, Eq)]
pub enum RunResult {
    Exited(Option<i32>),
    Killed,
    /// The command could not be started; details are written to the job's log.
    SpawnFailed,
    /// The process was stopped so that the same job runs again.
    Restarted,
}

#[derive(Debug, Clone, Copy, PartialEq, Eq)]
pub enum KillOutcome {
    Running,
    Dequeued,
    AlreadyDone,
    NotFound,
}

#[derive(Debug, Clone, Copy, PartialEq, Eq)]
pub enum RemoveOutcome {
    Removed,
    Running,
    NotFound,
}

#[derive(Debug, Clone, Copy, PartialEq, Eq)]
pub enum SetPriorityOutcome {
    Updated,
    /// The job exists but isn't queued (already running or terminal), so
    /// re-prioritising it has no effect.
    NotQueued,
    NotFound,
}

/// What pausing or resuming one job came to.
#[derive(Debug, Clone, Copy, PartialEq, Eq)]
pub enum PauseOutcome {
    Done,
    /// The job exists but is not in the state that the request is about.
    WrongState,
    NotFound,
}

#[derive(Debug, Clone, Copy, PartialEq, Eq)]
pub enum RestartOutcome {
    /// The job is running: its process is to be stopped and the job re-queued.
    Restarting,
    NotRunning,
    NotFound,
}

/// What `cancel_all` touched: the running jobs whose kill switch the daemon must
/// still fire, and how many queued jobs were dropped.
#[derive(Debug)]
pub struct CancelAll {
    pub running: Vec<u32>,
    pub dequeued: usize,
}

/// The parts of the queue that outlive the daemon.
#[derive(Debug)]
pub struct StoredState {
    pub next_id: u32,
    /// The jobs, each with the id that it is found under.
    pub jobs: Vec<(u32, Job)>,
    pub cpu_limit: Option<u32>,
}

/// The full in-memory state of the queue.
#[derive(Debug)]
pub struct AppState {
    next_id: u32,
    jobs: BTreeMap<u32, Job>,
    /// Max number of CPU (0-GPU) jobs allowed to run at once. `None` = unlimited.
    /// GPU jobs are bounded by the GPU pool instead and ignore this.
    cpu_limit: Option<u32>,
}

impl View for StoredState {
    type V = StoredView;

    open spec fn view(&self) -> StoredView {
        StoredView {
            next_id: self.next_id,
            jobs: self.jobs@.map_values(|e: (u32, Job)| (e.0, e.1@)),
            cpu_limit: self.cpu_limit,
        }
    }
}

/// Stored state that may be absent, as a mathematical value.
pub open spec fn stored_view(stored: Option<StoredState>) -> Option<StoredView> {
    match stored {
        Some(stored) => Some(stored@),
        None => None,
    }
}

impl View for RunSpec {
    type V = RunSpecView;

    open spec fn view(&self) -> RunSpecView {
        RunSpecView {
            id: self.id,
            argv: self.argv.deep_view(),
            cwd: self.cwd@,
            log_path: self.log_path@,
            assigned_gpus: self.assigned_gpus@,
            env: self.env.deep_view(),
        }
    }
}

/// The jobs of a map, each as a mathematical value.
pub open spec fn job_map(m: Map<u32, Job>) -> Map<u32, JobView> {
    m.map_values(|j: Job| j@)
}

impl AppState {
    pub closed spec fn contents(&self) -> AppStateView {
        AppStateView {
            next_id: self.next_id,
            jobs: job_map(self.jobs@),
            cpu_limit: self.cpu_limit,
        }
    }
}

impl View for AppState {
    type V = AppStateView;

    open spec fn view(&self) -> AppStateView {
        self.contents()
    }
}

/// What vstd calls increasing is increasing.
proof fn lemma_increasing(s: Seq<u32>)
    requires
        vstd::std_specs::btree::increasing_seq(s),
    ensures
        forall|i: int, j: int| 0 <= i < j < s.len() ==> s[i] < s[j],
{
    broadcast use vstd::laws_cmp::group_laws_cmp;

    assert forall|i: int, j: int| 0 <= i < j < s.len() implies s[i] < s[j] by {
        assert(vstd::std_specs::cmp::OrdSpec::cmp_spec(&s[i], &s[j]) is Less);
    }
}

proof fn lemma_job_map_insert(m: Map<u32, Job>, k: u32, j: Job)
    ensures
        job_map(m.insert(k, j)) == job_map(m).insert(k, j@),
{
    assert(job_map(m.insert(k, j)) =~= job_map(m).insert(k, j@));
}

proof fn lemma_job_map_remove(m: Map<u32, Job>, k: u32)
    ensures
        job_map(m.remove(k)) == job_map(m).remove(k),
{
    assert(job_map(m.remove(k)) =~= job_map(m).remove(k));
}

/// A queue holds finitely many jobs.
pub proof fn law_queue_is_finite(s: &AppState)
    ensures
        s@.jobs.dom().finite(),
{
    assert(s@.jobs.dom() =~= s.jobs@.dom());
}

// ---------------------------------------------------------------------------
// The queue itself
// ---------------------------------------------------------------------------

impl Default for AppState {
    fn default() -> (s: AppState)
        ensures
            s@ == AppStateView::empty(),
    {
        let s = AppState { next_id: 0, jobs: BTreeMap::new(), cpu_limit: None };
        assert(s@.jobs =~= Map::empty());
        s
    }
}

impl AppState {
    /// The ids of all jobs, in increasing order.
    fn all_ids(&self) -> (r: Vec<u32>)
        ensures
            r@ == self@.ids(),
            queue::lists_in_order(r@, self@.jobs.dom()),
    {
        let mut out: Vec<u32> = Vec::new();
        let ghost pairs = vstd::std_specs::iter::IteratorSpec::remaining(&self.jobs.iter());
        for entry in it: self.jobs.iter()
            invariant
                it.seq() == pairs,
                forall|i: int|
                    0 <= i < it.seq().len() ==> self.jobs@.contains_key(
                        *(#[trigger] it.seq()[i]).0,
                    ),
                forall|k: u32| #[trigger]
                    self.jobs@.contains_key(k) ==> it.seq().contains((&k, &self.jobs@[k])),
                out@ == it.seq().map_values(|kv: (&u32, &Job)| *kv.0).take(it.index() as int),
                vstd::std_specs::btree::increasing_seq(
                    it.seq().map_values(|kv: (&u32, &Job)| *kv.0),
                ),
        {
            out.push(*entry.0);
        }
        proof {
            assert(self@.jobs.dom() =~= self.jobs@.dom());
            assert forall|k: u32| #[trigger] self@.jobs.dom().contains(k) implies out@.contains(
                k,
            ) by {
                let i = choose|i: int|
                    0 <= i < pairs.len() && pairs[i] == (&k, &self.jobs@[k]);
                assert(out@[i] == k);
            }
            assert forall|k: u32| out@.contains(k) implies #[trigger] self@.jobs.dom().contains(
                k,
            ) by {
                let i = choose|i: int| 0 <= i < out@.len() && out@[i] == k;
                assert(*pairs[i].0 == k);
            }
            lemma_increasing(out@);
            queue::lemma_ids(self@, out@);
        }
        out
    }

    /// The GPU indices held by running jobs.
    fn held_gpus(&self) -> (r: BTreeSet<u32>)
        ensures
            forall|x: u32| #[trigger] r@.contains(x) == self@.held(x),
    {
        let ids = self.all_ids();
        let mut held: BTreeSet<u32> = BTreeSet::new();
        for i in 0..ids.len()
            invariant
                queue::lists_in_order(ids@, self@.jobs.dom()),
                forall|x: u32| #[trigger]
                    held@.contains(x) == (exists|m: int|
                        0 <= m < i && self@.holds(#[trigger] ids@[m], x)),
        {
            let id = ids[i];
            let ghost before = held@;
            assert(ids@.contains(id));
            assert(self@.jobs.dom().contains(id));
            if let Some(job) = self.jobs.get(&id) {
                if job.state == JobState::Running {
                    for k in 0..job.assigned_gpus.len()
                        invariant
                            forall|x: u32| #[trigger]
                                held@.contains(x) == (before.contains(x)
                                    || job.assigned_gpus@.take(k as int).contains(x)),
                    {
                        held.insert(job.assigned_gpus[k]);
                        let ghost taken = job.assigned_gpus@.take(k as int);
                        assert(job.assigned_gpus@.take(k + 1) == taken.push(
                            job.assigned_gpus@[k as int],
                        ));
                        assert forall|x: u32| #[trigger]
                            taken.push(job.assigned_gpus@[k as int]).contains(x) == (
                            taken.contains(x) || x == job.assigned_gpus@[k as int]) by {
                            broadcast use vstd::seq_lib::group_seq_properties;

                        }
                    }
                    assert(job.assigned_gpus@.take(job.assigned_gpus@.len() as int)
                        == job.assigned_gpus@);
                }
            }
            assert forall|x: u32| #[trigger] held@.contains(x) == (exists|m: int|
                0 <= m < i + 1 && self@.holds(#[trigger] ids@[m], x)) by {
                if before.contains(x) {
                    let m = choose|m: int| 0 <= m < i && self@.holds(#[trigger] ids@[m], x);
                    assert(0 <= m < i + 1 && self@.holds(ids@[m], x));
                }
                if self@.holds(id, x) {
                    assert(0 <= i < i + 1 && self@.holds(ids@[i as int], x));
                }
            }
        }
        assert forall|x: u32| #[trigger] held@.contains(x) == self@.held(x) by {
            if self@.held(x) {
                let k = choose|k: u32| #[trigger] self@.holds(k, x);
                assert(self@.jobs.dom().contains(k));
                let m = choose|m: int| 0 <= m < ids@.len() && ids@[m] == k;
                assert(self@.holds(ids@[m], x));
            }
        }
        held
    }

    /// GPU indices that are currently free, in increasing order: the full pool
    /// `0..gpu_total` minus every index held by a running job.
    fn free_gpus(&self, gpu_total: u32) -> (r: Vec<u32>)
        ensures
            r@ == self@.free_gpus(gpu_total),
    {
        let held = self.held_gpus();
        let mut free: Vec<u32> = Vec::new();
        let ghost pool = Seq::new(gpu_total as nat, |i: int| i as u32);
        let ghost is_free = |i: u32| !self@.held(i);
        reveal(Seq::filter);
        assert(pool.take(0).filter(is_free) == Seq::<u32>::empty());
        for i in 0..gpu_total
            invariant
                pool == Seq::new(gpu_total as nat, |i: int| i as u32),
                is_free == (|i: u32| !self@.held(i)),
                forall|x: u32| #[trigger] held@.contains(x) == self@.held(x),
                free@ == pool.take(i as int).filter(is_free),
        {
            proof {
                queue::lemma_filter_step(pool, i as int, is_free);
            }
            if !held.contains(&i) {
                free.push(i);
            }
        }
        assert(pool.take(gpu_total as int) == pool);
        free
    }

    /// Number of CPU (0-GPU) jobs currently running, used to enforce the limit.
    fn running_cpu_count(&self) -> (r: usize)
        ensures
            r == self@.running_cpu_count(),
    {
        let ids = self.all_ids();
        let ghost on_cpu = |k: u32| self@.runs_on_cpu(k);
        let mut count: usize = 0;
        reveal(Seq::filter);
        assert(ids@.take(0).filter(on_cpu) == Seq::<u32>::empty());
        for i in 0..ids.len()
            invariant
                on_cpu == (|k: u32| self@.runs_on_cpu(k)),
                count <= i,
                count == ids@.take(i as int).filter(on_cpu).len(),
        {
            proof {
                queue::lemma_filter_step(ids@, i as int, on_cpu);
            }
            let id = ids[i];
            if let Some(job) = self.jobs.get(&id) {
                if job.state == JobState::Running && job.gpus == 0 {
                    count = count + 1;
                }
            }
        }
        assert(ids@.take(ids@.len() as int) == ids@);
        count
    }

    /// The configured CPU-job concurrency cap (`None` = unlimited).
    pub fn cpu_limit(&self) -> (r: Option<u32>)
        ensures
            r == self@.cpu_limit,
    {
        self.cpu_limit
    }

    /// Set the CPU-job concurrency cap (`None` = unlimited).
    pub fn set_cpu_limit(&mut self, limit: Option<u32>)
        ensures
            final(self)@ == (AppStateView { cpu_limit: limit, ..old(self)@ }),
    {
        self.cpu_limit = limit;
    }

    /// Whether one more CPU job may start.
    fn cpu_has_room(&self) -> (r: bool)
        ensures
            r == self@.cpu_has_room(),
    {
        match self.cpu_limit {
            None => true,
            Some(limit) => self.running_cpu_count() < limit as usize,
        }
    }

    /// The id that the job to start next carries, if any job fits.
    fn next_runnable(&self, gpu_total: u32, free: usize) -> (r: Option<u32>)
        requires
            free == self@.free_gpus(gpu_total).len(),
        ensures
            match r {
                Some(id) => self@.starts_next(gpu_total, id),
                None => forall|k: u32| !#[trigger] self@.fits(gpu_total, k),
            },
    {
        let cpu_has_room = self.cpu_has_room();
        let ids = self.all_ids();
        let mut best: Option<u32> = None;
        let mut best_priority: i32 = 0;
        let ghost mut at: u32 = 0;
        for i in 0..ids.len()
            invariant
                queue::lists_in_order(ids@, self@.jobs.dom()),
                free == self@.free_gpus(gpu_total).len(),
                cpu_has_room == self@.cpu_has_room(),
                match best {
                    None => forall|m: int|
                        0 <= m < i ==> !self@.fits(gpu_total, #[trigger] ids@[m]),
                    Some(id) => {
                        &&& self@.fits(gpu_total, at)
                        &&& best_priority == self@.jobs[at].priority
                        &&& id == self@.jobs[at].id
                        &&& exists|m: int| 0 <= m < i && #[trigger] ids@[m] == at
                        &&& forall|m: int|
                            0 <= m < i && self@.fits(gpu_total, #[trigger] ids@[m]) && ids@[m] != at
                                ==> self@.ahead(at, ids@[m])
                    },
                },
        {
            let id = ids[i];
            assert(ids@.contains(id));
            assert(self@.jobs.dom().contains(id));
            let ghost before = (best, at);
            if let Some(job) = self.jobs.get(&id) {
                let fits = job.state == JobState::Queued && if job.gpus == 0 {
                    cpu_has_room
                } else {
                    job.gpus as usize <= free
                };
                assert(fits == self@.fits(gpu_total, id));
                if fits {
                    let wins = match best {
                        None => true,
                        Some(best_id) => job.priority > best_priority || (job.priority
                            == best_priority && job.id < best_id),
                    };
                    if wins {
                        best = Some(job.id);
                        best_priority = job.priority;
                        proof {
                            at = id;
                            assert(ids@[i as int] == id);
                        }
                    }
                }
            }
            proof {
                if before.0 is Some {
                    let m = choose|m: int| 0 <= m < i && #[trigger] ids@[m] == before.1;
                    assert(ids@[m] < ids@[i as int]);
                }
            }
        }
        assert forall|k: u32| #[trigger] self@.fits(gpu_total, k) implies exists|m: int|
            0 <= m < ids@.len() && #[trigger] ids@[m] == k by {
            assert(self@.jobs.dom().contains(k));
        }
        assert(best is Some ==> self@.is_next(gpu_total, at));
        best
    }

    /// Whether the job to start next can be found under its id, if there is one.
    pub fn can_start(&self, gpu_total: u32) -> (r: bool)
        ensures
            r == self@.can_start(gpu_total),
    {
        let free = self.free_gpus(gpu_total);
        match self.next_runnable(gpu_total, free.len()) {
            None => true,
            Some(id) => {
                assert forall|other: u32| #[trigger]
                    self@.starts_next(gpu_total, other) implies other == id by {
                    laws::law_next_id_is_unique(self@, gpu_total, other, id);
                }
                self.jobs.get(&id).is_some()
            },
        }
    }

    /// Pick the next queued job that fits the free GPU pool, reserve its GPUs,
    /// mark it running as of `now`, and return its run spec.
    ///
    /// Among the queued jobs that currently fit, the highest `priority` wins and
    /// id breaks ties (lowest first). A job that doesn't currently fit is skipped
    /// rather than blocking the queue (greedy backfill): a smaller / higher-fitting
    /// job can start ahead of one still waiting for capacity. A GPU job fits when
    /// enough GPUs are free; a CPU (0-GPU) job fits while the number of running
    /// CPU jobs is below the limit. Returns `None` when nothing fits, so the
    /// daemon can call this repeatedly to fill all available capacity.
    pub fn take_next_runnable_at(&mut self, gpu_total: u32, now: Timestamp) -> (r: Option<RunSpec>)
        requires
            old(self)@.can_start(gpu_total),
        ensures
            match r {
                Some(spec) => {
                    &&& old(self)@.starts_next(gpu_total, spec.id)
                    &&& final(self)@ == old(self)@.started(gpu_total, spec.id, now)
                    &&& spec@ == final(self)@.jobs[spec.id].run_spec(spec.id)
                },
                None => {
                    &&& final(self)@ == old(self)@
                    &&& forall|k: u32| !#[trigger] old(self)@.fits(gpu_total, k)
                },
            },
    {
        let free = self.free_gpus(gpu_total);
        let id = match self.next_runnable(gpu_total, free.len()) {
            Some(id) => id,
            None => return None,
        };
        let mut job = match self.jobs.remove(&id) {
            Some(job) => job,
            None => {
                assert(false);
                return None;
            },
        };
        let ghost source = job@;
        let wanted: usize = if job.gpus as usize <= free.len() {
            job.gpus as usize
        } else {
            free.len()
        };
        let mut assigned: Vec<u32> = Vec::new();
        for i in 0..wanted
            invariant
                wanted <= free@.len(),
                assigned@ == free@.take(i as int),
        {
            assigned.push(free[i]);
        }
        assert(free@.take(free@.len() as int) == free@);
        let spec = RunSpec {
            id,
            argv: text::copy_texts(&job.argv),
            cwd: job.cwd.clone(),
            log_path: job.log_path.clone(),
            assigned_gpus: text::copy_numbers(&assigned),
            env: text::copy_pairs(&job.env),
        };
        job.state = JobState::Running;
        job.started_at = Some(now);
        job.assigned_gpus = assigned;
        proof {
            lemma_job_map_insert(self.jobs@, id, job);
            lemma_job_map_remove(old(self).jobs@, id);
        }
        self.jobs.insert(id, job);
        assert(self@.jobs =~= old(self)@.started(gpu_total, id, now).jobs);
        Some(spec)
    }

    /// Like `take_next_runnable_at`, as of the present time.
    pub fn take_next_runnable(&mut self, gpu_total: u32) -> (r: Option<RunSpec>)
        requires
            old(self)@.can_start(gpu_total),
        ensures
            match r {
                Some(spec) => {
                    &&& old(self)@.starts_next(gpu_total, spec.id)
                    &&& exists|now: Timestamp|
                        now.is_reading() && final(self)@ == #[trigger] old(self)@.started(
                            gpu_total,
                            spec.id,
                            now,
                        )
                    &&& spec@ == final(self)@.jobs[spec.id].run_spec(spec.id)
                },
                None => {
                    &&& final(self)@ == old(self)@
                    &&& forall|k: u32| !#[trigger] old(self)@.fits(gpu_total, k)
                },
            },
    {
        let now = utc_now();
        self.take_next_runnable_at(gpu_total, now)
    }

    /// Whether one more job can get an id of its own.
    pub fn has_free_id(&self) -> (r: bool)
        ensures
            r == (self@.next_id < u32::MAX),
    {
        self.next_id < u32::MAX
    }

    /// Put a new job into the queue as of `now`. Returns its id.
    pub fn add_at(
        &mut self,
        log_dir: &str,
        argv: Vec<String>,
        label: Option<String>,
        cwd: String,
        gpus: u32,
        priority: i32,
        env: Vec<(String, String)>,
        now: Timestamp,
    ) -> (id: u32)
        requires
            old(self)@.next_id < u32::MAX,
        ensures
            id == old(self)@.next_id,
            final(self)@ == old(self)@.added(
                log_dir@,
                argv.deep_view(),
                label.deep_view(),
                cwd@,
                gpus,
                priority,
                env.deep_view(),
                now,
            ),
            // No other job's log file in that directory has the same path.
            forall|other: u32|
                other != id ==> #[trigger] paths::joined_path(log_dir@, queue::log_name(other))
                    != final(self)@.jobs[id].log_path,
    {
        let id = self.next_id;
        self.next_id = id + 1;
        let mut name = text::u32_text(id);
        name.append(".log");
        let job = Job {
            id,
            argv,
            label,
            cwd,
            state: JobState::Queued,
            exit_code: None,
            log_path: join_path(log_dir, name.as_str()),
            enqueued_at: now,
            started_at: None,
            finished_at: None,
            priority,
            gpus,
            assigned_gpus: Vec::new(),
            env,
        };
        proof {
            queue::lemma_log_name_is_plain(id);
            assert forall|other: u32| other != id implies #[trigger] paths::joined_path(
                log_dir@,
                queue::log_name(other),
            ) != job.log_path@ by {
                queue::lemma_log_name_is_plain(other);
                if queue::log_name(other) == queue::log_name(id) {
                    queue::lemma_log_name_injective(other, id);
                }
            }
            lemma_job_map_insert(self.jobs@, id, job);
            assert(job@ =~= JobView::queued(
                id,
                log_dir@,
                argv.deep_view(),
                label.deep_view(),
                cwd@,
                gpus,
                priority,
                env.deep_view(),
                now,
            ));
        }
        self.jobs.insert(id, job);
        id
    }

    /// Put a new job into the queue. Returns its id.
    pub fn add(
        &mut self,
        log_dir: &str,
        argv: Vec<String>,
        label: Option<String>,
        cwd: String,
        gpus: u32,
        priority: i32,
        env: Vec<(String, String)>,
    ) -> (id: u32)
        requires
            old(self)@.next_id < u32::MAX,
        ensures
            id == old(self)@.next_id,
            exists|now: Timestamp|
                now.is_reading() && final(self)@ == #[trigger] old(self)@.added(
                    log_dir@,
                    argv.deep_view(),
                    label.deep_view(),
                    cwd@,
                    gpus,
                    priority,
                    env.deep_view(),
                    now,
                ),
            // No other job's log file in that directory has the same path.
            forall|other: u32|
                other != id ==> #[trigger] paths::joined_path(log_dir@, queue::log_name(other))
                    != final(self)@.jobs[id].log_path,
    {
        let now = utc_now();
        self.add_at(log_dir, argv, label, cwd, gpus, priority, env, now)
    }

    /// Re-queue an existing job as a fresh job (new id, new log file) as of
    /// `now`, copying its command, working dir, GPU request, priority, label,
    /// and the environment captured at the original `add`. The source job's
    /// record is left untouched. Returns the new id, or `None` if no such job
    /// exists.
    pub fn rerun_at(&mut self, log_dir: &str, id: u32, now: Timestamp) -> (r: Option<u32>)
        requires
            old(self)@.has(id) ==> old(self)@.next_id < u32::MAX,
        ensures
            r == (if old(self)@.has(id) {
                Some(old(self)@.next_id)
            } else {
                None
            }),
            final(self)@ == old(self)@.rerun(log_dir@, id, now),
            // No other job's log file in that directory has the same path.
            r matches Some(fresh) ==> forall|other: u32|
                other != fresh ==> #[trigger] paths::joined_path(log_dir@, queue::log_name(other))
                    != final(self)@.jobs[fresh].log_path,
    {
        match self.get(id) {
            None => None,
            Some(job) => Some(
                self.add_at(
                    log_dir,
                    job.argv,
                    job.label,
                    job.cwd,
                    job.gpus,
                    job.priority,
                    job.env,
                    now,
                ),
            ),
        }
    }

    /// Like `rerun_at`, as of the present time.
    pub fn rerun(&mut self, log_dir: &str, id: u32) -> (r: Option<u32>)
        requires
            old(self)@.has(id) ==> old(self)@.next_id < u32::MAX,
        ensures
            r == (if old(self)@.has(id) {
                Some(old(self)@.next_id)
            } else {
                None
            }),
            exists|now: Timestamp|
                now.is_reading() && final(self)@ == #[trigger] old(self)@.rerun(log_dir@, id, now),
            // No other job's log file in that directory has the same path.
            r matches Some(fresh) ==> forall|other: u32|
                other != fresh ==> #[trigger] paths::joined_path(log_dir@, queue::log_name(other))
                    != final(self)@.jobs[fresh].log_path,
    {
        let now = utc_now();
        self.rerun_at(log_dir, id, now)
    }

    /// All jobs, in increasing order of their ids.
    pub fn list(&self) -> (r: Vec<Job>)
        ensures
            job::job_views(r@) == self@.listing(),
    {
        let ids = self.all_ids();
        let mut out: Vec<Job> = Vec::new();
        for i in 0..ids.len()
            invariant
                queue::lists_in_order(ids@, self@.jobs.dom()),
                out@.len() == i,
                forall|m: int| 0 <= m < i ==> (#[trigger] out@[m])@ == self@.jobs[ids@[m]],
        {
            assert(ids@.contains(ids@[i as int]));
            assert(self@.jobs.dom().contains(ids@[i as int]));
            if let Some(job) = self.jobs.get(&ids[i]) {
                out.push(job.clone());
            }
        }
        assert(job::job_views(out@) =~= self@.listing());
        out
    }

    /// The job with the given id, if there is one.
    pub fn get(&self, id: u32) -> (r: Option<Job>)
        ensures
            match r {
                Some(job) => self@.has(id) && job@ == self@.jobs[id],
                None => !self@.has(id),
            },
    {
        match self.jobs.get(&id) {
            Some(job) => Some(job.clone()),
            None => None,
        }
    }

    /// Record that job `id` ended as of `now` and release its GPUs. A restarted
    /// job goes back into the queue as itself.
    pub fn finish_at(&mut self, id: u32, result: RunResult, now: Timestamp)
        ensures
            final(self)@ == old(self)@.finished(id, result, now),
    {
        if let Some(mut job) = self.jobs.remove(&id) {
            let ghost source = job@;
            job.finished_at = Some(now);
            job.assigned_gpus = Vec::new();
            match result {
                RunResult::Exited(code) => {
                    job.exit_code = code;
                    job.state = JobState::Finished;
                },
                RunResult::Killed => {
                    job.state = JobState::Killed;
                },
                RunResult::SpawnFailed => {
                    job.state = JobState::Failed;
                },
                RunResult::Restarted => {
                    job.state = JobState::Queued;
                    job.exit_code = None;
                    job.started_at = None;
                    job.finished_at = None;
                },
            }
            self.put_back(id, job);
            assert(job@ =~= source.finished(result, now));
            assert(self@.jobs =~= old(self)@.finished(id, result, now).jobs);
        } else {
            assert(self@.jobs =~= old(self)@.jobs);
        }
    }

    /// Insert a job under its id.
    fn put_back(&mut self, id: u32, job: Job)
        ensures
            final(self)@ == old(self)@.with_job(id, job@),
    {
        proof {
            lemma_job_map_insert(self.jobs@, id, job);
        }
        self.jobs.insert(id, job);
    }

    /// Like `finish_at`, as of the present time.
    pub fn finish(&mut self, id: u32, result: RunResult)
        ensures
            exists|now: Timestamp|
                now.is_reading() && final(self)@ == #[trigger] old(self)@.finished(id, result, now),
    {
        let now = utc_now();
        self.finish_at(id, result, now)
    }

    /// Take a job out of the map, for `put_back` to insert again.
    fn take_out(&mut self, id: u32) -> (r: Option<Job>)
        ensures
            match r {
                Some(job) => {
                    &&& old(self)@.has(id)
                    &&& job@ == old(self)@.jobs[id]
                    &&& final(self)@ == (AppStateView {
                        jobs: old(self)@.jobs.remove(id),
                        ..old(self)@
                    })
                },
                None => !old(self)@.has(id) && final(self)@ == old(self)@,
            },
    {
        proof {
            lemma_job_map_remove(self.jobs@, id);
        }
        let r = self.jobs.remove(&id);
        assert(r is None ==> self@.jobs =~= old(self)@.jobs);
        r
    }

    /// Drop job `id` as of `now` if it waits; say what is to be done with it
    /// otherwise. A running job is not touched: the caller signals its kill.
    pub fn request_kill_at(&mut self, id: u32, now: Timestamp) -> (r: KillOutcome)
        ensures
            r == old(self)@.kill_outcome(id),
            final(self)@ == old(self)@.kill_requested(id, now),
    {
        let mut job = match self.take_out(id) {
            None => return KillOutcome::NotFound,
            Some(job) => job,
        };
        let outcome = match job.state {
            JobState::Running => KillOutcome::Running,
            JobState::Queued | JobState::Paused => {
                job.state = JobState::Killed;
                job.finished_at = Some(now);
                KillOutcome::Dequeued
            },
            _ => KillOutcome::AlreadyDone,
        };
        self.put_back(id, job);
        assert(self@.jobs =~= old(self)@.kill_requested(id, now).jobs);
        outcome
    }

    /// Like `request_kill_at`, as of the present time.
    pub fn request_kill(&mut self, id: u32) -> (r: KillOutcome)
        ensures
            r == old(self)@.kill_outcome(id),
            exists|now: Timestamp|
                now.is_reading() && final(self)@ == #[trigger] old(self)@.kill_requested(id, now),
    {
        let now = utc_now();
        self.request_kill_at(id, now)
    }

    /// What a request to restart job `id` comes to. Only a running job can be
    /// restarted; its record changes once its process has ended.
    pub fn request_restart(&self, id: u32) -> (r: RestartOutcome)
        ensures
            r == self@.restart_outcome(id),
    {
        match self.jobs.get(&id) {
            None => RestartOutcome::NotFound,
            Some(job) => if job.state == JobState::Running {
                RestartOutcome::Restarting
            } else {
                RestartOutcome::NotRunning
            },
        }
    }

    /// Change a queued job's priority. Only queued jobs can be re-prioritised; a
    /// running job has already started and a terminal one is done.
    pub fn set_priority(&mut self, id: u32, priority: i32) -> (r: SetPriorityOutcome)
        ensures
            r == old(self)@.priority_outcome(id),
            final(self)@ == old(self)@.prioritised(id, priority),
    {
        let mut job = match self.take_out(id) {
            None => return SetPriorityOutcome::NotFound,
            Some(job) => job,
        };
        let outcome = if job.state == JobState::Queued {
            job.priority = priority;
            SetPriorityOutcome::Updated
        } else {
            SetPriorityOutcome::NotQueued
        };
        self.put_back(id, job);
        assert(self@.jobs =~= old(self)@.prioritised(id, priority).jobs);
        outcome
    }

    /// Set or clear the label of job `id`, whatever its state. Returns whether
    /// there is such a job.
    pub fn set_label(&mut self, id: u32, label: Option<String>) -> (r: bool)
        ensures
            r == old(self)@.has(id),
            final(self)@ == old(self)@.labelled(id, label.deep_view()),
    {
        let mut job = match self.take_out(id) {
            None => return false,
            Some(job) => job,
        };
        job.label = label;
        self.put_back(id, job);
        assert(self@.jobs =~= old(self)@.labelled(id, label.deep_view()).jobs);
        true
    }

    /// Put job `id` into state `to` if it is in state `from`.
    fn shift(&mut self, id: u32, from: JobState, to: JobState) -> (r: PauseOutcome)
        ensures
            r == old(self)@.pause_outcome(id, from),
            final(self)@ == old(self)@.shifted(id, from, to),
    {
        let mut job = match self.take_out(id) {
            None => return PauseOutcome::NotFound,
            Some(job) => job,
        };
        let outcome = if job.state == from {
            job.state = to;
            PauseOutcome::Done
        } else {
            PauseOutcome::WrongState
        };
        self.put_back(id, job);
        assert(self@.jobs =~= old(self)@.shifted(id, from, to).jobs);
        outcome
    }

    /// Pull a queued job out of the queue until it is resumed.
    pub fn pause(&mut self, id: u32) -> (r: PauseOutcome)
        ensures
            r == old(self)@.pause_outcome(id, JobState::Queued),
            final(self)@ == old(self)@.shifted(id, JobState::Queued, JobState::Paused),
    {
        self.shift(id, JobState::Queued, JobState::Paused)
    }

    /// Put a paused job back into the queue.
    pub fn resume(&mut self, id: u32) -> (r: PauseOutcome)
        ensures
            r == old(self)@.pause_outcome(id, JobState::Paused),
            final(self)@ == old(self)@.shifted(id, JobState::Paused, JobState::Queued),
    {
        self.shift(id, JobState::Paused, JobState::Queued)
    }

    /// Put every job that is in state `from` into state `to`, with the time of
    /// its end if there is one. Returns how many there were.
    fn move_all(&mut self, from: JobState, to: JobState, end: Option<Timestamp>) -> (r: usize)
        ensures
            r == old(self)@.ids_in(from).len(),
            final(self)@ == old(self)@.moved(from, to, end),
    {
        let ids = self.all_ids();
        let ghost start = self@;
        let ghost goal = self@.moved(from, to, end);
        let ghost wanted = |k: u32| start.jobs[k].state == from;
        let mut count: usize = 0;
        reveal(Seq::filter);
        assert(ids@.take(0).filter(wanted) == Seq::<u32>::empty());
        for i in 0..ids.len()
            invariant
                queue::lists_in_order(ids@, start.jobs.dom()),
                goal == start.moved(from, to, end),
                wanted == (|k: u32| start.jobs[k].state == from),
                count <= i,
                count == ids@.take(i as int).filter(wanted).len(),
                self@.next_id == start.next_id,
                self@.cpu_limit == start.cpu_limit,
                self@.jobs.dom() == start.jobs.dom(),
                forall|m: int|
                    0 <= m < i ==> self@.jobs[#[trigger] ids@[m]] == goal.jobs[ids@[m]],
                forall|m: int|
                    i <= m < ids@.len() ==> self@.jobs[#[trigger] ids@[m]] == start.jobs[ids@[m]],
        {
            let id = ids[i];
            proof {
                queue::lemma_filter_step(ids@, i as int, wanted);
                assert(ids@.contains(id));
                assert(start.jobs.dom().contains(id));
            }
            let ghost before = self@;
            if let Some(mut job) = self.take_out(id) {
                if job.state == from {
                    job.state = to;
                    if end.is_some() {
                        job.finished_at = end;
                    }
                    count = count + 1;
                }
                self.put_back(id, job);
                assert(self@.jobs.dom() =~= before.jobs.dom());
                assert(job@ =~= start.jobs[id].moved(from, to, end));
            }
        }
        proof {
            assert(ids@.take(ids@.len() as int) == ids@);
            assert forall|k: u32| #[trigger] start.jobs.dom().contains(k) implies self@.jobs[k]
                == goal.jobs[k] by {
                let m = choose|m: int| 0 <= m < ids@.len() && ids@[m] == k;
                assert(self@.jobs[ids@[m]] == goal.jobs[ids@[m]]);
            }
            assert(self@.jobs =~= goal.jobs);
        }
        count
    }

    /// Pause every queued job. Returns how many there were.
    pub fn pause_all(&mut self) -> (r: usize)
        ensures
            r == old(self)@.ids_in(JobState::Queued).len(),
            final(self)@ == old(self)@.moved(JobState::Queued, JobState::Paused, None),
    {
        self.move_all(JobState::Queued, JobState::Paused, None)
    }

    /// Put every paused job back into the queue. Returns how many there were.
    pub fn resume_all(&mut self) -> (r: usize)
        ensures
            r == old(self)@.ids_in(JobState::Paused).len(),
            final(self)@ == old(self)@.moved(JobState::Paused, JobState::Queued, None),
    {
        self.move_all(JobState::Paused, JobState::Queued, None)
    }

    /// Cancel every active job as of `now`: drop all queued jobs (mark them
    /// killed) and report the running ones so the daemon can fire their kill
    /// switches. The running jobs are transitioned to `Killed` by `finish` once
    /// their child actually exits, mirroring single-job `kill`.
    pub fn cancel_all_at(&mut self, now: Timestamp) -> (r: CancelAll)
        ensures
            r.running@ == old(self)@.carried_ids_in(JobState::Running),
            r.dequeued == old(self)@.ids_in(JobState::Queued).len(),
            final(self)@ == old(self)@.cancelled(now),
    {
        let running = self.running_ids();
        let dequeued = self.move_all(JobState::Queued, JobState::Killed, Some(now));
        CancelAll { running, dequeued }
    }

    /// Like `cancel_all_at`, as of the present time.
    pub fn cancel_all(&mut self) -> (r: CancelAll)
        ensures
            r.running@ == old(self)@.carried_ids_in(JobState::Running),
            r.dequeued == old(self)@.ids_in(JobState::Queued).len(),
            exists|now: Timestamp|
                now.is_reading() && final(self)@ == #[trigger] old(self)@.cancelled(now),
    {
        let now = utc_now();
        self.cancel_all_at(now)
    }

    /// The ids that the running jobs carry, in the order in which they are found.
    fn running_ids(&self) -> (r: Vec<u32>)
        ensures
            r@ == self@.carried_ids_in(JobState::Running),
    {
        let ids = self.all_ids();
        let ghost wanted = |k: u32| self@.jobs[k].state == JobState::Running;
        let ghost carried = |k: u32| self@.jobs[k].id;
        let mut out: Vec<u32> = Vec::new();
        reveal(Seq::filter);
        assert(ids@.take(0).filter(wanted) == Seq::<u32>::empty());
        assert(out@ =~= ids@.take(0).filter(wanted).map_values(carried));
        for i in 0..ids.len()
            invariant
                queue::lists_in_order(ids@, self@.jobs.dom()),
                wanted == (|k: u32| self@.jobs[k].state == JobState::Running),
                carried == (|k: u32| self@.jobs[k].id),
                out@ == ids@.take(i as int).filter(wanted).map_values(carried),
        {
            let id = ids[i];
            let ghost passed = ids@.take(i as int).filter(wanted);
            proof {
                queue::lemma_filter_step(ids@, i as int, wanted);
                assert(ids@.contains(id));
                assert(self@.jobs.dom().contains(id));
            }
            if let Some(job) = self.jobs.get(&id) {
                if job.state == JobState::Running {
                    out.push(job.id);
                    assert(out@ =~= passed.push(id).map_values(carried));
                }
            }
        }
        assert(ids@.take(ids@.len() as int) == ids@);
        out
    }

    /// Remove a job that is not running.
    pub fn remove(&mut self, id: u32) -> (r: RemoveOutcome)
        ensures
            r == old(self)@.remove_outcome(id),
            final(self)@ == old(self)@.removed(id),
    {
        match self.jobs.get(&id) {
            None => RemoveOutcome::NotFound,
            Some(job) => if job.state == JobState::Running {
                RemoveOutcome::Running
            } else {
                let _ = self.take_out(id);
                RemoveOutcome::Removed
            },
        }
    }

    /// Remove all jobs in a terminal state. Returns how many were removed.
    pub fn clear_finished(&mut self) -> (r: usize)
        ensures
            r == old(self)@.terminal_ids().len(),
            final(self)@ == old(self)@.cleared(),
    {
        let ids = self.all_ids();
        let ghost start = self@;
        let ghost over = |k: u32| start.jobs[k].state.terminal();
        let mut count: usize = 0;
        reveal(Seq::filter);
        assert(ids@.take(0).filter(over) == Seq::<u32>::empty());
        for i in 0..ids.len()
            invariant
                queue::lists_in_order(ids@, start.jobs.dom()),
                over == (|k: u32| start.jobs[k].state.terminal()),
                count <= i,
                count == ids@.take(i as int).filter(over).len(),
                self@.next_id == start.next_id,
                self@.cpu_limit == start.cpu_limit,
                forall|k: u32| #[trigger]
                    self@.has(k) ==> start.has(k) && self@.jobs[k] == start.jobs[k],
                forall|m: int|
                    0 <= m < i ==> self@.has(#[trigger] ids@[m]) == !over(ids@[m]),
                forall|m: int| i <= m < ids@.len() ==> self@.has(#[trigger] ids@[m]),
        {
            let id = ids[i];
            proof {
                queue::lemma_filter_step(ids@, i as int, over);
                assert(self@.has(ids@[i as int]));
            }
            let terminal = match self.jobs.get(&id) {
                Some(job) => job.state.is_terminal(),
                None => false,
            };
            assert(terminal == over(id));
            let ghost before = self@;
            if terminal {
                let _ = self.take_out(id);
                count = count + 1;
            }
            assert forall|k: u32| #[trigger] self@.has(k) implies start.has(k) && self@.jobs[k]
                == start.jobs[k] by {
                assert(before.has(k));
            }
            assert forall|m: int| 0 <= m < i + 1 implies self@.has(#[trigger] ids@[m]) == !over(
                ids@[m],
            ) by {
                if m < i {
                    assert(ids@[m] < ids@[i as int]);
                    assert(before.has(ids@[m]) == !over(ids@[m]));
                }
            }
        }
        proof {
            assert(ids@.take(ids@.len() as int) == ids@);
            assert forall|k: u32|
                self@.has(k) == #[trigger] start.cleared().jobs.contains_key(k) && (self@.has(k)
                    ==> self@.jobs[k] == start.jobs[k]) by {
                if start.has(k) {
                    assert(start.jobs.dom().contains(k));
                    let m = choose|m: int| 0 <= m < ids@.len() && ids@[m] == k;
                    assert(self@.has(ids@[m]) == !over(ids@[m]));
                }
            }
            assert(self@.jobs.dom() =~= start.cleared().jobs.dom());
            assert(self@.jobs =~= start.cleared().jobs);
        }
        count
    }

    /// What has to be kept so that the queue can be loaded again.
    pub fn save(&self) -> (r: StoredState)
        ensures
            r@ == self@.stored(),
    {
        let ids = self.all_ids();
        let mut jobs: Vec<(u32, Job)> = Vec::new();
        for i in 0..ids.len()
            invariant
                queue::lists_in_order(ids@, self@.jobs.dom()),
                jobs@.len() == i,
                forall|m: int|
                    0 <= m < i ==> (#[trigger] jobs@[m]).0 == ids@[m] && jobs@[m].1@
                        == self@.jobs[ids@[m]],
        {
            assert(ids@.contains(ids@[i as int]));
            assert(self@.jobs.dom().contains(ids@[i as int]));
            if let Some(job) = self.jobs.get(&ids[i]) {
                jobs.push((ids[i], job.clone()));
            }
        }
        let r = StoredState { next_id: self.next_id, jobs, cpu_limit: self.cpu_limit };
        assert(r@.jobs =~= self@.stored().jobs);
        r
    }

    /// Take up stored state (`None` when nothing was stored) as of `now`,
    /// reconciling any jobs that were mid-run when the daemon last stopped
    /// (their child processes are gone, so mark them failed).
    pub fn load_at(stored: Option<StoredState>, now: Timestamp) -> (s: AppState)
        ensures
            s@ == queue::loaded(stored_view(stored), now),
    {
        let mut state = AppState::default();
        if let Some(stored) = stored {
            state.next_id = stored.next_id;
            state.cpu_limit = stored.cpu_limit;
            let ghost entries = stored@.jobs;
            for i in 0..stored.jobs.len()
                invariant
                    entries == stored@.jobs,
                    state@.next_id == stored.next_id,
                    state@.cpu_limit == stored.cpu_limit,
                    state@.jobs == queue::entry_map(entries.take(i as int)),
            {
                state.put_back(stored.jobs[i].0, stored.jobs[i].1.clone());
                assert(entries.take(i + 1).drop_last() == entries.take(i as int));
            }
            assert(entries.take(entries.len() as int) == entries);
        }
        let _ = state.move_all(JobState::Running, JobState::Failed, Some(now));
        state
    }

    /// Like `load_at`, as of the present time.
    pub fn load(stored: Option<StoredState>) -> (s: AppState)
        ensures
            exists|now: Timestamp|
                now.is_reading() && s@ == #[trigger] queue::loaded(stored_view(stored), now),
    {
        let now = utc_now();
        AppState::load_at(stored, now)
    }
}

} // verus!
