//! What holds of the queue as a whole: which properties every step keeps, and
//! how the steps relate to each other.
use vstd::prelude::*;

use super::client;
use super::job::{JobState, JobView};
use super::queue;
use super::queue::AppStateView;
use super::scheduler::RunResult;
use crate::clock::Timestamp;

verus! {

// ---------------------------------------------------------------------------
// Steps
// ---------------------------------------------------------------------------

/// One change of the queue.
pub enum QueueStep {
    Add {
        log_dir: Seq<char>,
        argv: Seq<Seq<char>>,
        label: Option<Seq<char>>,
        cwd: Seq<char>,
        gpus: u32,
        priority: i32,
        env: Seq<(Seq<char>, Seq<char>)>,
        now: Timestamp,
    },
    Rerun { log_dir: Seq<char>, id: u32, now: Timestamp },
    Start { id: u32, now: Timestamp },
    Finish { id: u32, result: RunResult, now: Timestamp },
    Kill { id: u32, now: Timestamp },
    SetPriority { id: u32, priority: i32 },
    SetLabel { id: u32, label: Option<Seq<char>> },
    Pause { id: u32 },
    Resume { id: u32 },
    PauseAll,
    ResumeAll,
    CancelAll { now: Timestamp },
    Remove { id: u32 },
    Clear,
    SetCpuLimit { limit: Option<u32> },
    /// The queue is saved, and loaded again by another daemon.
    Reload { now: Timestamp },
}

impl QueueStep {
    /// Whether the step can be taken: a job is added while there are ids, and
    /// started when its turn has come.
    pub open spec fn enabled(self, s: AppStateView, gpu_total: u32) -> bool {
        match self {
            QueueStep::Add { .. } => s.next_id < u32::MAX,
            QueueStep::Rerun { .. } => s.next_id < u32::MAX,
            QueueStep::Start { id, .. } => s.starts_next(gpu_total, id) && s.has(id),
            _ => true,
        }
    }

    /// The time that the step records, if it records one.
    pub open spec fn time(self) -> Option<Timestamp> {
        match self {
            QueueStep::Add { now, .. } => Some(now),
            QueueStep::Rerun { now, .. } => Some(now),
            QueueStep::Start { now, .. } => Some(now),
            QueueStep::Finish { now, .. } => Some(now),
            QueueStep::Kill { now, .. } => Some(now),
            QueueStep::CancelAll { now } => Some(now),
            QueueStep::Reload { now } => Some(now),
            _ => None,
        }
    }

    /// The queue after the step.
    pub open spec fn after(self, s: AppStateView, gpu_total: u32) -> AppStateView {
        match self {
            QueueStep::Add { log_dir, argv, label, cwd, gpus, priority, env, now } => s.added(
                log_dir,
                argv,
                label,
                cwd,
                gpus,
                priority,
                env,
                now,
            ),
            QueueStep::Rerun { log_dir, id, now } => s.rerun(log_dir, id, now),
            QueueStep::Start { id, now } => s.started(gpu_total, id, now),
            QueueStep::Finish { id, result, now } => s.finished(id, result, now),
            QueueStep::Kill { id, now } => s.kill_requested(id, now),
            QueueStep::SetPriority { id, priority } => s.prioritised(id, priority),
            QueueStep::SetLabel { id, label } => s.labelled(id, label),
            QueueStep::Pause { id } => s.shifted(id, JobState::Queued, JobState::Paused),
            QueueStep::Resume { id } => s.shifted(id, JobState::Paused, JobState::Queued),
            QueueStep::PauseAll => s.moved(JobState::Queued, JobState::Paused, None),
            QueueStep::ResumeAll => s.moved(JobState::Paused, JobState::Queued, None),
            QueueStep::CancelAll { now } => s.cancelled(now),
            QueueStep::Remove { id } => s.removed(id),
            QueueStep::Clear => s.cleared(),
            QueueStep::SetCpuLimit { limit } => AppStateView { cpu_limit: limit, ..s },
            QueueStep::Reload { now } => queue::loaded(Some(s.stored()), now),
        }
    }
}

/// Whether each of the steps can be taken, one after the other.
pub open spec fn history_enabled(
    s: AppStateView,
    steps: Seq<QueueStep>,
    gpu_total: u32,
) -> bool
    decreases steps.len(),
{
    steps.len() > 0 ==> {
        &&& history_enabled(s, steps.drop_last(), gpu_total)
        &&& steps.last().enabled(history_end(s, steps.drop_last(), gpu_total), gpu_total)
    }
}

/// The queue after all of the steps.
pub open spec fn history_end(
    s: AppStateView,
    steps: Seq<QueueStep>,
    gpu_total: u32,
) -> AppStateView
    decreases steps.len(),
{
    if steps.len() == 0 {
        s
    } else {
        steps.last().after(history_end(s, steps.drop_last(), gpu_total), gpu_total)
    }
}

// ---------------------------------------------------------------------------
// Invariants
// ---------------------------------------------------------------------------

/// There are finitely many jobs, and each job is found under its own id.
pub open spec fn found_by_id(s: AppStateView) -> bool {
    &&& s.jobs.dom().finite()
    &&& forall|k: u32| #[trigger] s.has(k) ==> s.jobs[k].id == k
}

/// There are finitely many jobs, each job is found under its own id, and every
/// id in use was handed out before.
pub open spec fn well_formed(s: AppStateView) -> bool {
    &&& s.jobs.dom().finite()
    &&& forall|k: u32| #[trigger] s.has(k) ==> s.jobs[k].id == k && k < s.next_id
}

/// The GPU indices of a job are no more than it asked for, in increasing order,
/// and belong to the pool.
pub open spec fn reservation_sound(job: JobView, gpu_total: u32) -> bool {
    &&& job.assigned_gpus.len() <= job.gpus
    &&& forall|i: int, j: int|
        0 <= i < j < job.assigned_gpus.len() ==> job.assigned_gpus[i] < job.assigned_gpus[j]
    &&& forall|i: int|
        0 <= i < job.assigned_gpus.len() ==> #[trigger] job.assigned_gpus[i] < gpu_total
}

/// Every running job holds GPUs of the pool, no more than it asked for, and no
/// GPU is held by two jobs.
pub open spec fn gpus_sound(s: AppStateView, gpu_total: u32) -> bool {
    &&& forall|k: u32| #[trigger]
        s.in_state(k, JobState::Running) ==> reservation_sound(s.jobs[k], gpu_total)
    &&& forall|a: u32, b: u32, x: u32| #[trigger]
        s.holds(a, x) && #[trigger] s.holds(b, x) ==> a == b
}

/// Every running job holds as many GPUs as it asked for.
pub open spec fn fully_reserved(s: AppStateView) -> bool {
    forall|k: u32| #[trigger]
        s.in_state(k, JobState::Running) ==> s.jobs[k].assigned_gpus.len() == s.jobs[k].gpus
}

/// Every time that a job records can be shown.
pub open spec fn times_sound(s: AppStateView) -> bool {
    forall|k: u32| #[trigger] s.has(k) ==> client::times_displayable(s.jobs[k])
}

/// No more CPU jobs run than the limit allows.
pub open spec fn within_cpu_limit(s: AppStateView) -> bool {
    s.cpu_limit is Some ==> s.running_cpu_count() <= s.cpu_limit->0
}

// ---------------------------------------------------------------------------
// Listings
// ---------------------------------------------------------------------------

proof fn lemma_has_maximum(dom: Set<u32>) -> (m: u32)
    requires
        dom.finite(),
        dom.len() > 0,
    ensures
        dom.contains(m),
        forall|k: u32| dom.contains(k) ==> k <= m,
    decreases dom.len(),
{
    let c = dom.choose();
    let rest = dom.remove(c);
    if rest.len() == 0 {
        assert forall|k: u32| dom.contains(k) implies k <= c by {
            if k != c {
                assert(rest.contains(k));
                assert(rest =~= Set::<u32>::empty());
            }
        }
        c
    } else {
        let m = lemma_has_maximum(rest);
        let top = if c <= m {
            m
        } else {
            c
        };
        assert forall|k: u32| dom.contains(k) implies k <= top by {
            if k != c {
                assert(rest.contains(k));
            }
        }
        top
    }
}

/// Every finite set of ids has a listing in order.
pub proof fn lemma_listing_exists(dom: Set<u32>) -> (keys: Seq<u32>)
    requires
        dom.finite(),
    ensures
        queue::lists_in_order(keys, dom),
    decreases dom.len(),
{
    if dom.len() == 0 {
        assert(dom =~= Set::<u32>::empty());
        Seq::empty()
    } else {
        let m = lemma_has_maximum(dom);
        let rest = lemma_listing_exists(dom.remove(m));
        let keys = rest.push(m);
        assert forall|k: u32| #[trigger] dom.contains(k) <==> keys.contains(k) by {
            if dom.contains(k) {
                if k == m {
                    assert(keys[rest.len() as int] == m);
                } else {
                    assert(dom.remove(m).contains(k));
                    let i = choose|i: int| 0 <= i < rest.len() && rest[i] == k;
                    assert(keys[i] == k);
                }
            }
            if keys.contains(k) {
                let i = choose|i: int| 0 <= i < keys.len() && keys[i] == k;
                if i < rest.len() {
                    assert(rest.contains(rest[i]));
                    assert(dom.remove(m).contains(rest[i]));
                }
            }
        }
        assert forall|i: int, j: int| 0 <= i < j < keys.len() implies keys[i] < keys[j] by {
            assert(rest.contains(rest[i]));
            assert(dom.remove(m).contains(rest[i]));
        }
        keys
    }
}

/// The ids of a queue are listed in increasing order, each once.
pub proof fn law_ids_list_every_job_once(s: AppStateView)
    requires
        s.jobs.dom().finite(),
    ensures
        queue::lists_in_order(s.ids(), s.jobs.dom()),
{
    let keys = lemma_listing_exists(s.jobs.dom());
    assert(queue::lists_in_order(keys, s.jobs.dom()));
}

// ---------------------------------------------------------------------------
// What every step keeps
// ---------------------------------------------------------------------------

/// A reload keeps every job under its id, and the ids go on where they were.
proof fn lemma_reload(s: AppStateView, now: Timestamp)
    requires
        s.jobs.dom().finite(),
    ensures
        queue::loaded(Some(s.stored()), now) == s.moved(
            JobState::Running,
            JobState::Failed,
            Some(now),
        ),
        queue::loaded(Some(s.stored()), now).next_id == s.next_id,
        queue::loaded(Some(s.stored()), now).jobs.dom() == s.jobs.dom(),
{
    law_load_gives_back_what_was_saved(s, now);
    assert(s.moved(JobState::Running, JobState::Failed, Some(now)).jobs.dom() =~= s.jobs.dom());
}

/// What is taken up from stored state is well formed where each stored job carries
/// the id that it is stored under, and the ids in use were handed out before. An
/// empty queue is well formed.
pub proof fn law_loaded_queues_are_well_formed(
    stored: Option<queue::StoredView>,
    now: Timestamp,
)
    requires
        stored is Some ==> forall|i: int|
            0 <= i < stored->0.jobs.len() ==> (#[trigger] stored->0.jobs[i]).0
                == stored->0.jobs[i].1.id && stored->0.jobs[i].0 < stored->0.next_id,
    ensures
        well_formed(queue::loaded(stored, now)),
        stored is Some ==> queue::loaded(stored, now).next_id == stored->0.next_id,
{
    let t = queue::loaded(stored, now);
    match stored {
        None => {
            assert(t.jobs.dom() =~= Set::<u32>::empty());
        },
        Some(stored) => {
            lemma_entries(stored.jobs);
            assert(t.jobs.dom() =~= queue::entry_map(stored.jobs).dom());
            assert forall|k: u32| #[trigger] t.has(k) implies t.jobs[k].id == k && k
                < t.next_id by {
                assert(queue::entry_map(stored.jobs).contains_key(k));
            }
        },
    }
}

/// A list of entries writes finitely many, each of them one of the list.
pub(super) proof fn lemma_entries(entries: Seq<(u32, JobView)>)
    ensures
        queue::entry_map(entries).dom().finite(),
        forall|k: u32| #[trigger]
            queue::entry_map(entries).contains_key(k) ==> exists|i: int|
                0 <= i < entries.len() && #[trigger] entries[i] == (
                    k,
                    queue::entry_map(entries)[k],
                ),
    decreases entries.len(),
{
    if entries.len() > 0 {
        let init = entries.drop_last();
        let map = queue::entry_map(entries);
        lemma_entries(init);
        assert forall|k: u32| #[trigger] map.contains_key(k) implies exists|i: int|
            0 <= i < entries.len() && #[trigger] entries[i] == (k, map[k]) by {
            if k == entries.last().0 {
                assert(entries[entries.len() - 1] == (k, map[k]));
            } else {
                assert(queue::entry_map(init).contains_key(k));
                let i = choose|i: int|
                    0 <= i < init.len() && #[trigger] init[i] == (k, queue::entry_map(init)[k]);
                assert(entries[i] == (k, map[k]));
            }
        }
    }
}

/// Saving a well-formed queue and loading it again keeps it well formed, and the
/// next job gets the id that it would have got without that.
pub proof fn law_reload_keeps_well_formed(s: AppStateView, now: Timestamp)
    requires
        well_formed(s),
    ensures
        well_formed(queue::loaded(Some(s.stored()), now)),
        queue::loaded(Some(s.stored()), now).next_id == s.next_id,
{
    lemma_reload(s, now);
    let t = queue::loaded(Some(s.stored()), now);
    assert forall|k: u32| #[trigger] t.has(k) implies t.jobs[k].id == k && k < t.next_id by {
        assert(s.has(k));
    }
}

/// Every step keeps the queue well formed, and ids only ever go up.
pub proof fn law_steps_keep_well_formed(s: AppStateView, step: QueueStep, gpu_total: u32)
    requires
        well_formed(s),
        step.enabled(s, gpu_total),
    ensures
        well_formed(step.after(s, gpu_total)),
        s.next_id <= step.after(s, gpu_total).next_id,
{
    let t = step.after(s, gpu_total);
    if let QueueStep::Reload { now } = step {
        lemma_reload(s, now);
    }
    assert forall|k: u32| #[trigger] t.has(k) implies t.jobs[k].id == k && k < t.next_id by {
        assert(s.has(k) || k == s.next_id);
        if s.has(k) {
            assert(s.jobs[k].id == k && k < s.next_id);
        }
    }
    match step {
        QueueStep::Clear => {
            assert(t.jobs.dom().subset_of(s.jobs.dom()));
            vstd::set_lib::lemma_set_subset_finite(s.jobs.dom(), t.jobs.dom());
        },
        QueueStep::PauseAll | QueueStep::ResumeAll | QueueStep::CancelAll { .. } => {
            assert(t.jobs.dom() =~= s.jobs.dom());
        },
        _ => {},
    }
}

/// A new job gets an id that no job in the queue has, and after it was added
/// no later job gets that id again, also where the queue is saved and loaded again
/// in between.
pub proof fn law_ids_are_never_reused(
    s: AppStateView,
    step: QueueStep,
    later: Seq<QueueStep>,
    gpu_total: u32,
)
    requires
        well_formed(s),
        step is Add || (step is Rerun && s.has(step->Rerun_id)),
        step.enabled(s, gpu_total),
        history_enabled(step.after(s, gpu_total), later, gpu_total),
    ensures
        !s.has(s.next_id),
        step.after(s, gpu_total).has(s.next_id),
        s.next_id < history_end(step.after(s, gpu_total), later, gpu_total).next_id,
{
    law_steps_keep_well_formed(s, step, gpu_total);
    law_histories_keep_well_formed(step.after(s, gpu_total), later, gpu_total);
}

/// Any number of steps keeps the queue well formed, and ids only ever go up.
pub proof fn law_histories_keep_well_formed(
    s: AppStateView,
    steps: Seq<QueueStep>,
    gpu_total: u32,
)
    requires
        well_formed(s),
        history_enabled(s, steps, gpu_total),
    ensures
        well_formed(history_end(s, steps, gpu_total)),
        s.next_id <= history_end(s, steps, gpu_total).next_id,
    decreases steps.len(),
{
    if steps.len() > 0 {
        law_histories_keep_well_formed(s, steps.drop_last(), gpu_total);
        law_steps_keep_well_formed(
            history_end(s, steps.drop_last(), gpu_total),
            steps.last(),
            gpu_total,
        );
    }
}

/// `t` runs no job that `s` does not run in the same way.
spec fn runs_no_more(t: AppStateView, s: AppStateView) -> bool {
    forall|k: u32| #[trigger]
        t.in_state(k, JobState::Running) ==> {
            &&& s.in_state(k, JobState::Running)
            &&& t.jobs[k].gpus == s.jobs[k].gpus
            &&& t.jobs[k].assigned_gpus == s.jobs[k].assigned_gpus
        }
}

proof fn lemma_running_fewer_is_sound(t: AppStateView, s: AppStateView, gpu_total: u32)
    requires
        runs_no_more(t, s),
        gpus_sound(s, gpu_total),
    ensures
        gpus_sound(t, gpu_total),
{
    assert forall|a: u32, b: u32, x: u32| #[trigger] t.holds(a, x) && #[trigger] t.holds(
        b,
        x,
    ) implies a == b by {
        assert(t.in_state(a, JobState::Running));
        assert(t.in_state(b, JobState::Running));
        assert(s.holds(a, x));
        assert(s.holds(b, x));
    }
}

/// The steps other than a start run nothing new.
proof fn lemma_only_start_runs(s: AppStateView, step: QueueStep, gpu_total: u32)
    requires
        !(step is Start),
    ensures
        runs_no_more(step.after(s, gpu_total), s),
{
    let t = step.after(s, gpu_total);
    assert forall|k: u32| #[trigger] t.in_state(k, JobState::Running) implies {
        &&& s.in_state(k, JobState::Running)
        &&& t.jobs[k].gpus == s.jobs[k].gpus
        &&& t.jobs[k].assigned_gpus == s.jobs[k].assigned_gpus
    } by {
    }
}

/// The free GPUs are the indices of the pool that no running job holds, each
/// once, in increasing order.
pub proof fn law_free_gpus_are_those_not_held(s: AppStateView, gpu_total: u32)
    ensures
        forall|i: int, j: int|
            0 <= i < j < s.free_gpus(gpu_total).len() ==> s.free_gpus(gpu_total)[i] < s.free_gpus(
                gpu_total,
            )[j],
        forall|x: u32|
            s.free_gpus(gpu_total).contains(x) <==> x < gpu_total && !s.held(x),
{
    let pool = Seq::new(gpu_total as nat, |i: int| i as u32);
    let p = |i: u32| !s.held(i);
    lemma_increasing_filter(pool, p);
    assert forall|x: u32| s.free_gpus(gpu_total).contains(x) <==> x < gpu_total && !s.held(x) by {
        if x < gpu_total && !s.held(x) {
            assert(pool[x as int] == x);
        }
    }
}

/// Filtering an increasing sequence leaves an increasing sequence with the
/// members that pass.
pub(super) proof fn lemma_increasing_filter(s: Seq<u32>, p: spec_fn(u32) -> bool)
    requires
        forall|i: int, j: int| 0 <= i < j < s.len() ==> s[i] < s[j],
    ensures
        forall|i: int, j: int|
            0 <= i < j < s.filter(p).len() ==> s.filter(p)[i] < s.filter(p)[j],
        forall|x: u32| #[trigger] s.filter(p).contains(x) <==> s.contains(x) && p(x),
    decreases s.len(),
{
    reveal(Seq::filter);
    if s.len() > 0 {
        let init = s.drop_last();
        lemma_increasing_filter(init, p);
        let f = init.filter(p);
        assert forall|x: u32| #[trigger] s.filter(p).contains(x) <==> s.contains(x) && p(x) by {
            if s.filter(p).contains(x) {
                let i = choose|i: int| 0 <= i < s.filter(p).len() && s.filter(p)[i] == x;
                if i < f.len() {
                    assert(f.contains(f[i]));
                    let m = choose|m: int| 0 <= m < init.len() && init[m] == f[i];
                    assert(s[m] == x);
                } else {
                    assert(s[s.len() - 1] == x);
                }
            }
            if s.contains(x) && p(x) {
                let i = choose|i: int| 0 <= i < s.len() && s[i] == x;
                if i < s.len() - 1 {
                    assert(init[i] == x);
                    assert(f.contains(x));
                    let m = choose|m: int| 0 <= m < f.len() && f[m] == x;
                    assert(s.filter(p)[m] == x);
                } else {
                    assert(s.filter(p)[f.len() as int] == x);
                }
            }
        }
        assert forall|i: int, j: int| 0 <= i < j < s.filter(p).len() implies s.filter(p)[i]
            < s.filter(p)[j] by {
            if j == f.len() {
                assert(f.contains(f[i]));
                let m = choose|m: int| 0 <= m < init.len() && init[m] == f[i];
                assert(s[m] < s[s.len() - 1]);
            }
        }
    }
}

/// Every step keeps the reservations sound: a running job holds no more GPUs than
/// it asked for, all of the pool, and no two jobs share one.
pub proof fn law_steps_keep_gpus_sound(s: AppStateView, step: QueueStep, gpu_total: u32)
    requires
        gpus_sound(s, gpu_total),
        step.enabled(s, gpu_total),
    ensures
        gpus_sound(step.after(s, gpu_total), gpu_total),
{
    let t = step.after(s, gpu_total);
    match step {
        QueueStep::Start { id, now } => {
            law_free_gpus_are_those_not_held(s, gpu_total);
            let free = s.free_gpus(gpu_total);
            let taken = t.jobs[id].assigned_gpus;
            assert(taken == s.lowest_free(gpu_total, s.jobs[id].gpus));
            assert forall|i: int| 0 <= i < taken.len() implies #[trigger] taken[i] < gpu_total by {
                assert(free.contains(free[i]));
            }
            assert forall|a: u32, b: u32, x: u32| #[trigger] t.holds(a, x) && #[trigger] t.holds(
                b,
                x,
            ) implies a == b by {
                if taken.contains(x) {
                    let i = choose|i: int| 0 <= i < taken.len() && taken[i] == x;
                    assert(free.contains(free[i]));
                    assert(!s.held(x));
                }
                if a != id {
                    assert(s.holds(a, x));
                }
                if b != id {
                    assert(s.holds(b, x));
                }
            }
            assert forall|k: u32| #[trigger]
                t.in_state(k, JobState::Running) implies reservation_sound(
                t.jobs[k],
                gpu_total,
            ) by {
                if k != id {
                    assert(s.in_state(k, JobState::Running));
                }
            }
        },
        _ => {
            lemma_only_start_runs(s, step, gpu_total);
            lemma_running_fewer_is_sound(t, s, gpu_total);
        },
    }
}

/// Any number of steps keeps the reservations sound.
pub proof fn law_histories_keep_gpus_sound(
    s: AppStateView,
    steps: Seq<QueueStep>,
    gpu_total: u32,
)
    requires
        gpus_sound(s, gpu_total),
        history_enabled(s, steps, gpu_total),
    ensures
        gpus_sound(history_end(s, steps, gpu_total), gpu_total),
    decreases steps.len(),
{
    if steps.len() > 0 {
        law_histories_keep_gpus_sound(s, steps.drop_last(), gpu_total);
        law_steps_keep_gpus_sound(
            history_end(s, steps.drop_last(), gpu_total),
            steps.last(),
            gpu_total,
        );
    }
}

/// Where each job is found under its own id, every step keeps it so, and every job
/// that runs holds exactly as many GPUs as it asked for.
pub proof fn law_steps_keep_reservations_full(s: AppStateView, step: QueueStep, gpu_total: u32)
    requires
        found_by_id(s),
        fully_reserved(s),
        step.enabled(s, gpu_total),
    ensures
        found_by_id(step.after(s, gpu_total)),
        fully_reserved(step.after(s, gpu_total)),
{
    let t = step.after(s, gpu_total);
    match step {
        QueueStep::Start { id, .. } => {
            law_next_job_is_found_by_its_id(s, gpu_total, id);
            assert(s.fits(gpu_total, id));
            assert forall|k: u32| #[trigger] t.in_state(k, JobState::Running) implies
                t.jobs[k].assigned_gpus.len() == t.jobs[k].gpus by {
                if k != id {
                    assert(s.in_state(k, JobState::Running));
                }
            }
        },
        _ => {
            lemma_only_start_runs(s, step, gpu_total);
        },
    }
    match step {
        QueueStep::Reload { now } => {
            lemma_reload(s, now);
        },
        QueueStep::Clear => {
            assert(t.jobs.dom().subset_of(s.jobs.dom()));
            vstd::set_lib::lemma_set_subset_finite(s.jobs.dom(), t.jobs.dom());
        },
        QueueStep::PauseAll | QueueStep::ResumeAll | QueueStep::CancelAll { .. } => {
            assert(t.jobs.dom() =~= s.jobs.dom());
        },
        _ => {},
    }
    assert forall|k: u32| #[trigger] t.has(k) implies t.jobs[k].id == k by {
        assert(s.has(k) || k == s.next_id);
    }
}

/// Where each job is found under its own id, any number of steps keeps it so, and
/// every job that runs holds exactly as many GPUs as it asked for.
pub proof fn law_histories_keep_reservations_full(
    s: AppStateView,
    steps: Seq<QueueStep>,
    gpu_total: u32,
)
    requires
        found_by_id(s),
        fully_reserved(s),
        history_enabled(s, steps, gpu_total),
    ensures
        found_by_id(history_end(s, steps, gpu_total)),
        fully_reserved(history_end(s, steps, gpu_total)),
    decreases steps.len(),
{
    if steps.len() > 0 {
        law_histories_keep_reservations_full(s, steps.drop_last(), gpu_total);
        law_steps_keep_reservations_full(
            history_end(s, steps.drop_last(), gpu_total),
            steps.last(),
            gpu_total,
        );
    }
}

/// Whatever happens to a queue after it was loaded, the reservations stay
/// sound. Where each stored job carries the id that it is stored under, every job
/// that runs holds exactly as many GPUs as it asked for.
pub proof fn law_gpus_are_never_shared(
    stored: Option<queue::StoredView>,
    now: Timestamp,
    steps: Seq<QueueStep>,
    gpu_total: u32,
)
    requires
        history_enabled(queue::loaded(stored, now), steps, gpu_total),
    ensures
        gpus_sound(history_end(queue::loaded(stored, now), steps, gpu_total), gpu_total),
        found_by_id(queue::loaded(stored, now)) ==> fully_reserved(
            history_end(queue::loaded(stored, now), steps, gpu_total),
        ),
{
    let s = queue::loaded(stored, now);
    assert forall|k: u32| !#[trigger] s.in_state(k, JobState::Running) by {}
    assert forall|k: u32, x: u32| !#[trigger] s.holds(k, x) by {
        assert(!s.in_state(k, JobState::Running));
    }
    law_histories_keep_gpus_sound(s, steps, gpu_total);
    if found_by_id(s) {
        law_histories_keep_reservations_full(s, steps, gpu_total);
    }
}

// ---------------------------------------------------------------------------
// Capacity
// ---------------------------------------------------------------------------

/// How many GPUs the running ones of the listed jobs asked for, all together.
pub open spec fn gpus_in_use(s: AppStateView, ids: Seq<u32>) -> nat
    decreases ids.len(),
{
    if ids.len() == 0 {
        0
    } else {
        let rest = gpus_in_use(s, ids.drop_last());
        if s.in_state(ids.last(), JobState::Running) {
            rest + s.jobs[ids.last()].gpus as nat
        } else {
            rest
        }
    }
}

/// The GPU indices that the running ones of the listed jobs hold.
spec fn indices_in_use(s: AppStateView, ids: Seq<u32>) -> Seq<u32>
    decreases ids.len(),
{
    if ids.len() == 0 {
        Seq::empty()
    } else {
        let rest = indices_in_use(s, ids.drop_last());
        if s.in_state(ids.last(), JobState::Running) {
            rest + s.jobs[ids.last()].assigned_gpus
        } else {
            rest
        }
    }
}

proof fn lemma_indices_in_use(s: AppStateView, ids: Seq<u32>, gpu_total: u32)
    requires
        gpus_sound(s, gpu_total),
        fully_reserved(s),
        ids.no_duplicates(),
    ensures
        indices_in_use(s, ids).len() == gpus_in_use(s, ids),
        indices_in_use(s, ids).no_duplicates(),
        forall|i: int|
            0 <= i < indices_in_use(s, ids).len() ==> {
                &&& (#[trigger] indices_in_use(s, ids)[i]) < gpu_total
                &&& exists|k: u32|
                    ids.contains(k) && #[trigger] s.holds(k, indices_in_use(s, ids)[i])
            },
    decreases ids.len(),
{
    if ids.len() > 0 {
        let init = ids.drop_last();
        let last = ids.last();
        lemma_indices_in_use(s, init, gpu_total);
        let rest = indices_in_use(s, init);
        let all = indices_in_use(s, ids);
        assert(forall|k: u32| init.contains(k) ==> ids.contains(k)) by {
            assert forall|k: u32| init.contains(k) implies ids.contains(k) by {
                let i = choose|i: int| 0 <= i < init.len() && init[i] == k;
                assert(ids[i] == k);
            }
        }
        if s.in_state(last, JobState::Running) {
            let mine = s.jobs[last].assigned_gpus;
            assert(reservation_sound(s.jobs[last], gpu_total));
            assert forall|i: int| 0 <= i < all.len() implies {
                &&& (#[trigger] all[i]) < gpu_total
                &&& exists|k: u32| ids.contains(k) && #[trigger] s.holds(k, all[i])
            } by {
                if i < rest.len() {
                    let k = choose|k: u32| init.contains(k) && #[trigger] s.holds(k, rest[i]);
                    assert(ids.contains(k) && s.holds(k, all[i]));
                } else {
                    assert(mine.contains(mine[i - rest.len()]));
                    assert(ids[ids.len() - 1] == last);
                    assert(ids.contains(last) && s.holds(last, all[i]));
                }
            }
            assert forall|i: int, j: int| 0 <= i < j < all.len() implies all[i] != all[j] by {
                if i < rest.len() && j >= rest.len() {
                    let k = choose|k: u32| init.contains(k) && #[trigger] s.holds(k, rest[i]);
                    assert(mine.contains(mine[j - rest.len()]));
                    assert(s.holds(last, all[j]));
                    if all[i] == all[j] {
                        assert(k == last);
                        let m = choose|m: int| 0 <= m < init.len() && init[m] == k;
                        assert(ids[m] == ids[ids.len() - 1]);
                    }
                }
            }
        } else {
            assert forall|i: int| 0 <= i < all.len() implies {
                &&& (#[trigger] all[i]) < gpu_total
                &&& exists|k: u32| ids.contains(k) && #[trigger] s.holds(k, all[i])
            } by {
                let k = choose|k: u32| init.contains(k) && #[trigger] s.holds(k, rest[i]);
                assert(ids.contains(k) && s.holds(k, all[i]));
            }
        }
    }
}

/// Numbers below a bound, each at most once, are no more than the bound.
proof fn lemma_distinct_below(s: Seq<u32>, bound: u32)
    requires
        s.no_duplicates(),
        forall|i: int| 0 <= i < s.len() ==> (#[trigger] s[i]) < bound,
    ensures
        s.len() <= bound,
{
    let ints = s.map_values(|x: u32| x as int);
    assert(ints.no_duplicates());
    ints.unique_seq_to_set();
    let range = vstd::set_lib::set_int_range(0, bound as int);
    vstd::set_lib::lemma_int_range(0, bound as int);
    assert(ints.to_set().subset_of(range)) by {
        assert forall|x: int| ints.to_set().contains(x) implies range.contains(x) by {
            let i = choose|i: int| 0 <= i < ints.len() && ints[i] == x;
            assert(s[i] == x);
        }
    }
    vstd::set_lib::lemma_len_subset(ints.to_set(), range);
}

/// The running jobs never ask for more GPUs, all together, than the pool has.
pub proof fn law_running_jobs_fit_the_pool(s: AppStateView, gpu_total: u32)
    requires
        well_formed(s),
        gpus_sound(s, gpu_total),
        fully_reserved(s),
    ensures
        gpus_in_use(s, s.ids()) <= gpu_total,
{
    law_ids_list_every_job_once(s);
    lemma_indices_in_use(s, s.ids(), gpu_total);
    lemma_distinct_below(indices_in_use(s, s.ids()), gpu_total);
}

proof fn lemma_same_filter(s: Seq<u32>, p: spec_fn(u32) -> bool, q: spec_fn(u32) -> bool)
    requires
        forall|i: int| 0 <= i < s.len() ==> p(#[trigger] s[i]) == q(s[i]),
    ensures
        s.filter(p) == s.filter(q),
    decreases s.len(),
{
    reveal(Seq::filter);
    if s.len() > 0 {
        lemma_same_filter(s.drop_last(), p, q);
        assert(p(s[s.len() - 1]) == q(s[s.len() - 1]));
    }
}

/// A filter that passes one member more lets one more through.
proof fn lemma_one_more_passes(
    s: Seq<u32>,
    p: spec_fn(u32) -> bool,
    q: spec_fn(u32) -> bool,
    at: int,
)
    requires
        s.no_duplicates(),
        0 <= at < s.len(),
        !p(s[at]),
        q(s[at]),
        forall|i: int| 0 <= i < s.len() && i != at ==> p(#[trigger] s[i]) == q(s[i]),
    ensures
        s.filter(q).len() == s.filter(p).len() + 1,
    decreases s.len(),
{
    reveal(Seq::filter);
    let init = s.drop_last();
    if at == s.len() - 1 {
        lemma_same_filter(init, p, q);
    } else {
        lemma_one_more_passes(init, p, q, at);
        assert(p(s[s.len() - 1]) == q(s[s.len() - 1]));
    }
}

/// A listing of a smaller set passes no more than a listing of a larger one.
proof fn lemma_fewer_ids_pass(
    a: Seq<u32>,
    b: Seq<u32>,
    p: spec_fn(u32) -> bool,
    q: spec_fn(u32) -> bool,
)
    requires
        forall|i: int, j: int| 0 <= i < j < a.len() ==> a[i] < a[j],
        forall|i: int, j: int| 0 <= i < j < b.len() ==> b[i] < b[j],
        forall|k: u32| #[trigger] a.contains(k) && p(k) ==> b.contains(k) && q(k),
    ensures
        a.filter(p).len() <= b.filter(q).len(),
{
    let (fa, fb) = (a.filter(p), b.filter(q));
    lemma_increasing_filter(a, p);
    lemma_increasing_filter(b, q);
    fa.unique_seq_to_set();
    fb.unique_seq_to_set();
    assert(fa.to_set().subset_of(fb.to_set())) by {
        assert forall|k: u32| fa.to_set().contains(k) implies fb.to_set().contains(k) by {
            assert(fa.contains(k));
            assert(a.contains(k));
            assert(fb.contains(k));
        }
    }
    vstd::set_lib::lemma_len_subset(fa.to_set(), fb.to_set());
}

/// Starting a CPU job counts one CPU job more, and starting a GPU job none;
/// a CPU job is only started while the limit leaves room. So every step but a
/// change of the limit itself keeps the CPU jobs within the limit.
pub proof fn law_steps_keep_the_cpu_limit(s: AppStateView, step: QueueStep, gpu_total: u32)
    requires
        well_formed(s),
        within_cpu_limit(s),
        step.enabled(s, gpu_total),
        !(step is SetCpuLimit),
    ensures
        within_cpu_limit(step.after(s, gpu_total)),
{
    let t = step.after(s, gpu_total);
    law_steps_keep_well_formed(s, step, gpu_total);
    law_ids_list_every_job_once(s);
    law_ids_list_every_job_once(t);
    let p = |k: u32| s.runs_on_cpu(k);
    let q = |k: u32| t.runs_on_cpu(k);
    match step {
        QueueStep::Start { id, now } => {
            law_next_job_is_found_by_its_id(s, gpu_total, id);
            assert(s.fits(gpu_total, id));
            assert(t.jobs.dom() =~= s.jobs.dom());
            queue::lemma_ids(t, s.ids());
            assert(s.jobs.dom().contains(id));
            let at = choose|i: int| 0 <= i < s.ids().len() && s.ids()[i] == id;
            if s.jobs[id].gpus == 0 {
                lemma_one_more_passes(s.ids(), p, q, at);
            } else {
                lemma_same_filter(s.ids(), p, q);
            }
        },
        _ => {
            lemma_only_start_runs(s, step, gpu_total);
            assert forall|k: u32| #[trigger] t.ids().contains(k) && q(k) implies s.ids().contains(
                k,
            ) && p(k) by {
                assert(t.in_state(k, JobState::Running));
                assert(s.jobs.dom().contains(k));
            }
            lemma_fewer_ids_pass(t.ids(), s.ids(), q, p);
        },
    }
}

/// Raising the limit, or lifting it, keeps the CPU jobs within it.
pub proof fn law_raising_the_cpu_limit(s: AppStateView, limit: Option<u32>)
    requires
        within_cpu_limit(s),
        s.cpu_limit is Some,
        limit is Some ==> limit->0 >= s.cpu_limit->0,
    ensures
        within_cpu_limit(AppStateView { cpu_limit: limit, ..s }),
{
    let t = AppStateView { cpu_limit: limit, ..s };
    assert(t.ids() == s.ids());
    lemma_same_filter(s.ids(), |k: u32| s.runs_on_cpu(k), |k: u32| t.runs_on_cpu(k));
}

// ---------------------------------------------------------------------------
// The order of starts
// ---------------------------------------------------------------------------

/// Where each job is found under its own id, the job to start next is the one
/// whose turn it is, and it can be started.
pub proof fn law_next_job_is_found_by_its_id(s: AppStateView, gpu_total: u32, id: u32)
    requires
        found_by_id(s),
    ensures
        s.starts_next(gpu_total, id) <==> s.is_next(gpu_total, id),
        s.can_start(gpu_total),
{
    assert forall|other: u32| #[trigger] s.starts_next(gpu_total, other) implies s.is_next(
        gpu_total,
        other,
    ) by {
        let k = choose|k: u32| #[trigger] s.is_next(gpu_total, k) && s.jobs[k].id == other;
        assert(s.fits(gpu_total, k));
        assert(s.has(k));
    }
    assert forall|other: u32| #[trigger] s.starts_next(gpu_total, other) implies s.has(other) by {
        assert(s.is_next(gpu_total, other));
        assert(s.fits(gpu_total, other));
    }
    if s.is_next(gpu_total, id) {
        assert(s.fits(gpu_total, id));
        assert(s.has(id));
    }
}

/// There is one id to start next at most.
pub proof fn law_next_id_is_unique(s: AppStateView, gpu_total: u32, a: u32, b: u32)
    requires
        s.starts_next(gpu_total, a),
        s.starts_next(gpu_total, b),
    ensures
        a == b,
{
    let j = choose|k: u32| #[trigger] s.is_next(gpu_total, k) && s.jobs[k].id == a;
    let k = choose|k: u32| #[trigger] s.is_next(gpu_total, k) && s.jobs[k].id == b;
    law_next_job_is_unique(s, gpu_total, j, k);
}

/// There is one job whose turn it is at most, it waits in the queue, and it is
/// ahead of every other job that fits: by priority first, then by id.
pub proof fn law_next_job_is_unique(s: AppStateView, gpu_total: u32, a: u32, b: u32)
    requires
        s.is_next(gpu_total, a),
        s.is_next(gpu_total, b),
    ensures
        a == b,
        s.in_state(a, JobState::Queued),
{
    if a != b {
        assert(s.fits(gpu_total, a));
        assert(s.fits(gpu_total, b));
        assert(s.ahead(a, b));
        assert(s.ahead(b, a));
    }
}

/// A job that is paused, running or over is not started.
pub proof fn law_only_queued_jobs_start(s: AppStateView, gpu_total: u32, id: u32)
    requires
        found_by_id(s),
        !s.in_state(id, JobState::Queued),
    ensures
        !s.starts_next(gpu_total, id),
{
    law_next_job_is_found_by_its_id(s, gpu_total, id);
}

/// A CPU job always fits while there is no limit on CPU jobs.
pub proof fn law_cpu_jobs_fit_without_a_limit(s: AppStateView, gpu_total: u32, id: u32)
    requires
        s.in_state(id, JobState::Queued),
        s.jobs[id].gpus == 0,
        s.cpu_limit is None,
    ensures
        s.fits(gpu_total, id),
{
}

/// What fits depends on what runs and on the limit alone: a job that waits in
/// two queues that run the same jobs under the same limit fits in both or in
/// neither.
pub proof fn law_fitting_depends_on_what_runs(
    s: AppStateView,
    t: AppStateView,
    gpu_total: u32,
    id: u32,
)
    requires
        s.jobs.dom().finite(),
        t.jobs.dom().finite(),
        s.cpu_limit == t.cpu_limit,
        forall|k: u32|
            #![trigger s.in_state(k, JobState::Running)]
            #![trigger t.in_state(k, JobState::Running)]
            s.in_state(k, JobState::Running) == t.in_state(k, JobState::Running) && (s.in_state(
                k,
                JobState::Running,
            ) ==> s.jobs[k].gpus == t.jobs[k].gpus && s.jobs[k].assigned_gpus
                == t.jobs[k].assigned_gpus),
        s.in_state(id, JobState::Queued),
        t.in_state(id, JobState::Queued),
        s.jobs[id].gpus == t.jobs[id].gpus,
    ensures
        s.fits(gpu_total, id) == t.fits(gpu_total, id),
{
    assert forall|x: u32| s.held(x) == t.held(x) by {
        if s.held(x) {
            let k = choose|k: u32| #[trigger] s.holds(k, x);
            assert(t.in_state(k, JobState::Running));
            assert(t.holds(k, x));
        }
        if t.held(x) {
            let k = choose|k: u32| #[trigger] t.holds(k, x);
            assert(s.in_state(k, JobState::Running));
            assert(s.holds(k, x));
        }
    }
    lemma_same_filter(
        Seq::new(gpu_total as nat, |i: int| i as u32),
        |i: u32| !s.held(i),
        |i: u32| !t.held(i),
    );
    law_ids_list_every_job_once(s);
    law_ids_list_every_job_once(t);
    let p = |k: u32| s.runs_on_cpu(k);
    let q = |k: u32| t.runs_on_cpu(k);
    assert forall|k: u32| #[trigger] s.ids().contains(k) && p(k) implies t.ids().contains(k) && q(
        k,
    ) by {
        assert(s.in_state(k, JobState::Running));
        assert(t.jobs.dom().contains(k));
    }
    assert forall|k: u32| #[trigger] t.ids().contains(k) && q(k) implies s.ids().contains(k) && p(
        k,
    ) by {
        assert(t.in_state(k, JobState::Running));
        assert(s.jobs.dom().contains(k));
    }
    lemma_fewer_ids_pass(s.ids(), t.ids(), p, q);
    lemma_fewer_ids_pass(t.ids(), s.ids(), q, p);
}

/// Each start leaves one queued job less, so filling the free capacity comes
/// to an end.
pub proof fn law_each_start_shortens_the_queue(
    s: AppStateView,
    gpu_total: u32,
    id: u32,
    now: Timestamp,
)
    requires
        well_formed(s),
        s.is_next(gpu_total, id),
    ensures
        s.started(gpu_total, id, now).ids_in(JobState::Queued).len() + 1 == s.ids_in(
            JobState::Queued,
        ).len(),
{
    let t = s.started(gpu_total, id, now);
    law_ids_list_every_job_once(s);
    assert(t.jobs.dom() =~= s.jobs.dom());
    queue::lemma_ids(t, s.ids());
    assert(s.jobs.dom().contains(id));
    let at = choose|i: int| 0 <= i < s.ids().len() && s.ids()[i] == id;
    lemma_one_more_passes(
        s.ids(),
        |k: u32| t.jobs[k].state == JobState::Queued,
        |k: u32| s.jobs[k].state == JobState::Queued,
        at,
    );
}

/// Ending a running job frees the GPUs that it held, and no others.
pub proof fn law_finish_frees_its_gpus(
    s: AppStateView,
    gpu_total: u32,
    id: u32,
    result: RunResult,
    now: Timestamp,
)
    requires
        gpus_sound(s, gpu_total),
        s.in_state(id, JobState::Running),
    ensures
        forall|x: u32| #[trigger]
            s.finished(id, result, now).held(x) <==> s.held(x) && !s.jobs[id].assigned_gpus.contains(
                x,
            ),
{
    let t = s.finished(id, result, now);
    assert forall|x: u32| #[trigger] t.held(x) <==> s.held(x) && !s.jobs[id].assigned_gpus.contains(
        x,
    ) by {
        if t.held(x) {
            let k = choose|k: u32| #[trigger] t.holds(k, x);
            assert(k != id);
            assert(s.holds(k, x));
            if s.jobs[id].assigned_gpus.contains(x) {
                assert(s.holds(id, x));
            }
        }
        if s.held(x) && !s.jobs[id].assigned_gpus.contains(x) {
            let k = choose|k: u32| #[trigger] s.holds(k, x);
            assert(t.holds(k, x));
        }
    }
}

/// A restarted job waits in the queue again as the same job: same id, command,
/// directory, environment, label, priority, request and log file.
pub proof fn law_restart_keeps_the_job(s: AppStateView, id: u32, now: Timestamp)
    requires
        s.in_state(id, JobState::Running),
    ensures
        s.finished(id, RunResult::Restarted, now).in_state(id, JobState::Queued),
        s.finished(id, RunResult::Restarted, now).jobs[id] == (JobView {
            state: JobState::Queued,
            exit_code: None,
            started_at: None,
            finished_at: None,
            assigned_gpus: Seq::empty(),
            ..s.jobs[id]
        }),
{
}

// ---------------------------------------------------------------------------
// What undoes what
// ---------------------------------------------------------------------------

/// Resuming a job that was just paused gives the queue back.
pub proof fn law_resume_undoes_pause(s: AppStateView, id: u32)
    requires
        s.in_state(id, JobState::Queued),
    ensures
        s.shifted(id, JobState::Queued, JobState::Paused).in_state(id, JobState::Paused),
        s.shifted(id, JobState::Queued, JobState::Paused).shifted(
            id,
            JobState::Paused,
            JobState::Queued,
        ) == s,
{
    let t = s.shifted(id, JobState::Queued, JobState::Paused);
    let u = t.shifted(id, JobState::Paused, JobState::Queued);
    assert(u.jobs =~= s.jobs);
}

/// Pausing every queued job leaves nothing that could start.
pub proof fn law_pause_all_holds_everything_back(s: AppStateView, gpu_total: u32, id: u32)
    ensures
        !s.moved(JobState::Queued, JobState::Paused, None).fits(gpu_total, id),
{
}

/// Where nothing is paused yet, pausing every queued job and resuming every
/// paused one gives the queue back.
pub proof fn law_resume_all_undoes_pause_all(s: AppStateView)
    requires
        forall|k: u32| !#[trigger] s.in_state(k, JobState::Paused),
    ensures
        s.moved(JobState::Queued, JobState::Paused, None).moved(
            JobState::Paused,
            JobState::Queued,
            None,
        ) == s,
{
    let t = s.moved(JobState::Queued, JobState::Paused, None);
    let u = t.moved(JobState::Paused, JobState::Queued, None);
    assert forall|k: u32| s.jobs.contains_key(k) implies u.jobs[k] == s.jobs[k] by {
        assert(!s.in_state(k, JobState::Paused));
    }
    assert(u.jobs =~= s.jobs);
}

/// Cancelling everything leaves nothing queued, marks what was queued as
/// killed, and leaves every other job as it was.
pub proof fn law_cancel_all_empties_the_queue(s: AppStateView, now: Timestamp)
    ensures
        forall|k: u32| !#[trigger] s.cancelled(now).in_state(k, JobState::Queued),
        forall|k: u32| #[trigger]
            s.in_state(k, JobState::Queued) ==> s.cancelled(now).in_state(k, JobState::Killed),
        forall|k: u32| #[trigger]
            s.has(k) && !s.in_state(k, JobState::Queued) ==> s.cancelled(now).jobs[k] == s.jobs[k],
{
}

/// Clearing keeps exactly the jobs that are not over, as they were; clearing
/// again changes nothing.
pub proof fn law_clear_keeps_what_is_not_over(s: AppStateView)
    ensures
        forall|k: u32| #[trigger]
            s.cleared().has(k) <==> s.has(k) && !s.jobs[k].state.terminal(),
        forall|k: u32| #[trigger] s.cleared().has(k) ==> s.cleared().jobs[k] == s.jobs[k],
        s.cleared().cleared() == s.cleared(),
{
    assert(s.cleared().cleared().jobs =~= s.cleared().jobs);
}

/// A killed, finished or failed job keeps its state under every step but its
/// removal.
pub proof fn law_over_is_over(s: AppStateView, step: QueueStep, gpu_total: u32, id: u32)
    requires
        well_formed(s),
        s.has(id),
        s.jobs[id].state.terminal(),
        step.enabled(s, gpu_total),
        step matches QueueStep::Finish { id: other, .. } ==> other != id,
    ensures
        step.after(s, gpu_total).has(id) ==> step.after(s, gpu_total).jobs[id].state
            == s.jobs[id].state,
{
    match step {
        QueueStep::Start { id: other, .. } => {
            law_next_job_is_found_by_its_id(s, gpu_total, other);
            assert(s.fits(gpu_total, other));
        },
        QueueStep::Reload { now } => {
            lemma_reload(s, now);
        },
        _ => {},
    }
}

/// Every step keeps it so that the times of all jobs can be shown, as the time that
/// it records itself can be.
pub proof fn law_steps_keep_times_sound(s: AppStateView, step: QueueStep, gpu_total: u32)
    requires
        s.jobs.dom().finite(),
        times_sound(s),
        step.enabled(s, gpu_total),
        step.time() matches Some(now) ==> now.is_reading(),
    ensures
        times_sound(step.after(s, gpu_total)),
{
    let t = step.after(s, gpu_total);
    if let QueueStep::Reload { now } = step {
        lemma_reload(s, now);
    }
    assert forall|k: u32| #[trigger] t.has(k) implies client::times_displayable(t.jobs[k]) by {
        assert(s.has(k) || k == s.next_id);
    }
}

// ---------------------------------------------------------------------------
// Storage
// ---------------------------------------------------------------------------

proof fn lemma_entry_map(keys: Seq<u32>, jobs: Map<u32, JobView>, entries: Seq<(u32, JobView)>)
    requires
        entries == keys.map_values(|k: u32| (k, jobs[k])),
    ensures
        forall|k: u32| #[trigger]
            queue::entry_map(entries).contains_key(k) <==> keys.contains(k),
        forall|k: u32| keys.contains(k) ==> #[trigger] queue::entry_map(entries)[k] == jobs[k],
    decreases keys.len(),
{
    if keys.len() > 0 {
        let init = keys.drop_last();
        assert(entries.drop_last() == init.map_values(|k: u32| (k, jobs[k])));
        lemma_entry_map(init, jobs, entries.drop_last());
        let before = queue::entry_map(entries.drop_last());
        assert(entries.last() == (keys.last(), jobs[keys.last()]));
        assert(queue::entry_map(entries) == before.insert(keys.last(), jobs[keys.last()]));
        assert forall|k: u32| keys.contains(k) <==> init.contains(k) || k == keys.last() by {
            if keys.contains(k) {
                let i = choose|i: int| 0 <= i < keys.len() && keys[i] == k;
                if i < init.len() {
                    assert(init[i] == k);
                }
            }
            if init.contains(k) {
                let i = choose|i: int| 0 <= i < init.len() && init[i] == k;
                assert(keys[i] == k);
            }
            if k == keys.last() {
                assert(keys[keys.len() - 1] == k);
            }
        }
        assert forall|k: u32| #[trigger] queue::entry_map(entries).contains_key(k) implies (
        before.contains_key(k) || k == keys.last()) by {}
        assert forall|k: u32| keys.contains(k) implies #[trigger] queue::entry_map(entries)[k]
            == jobs[k] by {
            if k != keys.last() {
                assert(before[k] == jobs[k]);
            }
        }
    }
}

/// Loading what was saved gives the queue back, but for the jobs that ran,
/// which have failed as of the time of loading.
pub proof fn law_load_gives_back_what_was_saved(s: AppStateView, now: Timestamp)
    requires
        s.jobs.dom().finite(),
    ensures
        queue::loaded(Some(s.stored()), now) == s.moved(
            JobState::Running,
            JobState::Failed,
            Some(now),
        ),
        (forall|k: u32| !#[trigger] s.in_state(k, JobState::Running)) ==> queue::loaded(
            Some(s.stored()),
            now,
        ) == s,
        forall|k: u32| !#[trigger] queue::loaded(Some(s.stored()), now).in_state(
            k,
            JobState::Running,
        ),
{
    law_ids_list_every_job_once(s);
    lemma_entry_map(s.ids(), s.jobs, s.stored().jobs);
    let map = queue::entry_map(s.stored().jobs);
    assert(map =~= s.jobs) by {
        assert forall|k: u32| map.contains_key(k) == s.jobs.contains_key(k) by {
            assert(s.jobs.dom().contains(k) <==> s.ids().contains(k));
        }
    }
    let t = s.moved(JobState::Running, JobState::Failed, Some(now));
    if forall|k: u32| !#[trigger] s.in_state(k, JobState::Running) {
        assert forall|k: u32| s.jobs.contains_key(k) implies t.jobs[k] == s.jobs[k] by {
            assert(!s.in_state(k, JobState::Running));
        }
        assert(t.jobs =~= s.jobs);
    }
}

} // verus!
