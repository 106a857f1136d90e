//! What starting, launching and ending a job comes to, said of the fields of the
//! jobs themselves.
use vstd::prelude::*;

use super::daemon;
use super::daemon::{Launch, Persist, Reaction, RunEnd};
use super::job::{Job, JobState, JobView};
use super::laws;
use super::queue;
use super::queue::{AppStateView, RunSpecView};
use super::scheduler;
use super::scheduler::{RunResult, RunSpec, StoredState};
use crate::clock::Timestamp;
use crate::gpu::Vendor;
use crate::text;

verus! {

// ---------------------------------------------------------------------------
// Which job starts
// ---------------------------------------------------------------------------

/// Of two jobs that fit, the one with the smaller priority is never started, and
/// neither is the one with the larger id where the priorities are equal, whatever
/// else the two jobs hold.
pub proof fn law_higher_priority_starts_first(
    s: AppStateView,
    gpu_total: u32,
    a: u32,
    b: u32,
)
    requires
        s.fits(gpu_total, a),
        s.fits(gpu_total, b),
        s.jobs[a].priority > s.jobs[b].priority || (s.jobs[a].priority == s.jobs[b].priority
            && s.jobs[a].id < s.jobs[b].id),
    ensures
        !s.is_next(gpu_total, b),
        laws::found_by_id(s) ==> !s.starts_next(gpu_total, b),
{
    if s.is_next(gpu_total, b) {
        assert(s.fits(gpu_total, a) && a != b);
        assert(s.ahead(b, a));
    }
    if laws::found_by_id(s) {
        laws::law_next_job_is_found_by_its_id(s, gpu_total, b);
    }
}

/// The job that is started has the highest priority of all jobs that fit, and the
/// lowest id of those with that priority.
pub proof fn law_the_started_job_is_the_best(s: AppStateView, gpu_total: u32, id: u32, other: u32)
    requires
        laws::found_by_id(s),
        s.starts_next(gpu_total, id),
        s.fits(gpu_total, other),
    ensures
        s.jobs.contains_key(id),
        s.jobs[id].state is Queued,
        s.jobs[other].priority <= s.jobs[id].priority,
        s.jobs[other].priority == s.jobs[id].priority ==> id <= other,
{
    laws::law_next_job_is_found_by_its_id(s, gpu_total, id);
    assert(s.fits(gpu_total, id));
    assert(s.has(other) && s.has(id));
    if s.jobs[other].priority > s.jobs[id].priority || (s.jobs[other].priority
        == s.jobs[id].priority && other < id) {
        law_higher_priority_starts_first(s, gpu_total, other, id);
    }
}

/// Two listings of the same numbers, each number once, are equally long.
proof fn lemma_same_members_same_len(a: Seq<u32>, b: Seq<u32>)
    requires
        a.no_duplicates(),
        b.no_duplicates(),
        forall|x: u32| #[trigger] a.contains(x) <==> b.contains(x),
    ensures
        a.len() == b.len(),
{
    a.unique_seq_to_set();
    b.unique_seq_to_set();
    assert(a.to_set() =~= b.to_set()) by {
        assert forall|x: u32| a.to_set().contains(x) <==> b.to_set().contains(x) by {
            assert(a.contains(x) <==> b.contains(x));
        }
    }
}

/// Whether a GPU is held by a running job, said of the jobs.
spec fn is_taken(jobs: Map<u32, JobView>, x: u32) -> bool {
    exists|k: u32| #[trigger]
        jobs.contains_key(k) && jobs[k].state is Running && jobs[k].assigned_gpus.contains(x)
}

proof fn lemma_held_is_taken(s: AppStateView, x: u32)
    ensures
        s.held(x) == is_taken(s.jobs, x),
{
    if s.held(x) {
        let k = choose|k: u32| #[trigger] s.holds(k, x);
        assert(s.jobs.contains_key(k) && s.jobs[k].state is Running
            && s.jobs[k].assigned_gpus.contains(x));
    }
    if is_taken(s.jobs, x) {
        let k = choose|k: u32| #[trigger]
            s.jobs.contains_key(k) && s.jobs[k].state is Running
                && s.jobs[k].assigned_gpus.contains(x);
        assert(s.holds(k, x));
    }
}

/// A queued job that asks for GPUs fits exactly where that many GPUs of the pool
/// are held by no running job.
pub proof fn law_gpu_jobs_fit_where_enough_gpus_are_free(
    s: AppStateView,
    gpu_total: u32,
    id: u32,
    free: Seq<u32>,
)
    requires
        s.jobs.contains_key(id),
        s.jobs[id].state is Queued,
        s.jobs[id].gpus > 0,
        free.no_duplicates(),
        forall|x: u32| #[trigger]
            free.contains(x) <==> x < gpu_total && forall|k: u32| #[trigger]
                s.jobs.contains_key(k) && s.jobs[k].state is Running
                    ==> !s.jobs[k].assigned_gpus.contains(x),
    ensures
        s.fits(gpu_total, id) <==> s.jobs[id].gpus <= free.len(),
        s.free_gpus(gpu_total).len() == free.len(),
{
    laws::law_free_gpus_are_those_not_held(s, gpu_total);
    let mine = s.free_gpus(gpu_total);
    assert forall|x: u32| #[trigger] mine.contains(x) <==> free.contains(x) by {
        lemma_held_is_taken(s, x);
    }
    lemma_same_members_same_len(mine, free);
}

/// A queued job that asks for no GPU fits exactly where there is no limit, or fewer
/// such jobs run than it allows; GPUs do not matter to it.
pub proof fn law_cpu_jobs_fit_below_the_limit(
    s: AppStateView,
    gpu_total: u32,
    id: u32,
    running: Seq<u32>,
)
    requires
        s.jobs.dom().finite(),
        s.jobs.contains_key(id),
        s.jobs[id].state is Queued,
        s.jobs[id].gpus == 0,
        running.no_duplicates(),
        forall|k: u32| #[trigger]
            running.contains(k) <==> s.jobs.contains_key(k) && s.jobs[k].state is Running
                && s.jobs[k].gpus == 0,
    ensures
        s.fits(gpu_total, id) <==> (s.cpu_limit is None || running.len() < s.cpu_limit->0),
{
    laws::law_ids_list_every_job_once(s);
    lemma_count(s, |k: u32| s.runs_on_cpu(k), running);
}

/// How many jobs pass a test is how many ids there are of such jobs.
pub(super) proof fn lemma_count(s: AppStateView, p: spec_fn(u32) -> bool, passing: Seq<u32>)
    requires
        queue::lists_in_order(s.ids(), s.jobs.dom()),
        passing.no_duplicates(),
        forall|k: u32| #[trigger] passing.contains(k) <==> s.jobs.contains_key(k) && p(k),
    ensures
        s.ids().filter(p).len() == passing.len(),
        s.ids().filter(p).no_duplicates(),
        forall|k: u32| #[trigger]
            s.ids().filter(p).contains(k) <==> s.jobs.contains_key(k) && p(k),
{
    lemma_filtered_ids(s, p);
    let mine = s.ids().filter(p);
    assert forall|k: u32| #[trigger] mine.contains(k) <==> passing.contains(k) by {}
    lemma_same_members_same_len(mine, passing);
}

/// The ids that pass a test stand in increasing order.
pub(super) proof fn lemma_filtered_ids(s: AppStateView, p: spec_fn(u32) -> bool)
    requires
        queue::lists_in_order(s.ids(), s.jobs.dom()),
    ensures
        forall|i: int, j: int|
            0 <= i < j < s.ids().filter(p).len() ==> s.ids().filter(p)[i] < s.ids().filter(p)[j],
        s.ids().filter(p).no_duplicates(),
        forall|k: u32| #[trigger]
            s.ids().filter(p).contains(k) <==> s.jobs.contains_key(k) && p(k),
{
    laws::lemma_increasing_filter(s.ids(), p);
    assert forall|k: u32| #[trigger] s.ids().filter(p).contains(k) <==> s.jobs.contains_key(k)
        && p(k) by {
        assert(s.jobs.dom().contains(k) <==> s.ids().contains(k));
    }
}

/// Only a job that is there and queued fits.
pub proof fn law_only_queued_jobs_fit(s: AppStateView, gpu_total: u32, id: u32)
    requires
        s.fits(gpu_total, id),
    ensures
        s.jobs.contains_key(id),
        s.jobs[id].state is Queued,
{
}

/// Where a job fits, some job is started, so nothing that could run is left waiting.
pub proof fn law_something_starts_where_something_fits(
    s: AppStateView,
    gpu_total: u32,
    id: u32,
) -> (next: u32)
    requires
        laws::found_by_id(s),
        s.fits(gpu_total, id),
    ensures
        s.starts_next(gpu_total, next),
{
    laws::law_ids_list_every_job_once(s);
    let ids = s.ids();
    assert(s.jobs.dom().contains(id));
    let best = lemma_best_of(s, gpu_total, ids, id);
    assert(s.is_next(gpu_total, best)) by {
        assert forall|other: u32| #[trigger] s.fits(gpu_total, other) && other != best implies s.ahead(
            best,
            other,
        ) by {
            assert(s.jobs.dom().contains(other));
            assert(ids.contains(other));
        }
    }
    laws::law_next_job_is_found_by_its_id(s, gpu_total, best);
    best
}

proof fn lemma_best_of(s: AppStateView, gpu_total: u32, ids: Seq<u32>, id: u32) -> (best: u32)
    requires
        ids.contains(id),
        s.fits(gpu_total, id),
    ensures
        s.fits(gpu_total, best),
        forall|other: u32| #[trigger]
            ids.contains(other) && s.fits(gpu_total, other) && other != best ==> s.ahead(
                best,
                other,
            ),
    decreases ids.len(),
{
    let last = ids.last();
    let init = ids.drop_last();
    if exists|k: u32| #[trigger] init.contains(k) && s.fits(gpu_total, k) {
        let k = choose|k: u32| #[trigger] init.contains(k) && s.fits(gpu_total, k);
        let b = lemma_best_of(s, gpu_total, init, k);
        let best = if s.fits(gpu_total, last) && s.ahead(last, b) {
            last
        } else {
            b
        };
        assert forall|other: u32| #[trigger]
            ids.contains(other) && s.fits(gpu_total, other) && other != best implies s.ahead(
            best,
            other,
        ) by {
            let i = choose|i: int| 0 <= i < ids.len() && ids[i] == other;
            if i < init.len() {
                assert(init[i] == other);
                assert(init.contains(other));
            }
        }
        best
    } else {
        assert forall|other: u32| #[trigger]
            ids.contains(other) && s.fits(gpu_total, other) && other != id implies s.ahead(
            id,
            other,
        ) by {
            let i = choose|i: int| 0 <= i < ids.len() && ids[i] == other;
            let j = choose|j: int| 0 <= j < ids.len() && ids[j] == id;
            if i < init.len() {
                assert(init[i] == other);
                assert(init.contains(other));
            }
            if j < init.len() {
                assert(init[j] == id);
                assert(init.contains(id));
            }
        }
        id
    }
}

// ---------------------------------------------------------------------------
// What a start does
// ---------------------------------------------------------------------------

/// A job that is started runs as of then and holds as many GPUs as it asked for:
/// the lowest of those in the pool that no running job holds, in increasing order.
/// Nothing else of the job changes, and nothing of any other job.
pub proof fn law_starting_reserves_the_lowest_free_gpus(
    s: AppStateView,
    gpu_total: u32,
    id: u32,
    now: Timestamp,
)
    requires
        s.fits(gpu_total, id),
    ensures
        ({
            let t = s.started(gpu_total, id, now);
            let held = t.jobs[id].assigned_gpus;
            &&& t.jobs[id] == (JobView {
                state: JobState::Running,
                started_at: Some(now),
                assigned_gpus: held,
                ..s.jobs[id]
            })
            &&& held.len() == s.jobs[id].gpus
            &&& forall|i: int, j: int| 0 <= i < j < held.len() ==> held[i] < held[j]
            &&& forall|x: u32| #[trigger]
                held.contains(x) ==> x < gpu_total && forall|k: u32| #[trigger]
                    s.jobs.contains_key(k) && s.jobs[k].state is Running
                        ==> !s.jobs[k].assigned_gpus.contains(x)
            &&& forall|x: u32, y: u32| #[trigger]
                held.contains(x) && y < x && !(#[trigger] held.contains(y)) ==> exists|k: u32|
                    #[trigger]
                    s.jobs.contains_key(k) && s.jobs[k].state is Running
                        && s.jobs[k].assigned_gpus.contains(y)
            &&& t.jobs.dom() == s.jobs.dom()
            &&& forall|k: u32| k != id ==> #[trigger] t.jobs[k] == s.jobs[k]
            &&& t.next_id == s.next_id
            &&& t.cpu_limit == s.cpu_limit
        }),
{
    let t = s.started(gpu_total, id, now);
    let held = t.jobs[id].assigned_gpus;
    let free = s.free_gpus(gpu_total);
    laws::law_free_gpus_are_those_not_held(s, gpu_total);
    if s.jobs[id].gpus == 0 {
        assert(held =~= Seq::<u32>::empty());
    }
    assert(held == free.take(s.jobs[id].gpus as int));
    assert forall|x: u32| #[trigger] held.contains(x) implies x < gpu_total && forall|k: u32|
        #[trigger]
        s.jobs.contains_key(k) && s.jobs[k].state is Running ==> !s.jobs[k].assigned_gpus.contains(
            x,
        ) by {
        let i = choose|i: int| 0 <= i < held.len() && held[i] == x;
        assert(free[i] == x);
        assert(free.contains(x));
        lemma_held_is_taken(s, x);
    }
    assert forall|x: u32, y: u32| #[trigger]
        held.contains(x) && y < x && !(#[trigger] held.contains(y)) implies exists|k: u32| #[trigger]
        s.jobs.contains_key(k) && s.jobs[k].state is Running && s.jobs[k].assigned_gpus.contains(
            y,
        ) by {
        let i = choose|i: int| 0 <= i < held.len() && held[i] == x;
        assert(free.contains(free[i]));
        if !s.held(y) {
            assert(free.contains(y));
            let j = choose|j: int| 0 <= j < free.len() && free[j] == y;
            assert(j < i);
            assert(held[j] == y);
        }
        lemma_held_is_taken(s, y);
        assert(is_taken(s.jobs, y));
    }
    assert(t.jobs.dom() =~= s.jobs.dom());
}

/// A job is launched with what its record holds.
pub proof fn law_jobs_are_launched_with_what_they_hold(job: JobView, id: u32)
    ensures
        job.run_spec(id).id == id,
        job.run_spec(id).argv == job.argv,
        job.run_spec(id).cwd == job.cwd,
        job.run_spec(id).log_path == job.log_path,
        job.run_spec(id).assigned_gpus == job.assigned_gpus,
        job.run_spec(id).env == job.env,
{
}

/// The program and its arguments are the command of the job, in order, and it runs
/// in the job's directory, writing to the job's log file. What was captured of the
/// environment comes first; the daemon's own is kept only where nothing was.
pub proof fn law_launching_runs_the_command(spec: RunSpecView, vendor: Vendor)
    requires
        spec.argv.len() > 0,
    ensures
        seq![daemon::launched(spec, vendor).program] + daemon::launched(spec, vendor).args
            == spec.argv,
        daemon::launched(spec, vendor).cwd == spec.cwd,
        daemon::launched(spec, vendor).log_path == spec.log_path,
        daemon::launched(spec, vendor).clear_env <==> spec.env.len() > 0,
        spec.env.is_prefix_of(daemon::launched(spec, vendor).env),
{
    let l = daemon::launched(spec, vendor);
    assert(seq![l.program] + l.args =~= spec.argv);
    assert(l.env.take(spec.env.len() as int) =~= spec.env);
}

/// Whether a text lists numbers: cut at its commas, each part reads as the number
/// in its place. No numbers are no text.
pub open spec fn lists_numbers(value: Seq<char>, numbers: Seq<u32>) -> bool {
    if numbers.len() == 0 {
        value.len() == 0
    } else {
        &&& text::split_at(value, ',').len() == numbers.len()
        &&& forall|i: int|
            0 <= i < numbers.len() ==> text::parsed_u32(#[trigger] text::split_at(value, ',')[i])
                == Some(numbers[i])
    }
}

/// Every GPU that a job holds is visible to it, in order, and no other: whatever the
/// captured environment says, the value of each of the vendor's visible-devices
/// variables lists exactly the assigned indices.
pub proof fn law_every_assigned_gpu_is_visible(spec: RunSpecView, vendor: Vendor, name: Seq<char>)
    requires
        vendor == Vendor::Nvidia ==> name == "CUDA_VISIBLE_DEVICES"@,
        vendor == Vendor::Amd ==> name == "HIP_VISIBLE_DEVICES"@ || name
            == "ROCR_VISIBLE_DEVICES"@,
        vendor != Vendor::NoGpu,
    ensures
        daemon::last_setting(daemon::launched(spec, vendor).env, name) is Some,
        lists_numbers(
            daemon::last_setting(daemon::launched(spec, vendor).env, name)->0,
            spec.assigned_gpus,
        ),
{
    let vars = vendor.device_variables();
    assert(vars.contains(name)) by {
        if name == "ROCR_VISIBLE_DEVICES"@ && vendor == Vendor::Amd {
            assert(vars[1] == name);
        } else {
            assert(vars[0] == name);
        }
    }
    daemon::law_jobs_see_their_gpus_only(spec, vendor, name);
    text::law_number_lists_read_back(spec.assigned_gpus);
}

/// Two jobs that see the same list hold the same GPUs.
pub proof fn law_visible_devices_tell_the_gpus(value: Seq<char>, a: Seq<u32>, b: Seq<u32>)
    requires
        lists_numbers(value, a),
        lists_numbers(value, b),
    ensures
        a == b,
{
    if a.len() > 0 && b.len() > 0 {
        assert forall|i: int| 0 <= i < a.len() implies a[i] == b[i] by {
            assert(text::parsed_u32(text::split_at(value, ',')[i]) == Some(a[i]));
            assert(text::parsed_u32(text::split_at(value, ',')[i]) == Some(b[i]));
        }
        assert(a =~= b);
    } else if a.len() > 0 {
        lemma_empty_lists_nothing(value, a);
    } else if b.len() > 0 {
        lemma_empty_lists_nothing(value, b);
    } else {
        assert(a =~= b);
    }
}

proof fn lemma_empty_lists_nothing(value: Seq<char>, numbers: Seq<u32>)
    requires
        lists_numbers(value, numbers),
        numbers.len() > 0,
    ensures
        value.len() > 0,
{
    if value.len() == 0 {
        assert(text::parsed_u32(text::split_at(value, ',')[0]) == Some(numbers[0]));
        text::law_only_digits_are_read(text::split_at(value, ',')[0]);
    }
}

// ---------------------------------------------------------------------------
// How a run ends
// ---------------------------------------------------------------------------

/// What a run came to is recorded as it was: an exit code is the one that the
/// process ended with, whichever it is, and a run that ended otherwise changes no
/// exit code. The job is finished, killed or failed as it ended; a job that is
/// restarted is queued again as if it had never run. Whatever the end, the job holds
/// no GPU afterwards, and no other job changes.
pub proof fn law_ends_are_recorded_as_they_were(
    s: AppStateView,
    id: u32,
    end: RunEnd,
    now: Timestamp,
)
    requires
        s.jobs.contains_key(id),
    ensures
        ({
            let t = s.finished(id, daemon::recorded(end), now);
            let (j, k) = (s.jobs[id], t.jobs[id]);
            &&& t.jobs.contains_key(id)
            &&& match end {
                RunEnd::Exited(code) => k.state is Finished && k.exit_code == code,
                RunEnd::Killed => k.state is Killed && k.exit_code == j.exit_code,
                RunEnd::Restarted => k.state is Queued && k.exit_code is None,
                _ => k.state is Failed && k.exit_code == j.exit_code,
            }
            &&& k.assigned_gpus.len() == 0
            &&& end is Restarted ==> k.started_at is None && k.finished_at is None
            &&& !(end is Restarted) ==> k.started_at == j.started_at && k.finished_at == Some(now)
            &&& same_job(j, k)
            &&& k.priority == j.priority
            &&& k.label == j.label
            &&& k.enqueued_at == j.enqueued_at
            &&& t.jobs.dom() == s.jobs.dom()
            &&& forall|m: u32| m != id ==> #[trigger] t.jobs[m] == s.jobs[m]
            &&& t.next_id == s.next_id
            &&& t.cpu_limit == s.cpu_limit
        }),
{
    let t = s.finished(id, daemon::recorded(end), now);
    assert(t.jobs.dom() =~= s.jobs.dom());
}

/// The end of a job that is gone changes nothing.
pub proof fn law_ends_of_unknown_jobs_change_nothing(
    s: AppStateView,
    id: u32,
    end: RunEnd,
    now: Timestamp,
)
    requires
        !s.jobs.contains_key(id),
    ensures
        s.finished(id, daemon::recorded(end), now) == s,
{
}

/// Two records are of one job: same id, command, directory, log file, environment
/// and request.
pub open spec fn same_job(a: JobView, b: JobView) -> bool {
    &&& a.id == b.id
    &&& a.argv == b.argv
    &&& a.cwd == b.cwd
    &&& a.log_path == b.log_path
    &&& a.env == b.env
    &&& a.gpus == b.gpus
}

/// Runs that ended by themselves with different codes are recorded differently, and
/// a recorded code of 0 means that the process ended with 0.
pub proof fn law_exit_codes_are_told_apart(
    s: AppStateView,
    id: u32,
    a: Option<i32>,
    b: Option<i32>,
    now: Timestamp,
)
    requires
        s.jobs.contains_key(id),
        s.finished(id, daemon::recorded(RunEnd::Exited(a)), now).jobs[id].exit_code == s.finished(
            id,
            daemon::recorded(RunEnd::Exited(b)),
            now,
        ).jobs[id].exit_code,
    ensures
        a == b,
        s.finished(id, daemon::recorded(RunEnd::Exited(a)), now).jobs[id].exit_code == Some(0i32)
            ==> a == Some(0i32),
{
    law_ends_are_recorded_as_they_were(s, id, RunEnd::Exited(a), now);
    law_ends_are_recorded_as_they_were(s, id, RunEnd::Exited(b), now);
}

// ---------------------------------------------------------------------------
// Storage
// ---------------------------------------------------------------------------

/// Loading keeps every stored job as it is, but for the jobs that ran: those have
/// failed as of then, and nothing else of them changes. Of two entries under one
/// number the later counts. The ids and the limit go on as stored.
pub proof fn law_loading_keeps_what_was_stored(stored: queue::StoredView, now: Timestamp, i: int)
    requires
        0 <= i < stored.jobs.len(),
        forall|m: int| i < m < stored.jobs.len() ==> (#[trigger] stored.jobs[m]).0
            != stored.jobs[i].0,
    ensures
        ({
            let t = queue::loaded(Some(stored), now);
            let (k, job) = stored.jobs[i];
            &&& t.jobs.contains_key(k)
            &&& !(job.state is Running) ==> t.jobs[k] == job
            &&& job.state is Running ==> t.jobs[k] == (JobView {
                state: JobState::Failed,
                finished_at: Some(now),
                ..job
            })
            &&& t.next_id == stored.next_id
            &&& t.cpu_limit == stored.cpu_limit
        }),
{
    lemma_last_entry_counts(stored.jobs, i);
}

proof fn lemma_last_entry_counts(entries: Seq<(u32, JobView)>, i: int)
    requires
        0 <= i < entries.len(),
        forall|m: int| i < m < entries.len() ==> (#[trigger] entries[m]).0 != entries[i].0,
    ensures
        queue::entry_map(entries).contains_key(entries[i].0),
        queue::entry_map(entries)[entries[i].0] == entries[i].1,
    decreases entries.len(),
{
    if i < entries.len() - 1 {
        let init = entries.drop_last();
        assert forall|m: int| i < m < init.len() implies (#[trigger] init[m]).0 != init[i].0 by {
            assert(entries[m].0 != entries[i].0);
        }
        lemma_last_entry_counts(init, i);
        assert(entries[entries.len() - 1].0 != entries[i].0);
    }
}

/// Loading makes no job up: each is found under the number of an entry. Without
/// stored state the queue is empty and starts with the id 0, without a limit.
pub proof fn law_loading_makes_no_job_up(
    stored: Option<queue::StoredView>,
    now: Timestamp,
    k: u32,
)
    ensures
        queue::loaded(stored, now).jobs.contains_key(k) ==> stored is Some && exists|i: int|
            0 <= i < stored->0.jobs.len() && (#[trigger] stored->0.jobs[i]).0 == k,
        stored is None ==> queue::loaded(stored, now).next_id == 0 && queue::loaded(
            stored,
            now,
        ).cpu_limit is None,
{
    if let Some(stored) = stored {
        laws::lemma_entries(stored.jobs);
        if queue::loaded(Some(stored), now).jobs.contains_key(k) {
            assert(queue::entry_map(stored.jobs).contains_key(k));
            let i = choose|i: int|
                0 <= i < stored.jobs.len() && #[trigger] stored.jobs[i] == (
                    k,
                    queue::entry_map(stored.jobs)[k],
                );
            assert(stored.jobs[i].0 == k);
        }
    }
}

/// Everything is saved: each job once, in increasing order of the numbers that they
/// are found under, and the ids and the limit as they are.
pub proof fn law_saving_keeps_everything(s: AppStateView)
    requires
        s.jobs.dom().finite(),
    ensures
        forall|k: u32| #[trigger]
            s.jobs.contains_key(k) ==> s.stored().jobs.contains((k, s.jobs[k])),
        forall|i: int|
            0 <= i < s.stored().jobs.len() ==> s.jobs.contains_key(
                (#[trigger] s.stored().jobs[i]).0,
            ) && s.stored().jobs[i].1 == s.jobs[s.stored().jobs[i].0],
        forall|i: int, j: int|
            0 <= i < j < s.stored().jobs.len() ==> (#[trigger] s.stored().jobs[i]).0 < (
            #[trigger] s.stored().jobs[j]).0,
        s.stored().next_id == s.next_id,
        s.stored().cpu_limit == s.cpu_limit,
{
    laws::law_ids_list_every_job_once(s);
    let ids = s.ids();
    assert forall|k: u32| #[trigger] s.jobs.contains_key(k) implies s.stored().jobs.contains(
        (k, s.jobs[k]),
    ) by {
        assert(s.jobs.dom().contains(k));
        let i = choose|i: int| 0 <= i < ids.len() && ids[i] == k;
        assert(s.stored().jobs[i] == (k, s.jobs[k]));
    }
    assert forall|i: int| 0 <= i < s.stored().jobs.len() implies s.jobs.contains_key(
        (#[trigger] s.stored().jobs[i]).0,
    ) by {
        assert(ids.contains(ids[i]));
        assert(s.jobs.dom().contains(ids[i]));
    }
}

// ---------------------------------------------------------------------------
// Views
// ---------------------------------------------------------------------------

/// Two jobs that look the same are the same in every field.
pub proof fn law_the_view_of_a_job_holds_every_field(a: Job, b: Job)
    requires
        a@ == b@,
    ensures
        a.id == b.id,
        a.argv@.len() == b.argv@.len(),
        forall|i: int| 0 <= i < a.argv@.len() ==> (#[trigger] a.argv@[i])@ == b.argv@[i]@,
        a.label is Some <==> b.label is Some,
        a.label is Some ==> a.label->0@ == b.label->0@,
        a.cwd@ == b.cwd@,
        a.state == b.state,
        a.exit_code == b.exit_code,
        a.log_path@ == b.log_path@,
        a.enqueued_at == b.enqueued_at,
        a.started_at == b.started_at,
        a.finished_at == b.finished_at,
        a.priority == b.priority,
        a.gpus == b.gpus,
        a.assigned_gpus@ == b.assigned_gpus@,
        a.env@.len() == b.env@.len(),
        forall|i: int|
            0 <= i < a.env@.len() ==> (#[trigger] a.env@[i]).0@ == b.env@[i].0@ && a.env@[i].1@
                == b.env@[i].1@,
{
    assert(a@.argv.len() == a.argv@.len() && b@.argv.len() == b.argv@.len());
    assert(a@.env.len() == a.env@.len() && b@.env.len() == b.env@.len());
    assert forall|i: int| 0 <= i < a.argv@.len() implies (#[trigger] a.argv@[i])@
        == b.argv@[i]@ by {
        assert(a@.argv[i] == a.argv@[i]@);
        assert(b@.argv[i] == b.argv@[i]@);
    }
    assert forall|i: int| 0 <= i < a.env@.len() implies (#[trigger] a.env@[i]).0@ == b.env@[i].0@
        && a.env@[i].1@ == b.env@[i].1@ by {
        assert(a@.env[i] == (a.env@[i].0@, a.env@[i].1@));
        assert(b@.env[i] == (b.env@[i].0@, b.env@[i].1@));
    }
}

/// What is to be launched looks as it is in every field.
pub proof fn law_the_view_of_a_run_spec_holds_every_field(a: RunSpec, b: RunSpec)
    requires
        a@ == b@,
    ensures
        a.id == b.id,
        a.argv.deep_view() == b.argv.deep_view(),
        a.cwd@ == b.cwd@,
        a.log_path@ == b.log_path@,
        a.assigned_gpus@ == b.assigned_gpus@,
        a.env.deep_view() == b.env.deep_view(),
{
}

/// Stored state looks as it is in every field.
pub proof fn law_the_view_of_stored_state_holds_every_field(a: StoredState, i: int)
    requires
        0 <= i < a.jobs@.len(),
    ensures
        a@.jobs.len() == a.jobs@.len(),
        a@.jobs[i] == (a.jobs@[i].0, a.jobs@[i].1@),
        a@.next_id == a.next_id,
        a@.cpu_limit == a.cpu_limit,
{
}

/// How a process is started looks as it is in every field.
pub proof fn law_the_view_of_a_launch_holds_every_field(a: Launch)
    ensures
        a@.program == a.program@,
        a@.args == a.args.deep_view(),
        a@.cwd == a.cwd@,
        a@.log_path == a.log_path@,
        a@.clear_env == a.clear_env,
        a@.env == a.env.deep_view(),
{
}

/// Stored state that is there is taken as it is.
pub proof fn law_stored_state_is_taken_as_it_is(stored: StoredState)
    ensures
        scheduler::stored_view(Some(stored)) == Some(stored@),
        scheduler::stored_view(None) is None,
{
}

// ---------------------------------------------------------------------------
// What the functions give
// ---------------------------------------------------------------------------

/// What the queue is told of the end of a run is how the run ended: with the exit code
/// of the process where it ended by itself.
pub proof fn law_results_are_how_the_run_ended(end: RunEnd, r: RunResult)
    requires
        daemon::run_result.ensures((end,), r),
    ensures
        end matches RunEnd::Exited(code) ==> r == RunResult::Exited(code),
        r is Exited <==> end is Exited,
        r is Killed <==> end is Killed,
        r is Restarted <==> end is Restarted,
        r is SpawnFailed <==> end is NoLog || end is NotStarted || end is Lost,
{
}

/// A launched process runs the command of the job, in its directory, writing to its log
/// file, and sees exactly the GPUs that the job was assigned.
pub proof fn law_launched_processes_see_their_gpus(spec: RunSpec, vendor: Vendor, r: Launch)
    requires
        daemon::launch.ensures((&spec, vendor), r),
        spec.argv@.len() > 0,
    ensures
        seq![r.program@] + r.args.deep_view() == spec.argv.deep_view(),
        r.cwd@ == spec.cwd@,
        r.log_path@ == spec.log_path@,
        r.clear_env <==> spec.env@.len() > 0,
        spec.env.deep_view().is_prefix_of(r.env.deep_view()),
        vendor == Vendor::Nvidia ==> sees(r, "CUDA_VISIBLE_DEVICES"@, spec.assigned_gpus@),
        vendor == Vendor::Amd ==> sees(r, "HIP_VISIBLE_DEVICES"@, spec.assigned_gpus@) && sees(
            r,
            "ROCR_VISIBLE_DEVICES"@,
            spec.assigned_gpus@,
        ),
{
    assert(spec@.argv.len() == spec.argv@.len());
    assert(spec@.env.len() == spec.env@.len());
    law_launching_runs_the_command(spec@, vendor);
    match vendor {
        Vendor::Nvidia => law_every_assigned_gpu_is_visible(
            spec@,
            vendor,
            "CUDA_VISIBLE_DEVICES"@,
        ),
        Vendor::Amd => {
            law_every_assigned_gpu_is_visible(spec@, vendor, "HIP_VISIBLE_DEVICES"@);
            law_every_assigned_gpu_is_visible(spec@, vendor, "ROCR_VISIBLE_DEVICES"@);
        },
        Vendor::NoGpu => {},
    }
}

/// Whether a variable of a process lists some GPUs, once all settings were made.
pub open spec fn sees(r: Launch, name: Seq<char>, gpus: Seq<u32>) -> bool {
    daemon::last_setting(r.env.deep_view(), name) matches Some(value) && lists_numbers(value, gpus)
}

/// The value that a variable has is the one that was set last, and none where none was.
pub proof fn law_the_last_setting_counts(
    env: Seq<(Seq<char>, Seq<char>)>,
    name: Seq<char>,
    value: Seq<char>,
    other: Seq<char>,
)
    ensures
        daemon::last_setting(Seq::empty(), name) is None,
        daemon::last_setting(env.push((name, value)), name) == Some(value),
        other != name ==> daemon::last_setting(env.push((other, value)), name)
            == daemon::last_setting(env, name),
{
    assert(env.push((name, value)).drop_last() == env);
    assert(env.push((other, value)).drop_last() == env);
}

/// What is left of a reaction once the queue was written, or could not be.
pub proof fn law_settled_reactions_keep_what_is_to_be_done(
    reaction: Reaction,
    failure: Option<String>,
    r: Reaction,
)
    requires
        daemon::settle.ensures((reaction, failure), r),
    ensures
        r.kill@ == reaction.kill@,
        r.restart == reaction.restart,
        r.shutdown == reaction.shutdown,
        failure is None ==> r.response@ == reaction.response@ && r.wake == reaction.wake,
        failure is Some && (reaction.persist == Persist::Report || reaction.persist
            == Persist::ReportRemoval) ==> r.response is Error && !r.wake,
        reaction.persist == Persist::Skip || reaction.persist == Persist::Try ==> r.response@
            == reaction.response@ && r.wake == reaction.wake,
{
    assert(r@.kill == r.kill@ && reaction@.kill == reaction.kill@);
}

} // verus!
