//! What each request does to the jobs and what is answered, said of the fields of
//! the jobs themselves.
use vstd::prelude::*;

use super::daemon;
use super::daemon::{Persist, Reaction, ReactionView};
use super::job::{JobState, JobView};
use super::laws;
use super::protocol::{RequestView, ResponseView};
use super::queue::AppStateView;
use super::run_laws;
use crate::clock::Timestamp;
use crate::gpu::GpuInfo;
use crate::paths;
use crate::text;

verus! {

/// Nothing is killed, restarted or shut down.
pub open spec fn quiet(r: ReactionView) -> bool {
    r.kill.len() == 0 && r.restart is None && !r.shutdown
}

/// Nothing follows but the answer.
pub open spec fn idle(r: ReactionView) -> bool {
    r.persist == Persist::Skip && !r.wake && quiet(r)
}

/// The request is turned down with this text, and nothing else follows.
pub open spec fn turned_down(r: ReactionView, message: Seq<char>) -> bool {
    r.response == ResponseView::Error(message) && idle(r)
}

/// The request is carried out with this text.
pub open spec fn says(r: ReactionView, message: Seq<char>) -> bool {
    r.response == ResponseView::Done(message)
}

/// Apart from job `id` the two queues are the same.
pub open spec fn same_but_for(s: AppStateView, t: AppStateView, id: u32) -> bool {
    &&& forall|k: u32| k != id ==> (#[trigger] t.jobs.contains_key(k) <==> s.jobs.contains_key(k))
    &&& forall|k: u32| k != id && #[trigger] s.jobs.contains_key(k) ==> t.jobs[k] == s.jobs[k]
    &&& t.cpu_limit == s.cpu_limit
}

/// The two queues have the same jobs, under the same numbers.
pub open spec fn same_ids(s: AppStateView, t: AppStateView) -> bool {
    &&& forall|k: u32| #[trigger] t.jobs.contains_key(k) <==> s.jobs.contains_key(k)
    &&& t.next_id == s.next_id
    &&& t.cpu_limit == s.cpu_limit
}

/// `ids` lists the jobs in a state, each once.
pub open spec fn lists_state(s: AppStateView, state: JobState, ids: Seq<u32>) -> bool {
    &&& ids.no_duplicates()
    &&& forall|k: u32| #[trigger]
        ids.contains(k) <==> s.jobs.contains_key(k) && s.jobs[k].state == state
}

proof fn lemma_count_in_state(s: AppStateView, state: JobState, ids: Seq<u32>)
    requires
        s.jobs.dom().finite(),
        lists_state(s, state, ids),
    ensures
        s.ids_in(state).len() == ids.len(),
{
    laws::law_ids_list_every_job_once(s);
    run_laws::lemma_count(s, |k: u32| s.jobs[k].state == state, ids);
}

// ---------------------------------------------------------------------------
// New jobs
// ---------------------------------------------------------------------------

/// A job that is let in waits in the queue with everything that was asked for, under
/// an id that goes up by one each time, and its log file is named after that id. No
/// other job changes.
pub proof fn law_added_jobs_are_as_asked(
    s: AppStateView,
    argv: Seq<Seq<char>>,
    label: Option<Seq<char>>,
    cwd: Seq<char>,
    gpus: u32,
    priority: i32,
    env: Seq<(Seq<char>, Seq<char>)>,
    gpu: GpuInfo,
    log_dir: Seq<char>,
    now: Timestamp,
)
    requires
        gpus <= gpu.count,
        s.next_id < u32::MAX,
    ensures
        ({
            let request = RequestView::Add { argv, label, cwd, gpus, priority, env };
            let (t, r) = daemon::answered(request, s, gpu, log_dir, now);
            let id = s.next_id;
            let job = t.jobs[id];
            &&& t.jobs.contains_key(id)
            &&& t.next_id == id + 1
            &&& same_but_for(s, t, id)
            &&& job.id == id
            &&& job.argv == argv
            &&& job.label == label
            &&& job.cwd == cwd
            &&& job.gpus == gpus
            &&& job.priority == priority
            &&& job.env == env
            &&& job.enqueued_at == now
            &&& fresh(job)
            &&& job.log_path == paths::joined_path(log_dir, text::decimal(id as nat) + ".log"@)
            &&& says(r, "Queued job "@ + text::decimal(id as nat))
            &&& r.persist == Persist::Report
            &&& r.wake
            &&& quiet(r)
            &&& t == s.added(log_dir, argv, label, cwd, gpus, priority, env, now)
        }),
{
    let request = RequestView::Add { argv, label, cwd, gpus, priority, env };
    let (t, r) = daemon::answered(request, s, gpu, log_dir, now);
    lemma_no_tail("Queued job "@ + text::decimal(s.next_id as nat));
    assert(says(r, "Queued job "@ + text::decimal(s.next_id as nat)));
}

proof fn lemma_no_tail(a: Seq<char>)
    ensures
        a + ""@ == a,
{
    reveal_strlit("");
    assert(a + ""@ =~= a);
}

/// The job has not run yet.
pub open spec fn fresh(job: JobView) -> bool {
    &&& job.state is Queued
    &&& job.exit_code is None
    &&& job.started_at is None
    &&& job.finished_at is None
    &&& job.assigned_gpus.len() == 0
}

/// A job that asks for more GPUs than the host has is turned down, and only such a
/// job.
pub proof fn law_jobs_that_cannot_run_are_turned_down(
    s: AppStateView,
    argv: Seq<Seq<char>>,
    label: Option<Seq<char>>,
    cwd: Seq<char>,
    gpus: u32,
    priority: i32,
    env: Seq<(Seq<char>, Seq<char>)>,
    gpu: GpuInfo,
    log_dir: Seq<char>,
    now: Timestamp,
)
    ensures
        ({
            let request = RequestView::Add { argv, label, cwd, gpus, priority, env };
            let (t, r) = daemon::answered(request, s, gpu, log_dir, now);
            &&& r.response is Error <==> gpus > gpu.count
            &&& gpus > gpu.count ==> t == s && turned_down(
                r,
                "job requests "@ + text::decimal(gpus as nat) + " GPU(s) but only "@
                    + text::decimal(gpu.count as nat) + " are available"@,
            )
        }),
{
}

/// A re-run job is a fresh copy: same command, label, directory, environment and
/// request, at the priority that was asked for. The job that it was made from stays
/// as it is, and so does every other.
pub proof fn law_reruns_are_fresh_copies(
    s: AppStateView,
    id: u32,
    priority: i32,
    gpu: GpuInfo,
    log_dir: Seq<char>,
    now: Timestamp,
)
    requires
        laws::well_formed(s),
        s.jobs.contains_key(id),
        s.jobs[id].gpus <= gpu.count,
        s.next_id < u32::MAX,
    ensures
        ({
            let (t, r) = daemon::answered(
                RequestView::Rerun { id, priority },
                s,
                gpu,
                log_dir,
                now,
            );
            let job = t.jobs[s.next_id];
            let source = s.jobs[id];
            &&& t.jobs.contains_key(s.next_id)
            &&& t.next_id == s.next_id + 1
            &&& same_but_for(s, t, s.next_id)
            &&& t.jobs[id] == source
            &&& job.id == s.next_id
            &&& job.argv == source.argv
            &&& job.label == source.label
            &&& job.cwd == source.cwd
            &&& job.gpus == source.gpus
            &&& job.env == source.env
            &&& job.priority == priority
            &&& job.enqueued_at == now
            &&& fresh(job)
            &&& job.log_path == paths::joined_path(
                log_dir,
                text::decimal(s.next_id as nat) + ".log"@,
            )
            &&& says(r, "Queued job "@ + text::decimal(s.next_id as nat))
            &&& r.persist == Persist::Report
            &&& r.wake
            &&& quiet(r)
        }),
{
    assert(s.has(id));
    lemma_no_tail("Queued job "@ + text::decimal(s.next_id as nat));
}

/// A job that the host cannot run is not run again.
pub proof fn law_reruns_that_cannot_run_are_turned_down(
    s: AppStateView,
    id: u32,
    priority: i32,
    gpu: GpuInfo,
    log_dir: Seq<char>,
    now: Timestamp,
)
    requires
        s.jobs.contains_key(id),
        s.jobs[id].gpus > gpu.count,
    ensures
        ({
            let (t, r) = daemon::answered(
                RequestView::Rerun { id, priority },
                s,
                gpu,
                log_dir,
                now,
            );
            t == s && turned_down(
                r,
                "job requests "@ + text::decimal(s.jobs[id].gpus as nat) + " GPU(s) but only "@
                    + text::decimal(gpu.count as nat) + " are available"@,
            )
        }),
{
}

/// Without a priority of its own, a re-run job takes the one of its source.
pub proof fn law_plain_reruns_keep_the_priority(
    s: AppStateView,
    log_dir: Seq<char>,
    id: u32,
    now: Timestamp,
)
    requires
        s.jobs.contains_key(id),
        s.next_id < u32::MAX,
    ensures
        ({
            let t = s.rerun(log_dir, id, now);
            let (job, source) = (t.jobs[s.next_id], s.jobs[id]);
            &&& t.jobs.contains_key(s.next_id)
            &&& t.next_id == s.next_id + 1
            &&& same_but_for(s, t, s.next_id)
            &&& job.id == s.next_id
            &&& job.argv == source.argv
            &&& job.label == source.label
            &&& job.cwd == source.cwd
            &&& job.gpus == source.gpus
            &&& job.env == source.env
            &&& job.priority == source.priority
            &&& job.enqueued_at == now
            &&& fresh(job)
        }),
{
}

/// A request takes an id exactly where the ids have gone up after it.
pub proof fn law_ids_are_taken_by_new_jobs_only(
    request: RequestView,
    s: AppStateView,
    gpu: GpuInfo,
    log_dir: Seq<char>,
    now: Timestamp,
)
    requires
        s.next_id < u32::MAX,
    ensures
        daemon::needs_fresh_id(request, s, gpu) <==> daemon::answered(
            request,
            s,
            gpu,
            log_dir,
            now,
        ).0.next_id != s.next_id,
{
}

// ---------------------------------------------------------------------------
// Killing and restarting
// ---------------------------------------------------------------------------

/// The process of a running job is killed, whatever else its record holds, and of no
/// other; the record itself changes once the process has ended.
pub proof fn law_killing_reaches_the_running_process(
    s: AppStateView,
    id: u32,
    gpu: GpuInfo,
    log_dir: Seq<char>,
    now: Timestamp,
)
    ensures
        ({
            let (t, r) = daemon::answered(RequestView::Kill { id }, s, gpu, log_dir, now);
            let runs = s.jobs.contains_key(id) && s.jobs[id].state is Running;
            &&& runs ==> r.kill == seq![id] && t == s && says(
                r,
                "Killed job "@ + text::decimal(id as nat),
            ) && r.persist == Persist::Skip
            &&& !runs ==> r.kill.len() == 0
            &&& r.restart is None
            &&& !r.shutdown
            &&& !r.wake
        }),
{
    lemma_no_tail("Killed job "@ + text::decimal(id as nat));
}

/// A job that waits, queued or paused, is dropped; one that is over stays as it is,
/// and the request is turned down.
pub proof fn law_killing_drops_jobs_that_wait(
    s: AppStateView,
    id: u32,
    gpu: GpuInfo,
    log_dir: Seq<char>,
    now: Timestamp,
)
    requires
        s.jobs.contains_key(id),
    ensures
        ({
            let (t, r) = daemon::answered(RequestView::Kill { id }, s, gpu, log_dir, now);
            let waits = s.jobs[id].state is Queued || s.jobs[id].state is Paused;
            &&& waits ==> {
                &&& t.jobs.contains_key(id)
                &&& t.jobs[id] == (JobView {
                    state: JobState::Killed,
                    finished_at: Some(now),
                    ..s.jobs[id]
                })
                &&& same_but_for(s, t, id)
                &&& t.next_id == s.next_id
                &&& !r.wake
                &&& says(r, "Dequeued job "@ + text::decimal(id as nat))
                &&& r.persist == Persist::Try
                &&& quiet(r)
            }
            &&& !waits && !(s.jobs[id].state is Running) ==> t == s && turned_down(
                r,
                "Job "@ + text::decimal(id as nat) + " is already finished"@,
            )
        }),
{
    lemma_no_tail("Dequeued job "@ + text::decimal(id as nat));
}

/// Killing everything reaches every running process, each by the id that its job
/// carries, and no other; every queued job is dropped, and every other job stays as
/// it is. The answer counts both.
pub proof fn law_killing_everything_reaches_every_process(
    s: AppStateView,
    running: Seq<u32>,
    queued: Seq<u32>,
    gpu: GpuInfo,
    log_dir: Seq<char>,
    now: Timestamp,
)
    requires
        s.jobs.dom().finite(),
        lists_state(s, JobState::Running, running),
        lists_state(s, JobState::Queued, queued),
    ensures
        ({
            let (t, r) = daemon::answered(RequestView::KillAll, s, gpu, log_dir, now);
            &&& r.kill.len() == running.len()
            &&& forall|k: u32| #[trigger]
                s.jobs.contains_key(k) && s.jobs[k].state is Running ==> r.kill.contains(
                    s.jobs[k].id,
                )
            &&& forall|id: u32| #[trigger]
                r.kill.contains(id) ==> exists|k: u32| #[trigger]
                    s.jobs.contains_key(k) && s.jobs[k].state is Running && s.jobs[k].id == id
            &&& same_ids(s, t)
            &&& forall|k: u32| #[trigger]
                s.jobs.contains_key(k) && !(s.jobs[k].state is Queued) ==> t.jobs[k] == s.jobs[k]
            &&& forall|k: u32| #[trigger]
                s.jobs.contains_key(k) && s.jobs[k].state is Queued ==> t.jobs[k] == (JobView {
                    state: JobState::Killed,
                    finished_at: Some(now),
                    ..s.jobs[k]
                })
            &&& says(
                r,
                "Killed "@ + text::decimal(running.len()) + " running and dropped "@
                    + text::decimal(queued.len()) + " queued jobs"@,
            )
            &&& r.persist == Persist::Try
            &&& r.restart is None
            &&& !r.shutdown
            &&& !r.wake
        }),
{
    let (t, r) = daemon::answered(RequestView::KillAll, s, gpu, log_dir, now);
    lemma_count_in_state(s, JobState::Running, running);
    lemma_count_in_state(s, JobState::Queued, queued);
    laws::law_ids_list_every_job_once(s);
    let p = |k: u32| s.jobs[k].state == JobState::Running;
    run_laws::lemma_filtered_ids(s, p);
    let found = s.ids_in(JobState::Running);
    assert(found == s.ids().filter(p));
    assert forall|k: u32| #[trigger]
        s.jobs.contains_key(k) && s.jobs[k].state is Running implies r.kill.contains(
        s.jobs[k].id,
    ) by {
        assert(found.contains(k));
        let i = choose|i: int| 0 <= i < found.len() && found[i] == k;
        assert(r.kill[i] == s.jobs[k].id);
    }
    assert forall|id: u32| #[trigger] r.kill.contains(id) implies exists|k: u32| #[trigger]
        s.jobs.contains_key(k) && s.jobs[k].state is Running && s.jobs[k].id == id by {
        let i = choose|i: int| 0 <= i < r.kill.len() && r.kill[i] == id;
        assert(found.contains(found[i]));
        assert(s.jobs.contains_key(found[i]) && s.jobs[found[i]].state is Running
            && s.jobs[found[i]].id == id);
    }
}

/// What `cancel_all` reports is what killing everything reaches.
pub proof fn law_running_jobs_are_reported_in_order(s: AppStateView, i: int, j: int)
    requires
        laws::found_by_id(s),
        0 <= i < j < s.carried_ids_in(JobState::Running).len(),
    ensures
        s.carried_ids_in(JobState::Running)[i] < s.carried_ids_in(JobState::Running)[j],
{
    laws::law_ids_list_every_job_once(s);
    let p = |k: u32| s.jobs[k].state == JobState::Running;
    run_laws::lemma_filtered_ids(s, p);
    let found = s.ids_in(JobState::Running);
    assert(found == s.ids().filter(p));
    assert(found.contains(found[i]));
    assert(found.contains(found[j]));
    assert(s.has(found[i]) && s.has(found[j]));
}

/// A running job is restarted by stopping its process, and no other; the record
/// changes once the process has ended. Any other job is left alone.
pub proof fn law_restarting_reaches_the_running_process(
    s: AppStateView,
    id: u32,
    gpu: GpuInfo,
    log_dir: Seq<char>,
    now: Timestamp,
)
    requires
        s.jobs.contains_key(id),
    ensures
        ({
            let (t, r) = daemon::answered(RequestView::Restart { id }, s, gpu, log_dir, now);
            &&& t == s
            &&& r.kill.len() == 0
            &&& !r.shutdown
            &&& s.jobs[id].state is Running ==> r.restart == Some(id) && says(
                r,
                "Restarting job "@ + text::decimal(id as nat),
            )
            &&& !(s.jobs[id].state is Running) ==> turned_down(
                r,
                "Job "@ + text::decimal(id as nat)
                    + " is not running; use `rerun` to queue a fresh copy"@,
            )
        }),
{
    lemma_no_tail("Restarting job "@ + text::decimal(id as nat));
}

// ---------------------------------------------------------------------------
// Single jobs
// ---------------------------------------------------------------------------

/// Whether a request is about job `id` alone.
pub open spec fn is_about(request: RequestView, id: u32) -> bool {
    match request {
        RequestView::Info { id: named } => named == id,
        RequestView::Cat { id: named } => named == id,
        RequestView::Kill { id: named } => named == id,
        RequestView::SetPriority { id: named, .. } => named == id,
        RequestView::Rerun { id: named, .. } => named == id,
        RequestView::Restart { id: named } => named == id,
        RequestView::SetLabel { id: named, .. } => named == id,
        RequestView::Remove { id: named } => named == id,
        RequestView::PauseJob { id: named } => named == id,
        RequestView::ResumeJob { id: named } => named == id,
        _ => false,
    }
}

/// A request about a job that is not there is turned down, and says so.
pub proof fn law_missing_jobs_are_named(
    request: RequestView,
    s: AppStateView,
    id: u32,
    gpu: GpuInfo,
    log_dir: Seq<char>,
    now: Timestamp,
)
    requires
        !s.jobs.contains_key(id),
        is_about(request, id),
    ensures
        ({
            let (t, r) = daemon::answered(request, s, gpu, log_dir, now);
            t == s && turned_down(r, "No such job (id "@ + text::decimal(id as nat) + ")"@)
        }),
{
}

/// Asking for jobs changes nothing and gives the jobs as they are: one by its id, its
/// log file, or all of them, each once, in increasing order.
pub proof fn law_asking_gives_the_jobs_as_they_are(
    s: AppStateView,
    id: u32,
    gpu: GpuInfo,
    log_dir: Seq<char>,
    now: Timestamp,
)
    requires
        s.jobs.dom().finite(),
    ensures
        s.jobs.contains_key(id) ==> ({
            let (t, r) = daemon::answered(RequestView::Info { id }, s, gpu, log_dir, now);
            t == s && r.response == ResponseView::Job(s.jobs[id]) && idle(r)
        }),
        s.jobs.contains_key(id) ==> ({
            let (t, r) = daemon::answered(RequestView::Cat { id }, s, gpu, log_dir, now);
            t == s && r.response == ResponseView::LogPath(s.jobs[id].log_path) && idle(r)
        }),
        ({
            let (t, r) = daemon::answered(RequestView::List, s, gpu, log_dir, now);
            &&& t == s
            &&& idle(r)
            &&& r.response matches ResponseView::Jobs(jobs) && lists_jobs(s, jobs)
        }),
{
    law_listings_hold_every_job_once(s);
}

/// The jobs of a queue, each once, in increasing order of the numbers that they are
/// found under.
pub open spec fn lists_jobs(s: AppStateView, jobs: Seq<JobView>) -> bool {
    exists|keys: Seq<u32>|
        {
            &&& #[trigger] keys.len() == jobs.len()
            &&& forall|i: int, j: int| 0 <= i < j < keys.len() ==> keys[i] < keys[j]
            &&& forall|k: u32| #[trigger] keys.contains(k) <==> s.jobs.contains_key(k)
            &&& forall|i: int| 0 <= i < keys.len() ==> jobs[i] == s.jobs[#[trigger] keys[i]]
        }
}

/// A listing holds every job once, in increasing order.
pub proof fn law_listings_hold_every_job_once(s: AppStateView)
    requires
        s.jobs.dom().finite(),
    ensures
        lists_jobs(s, s.listing()),
{
    laws::law_ids_list_every_job_once(s);
    let keys = s.ids();
    assert(keys.len() == s.listing().len());
    assert forall|k: u32| #[trigger] keys.contains(k) <==> s.jobs.contains_key(k) by {
        assert(s.jobs.dom().contains(k) <==> keys.contains(k));
    }
}

/// Only a queued job gets another priority, exactly the one that was asked for, and
/// nothing else of it changes.
pub proof fn law_only_queued_jobs_change_priority(
    s: AppStateView,
    id: u32,
    priority: i32,
    gpu: GpuInfo,
    log_dir: Seq<char>,
    now: Timestamp,
)
    requires
        s.jobs.contains_key(id),
    ensures
        ({
            let (t, r) = daemon::answered(
                RequestView::SetPriority { id, priority },
                s,
                gpu,
                log_dir,
                now,
            );
            &&& s.jobs[id].state is Queued ==> {
                &&& t.jobs.contains_key(id)
                &&& t.jobs[id] == (JobView { priority, ..s.jobs[id] })
                &&& same_but_for(s, t, id)
                &&& t.next_id == s.next_id
                &&& says(
                    r,
                    "Set job "@ + text::decimal(id as nat) + " priority to "@
                        + text::signed_decimal(priority as int),
                )
                &&& r.persist == Persist::Try
                &&& r.wake
                &&& quiet(r)
            }
            &&& !(s.jobs[id].state is Queued) ==> t == s && turned_down(
                r,
                "Job "@ + text::decimal(id as nat)
                    + " is not queued; priority only applies to queued jobs"@,
            )
        }),
{
}

/// Any job gets the label that was asked for; an empty text takes its label away.
pub proof fn law_labels_are_set_as_asked(
    s: AppStateView,
    id: u32,
    label: Seq<char>,
    gpu: GpuInfo,
    log_dir: Seq<char>,
    now: Timestamp,
)
    requires
        s.jobs.contains_key(id),
    ensures
        ({
            let (t, r) = daemon::answered(
                RequestView::SetLabel { id, text: label },
                s,
                gpu,
                log_dir,
                now,
            );
            &&& t.jobs.contains_key(id)
            &&& t.jobs[id] == (JobView {
                label: if label.len() == 0 {
                    None
                } else {
                    Some(label)
                },
                ..s.jobs[id]
            })
            &&& same_but_for(s, t, id)
            &&& t.next_id == s.next_id
            &&& says(
                r,
                if label.len() == 0 {
                    "Cleared job "@ + text::decimal(id as nat) + " label"@
                } else {
                    "Set job "@ + text::decimal(id as nat) + " label to "@ + label
                },
            )
            &&& !r.wake
            &&& r.persist == Persist::Try
            &&& quiet(r)
        }),
{
}

/// A job that does not run is removed, it alone; one that runs stays.
pub proof fn law_removing_takes_one_job_out(
    s: AppStateView,
    id: u32,
    gpu: GpuInfo,
    log_dir: Seq<char>,
    now: Timestamp,
)
    requires
        s.jobs.contains_key(id),
    ensures
        ({
            let (t, r) = daemon::answered(RequestView::Remove { id }, s, gpu, log_dir, now);
            &&& s.jobs[id].state is Running ==> t == s && turned_down(
                r,
                "Job "@ + text::decimal(id as nat) + " is running; use `kill` first"@,
            )
            &&& !(s.jobs[id].state is Running) ==> {
                &&& !t.jobs.contains_key(id)
                &&& same_but_for(s, t, id)
                &&& t.next_id == s.next_id
                &&& !r.wake
                &&& says(r, "Removed job "@ + text::decimal(id as nat))
                &&& r.persist == Persist::ReportRemoval
                &&& quiet(r)
            }
        }),
{
    lemma_no_tail("Removed job "@ + text::decimal(id as nat));
}

/// A queued job is paused and a paused one is resumed, it alone, and nothing else of
/// it changes. In any other state it stays as it is.
pub proof fn law_pausing_and_resuming_move_one_job(
    s: AppStateView,
    id: u32,
    gpu: GpuInfo,
    log_dir: Seq<char>,
    now: Timestamp,
)
    requires
        s.jobs.contains_key(id),
    ensures
        ({
            let (t, r) = daemon::answered(RequestView::PauseJob { id }, s, gpu, log_dir, now);
            &&& s.jobs[id].state is Queued ==> {
                &&& t.jobs.contains_key(id)
                &&& t.jobs[id] == (JobView { state: JobState::Paused, ..s.jobs[id] })
                &&& same_but_for(s, t, id)
                &&& t.next_id == s.next_id
                &&& !r.wake
                &&& says(r, "Paused job "@ + text::decimal(id as nat))
                &&& r.persist == Persist::Try
                &&& quiet(r)
            }
            &&& !(s.jobs[id].state is Queued) ==> t == s && turned_down(
                r,
                "Job "@ + text::decimal(id as nat)
                    + " is not queued; only queued jobs can be paused"@,
            )
        }),
        ({
            let (t, r) = daemon::answered(RequestView::ResumeJob { id }, s, gpu, log_dir, now);
            &&& s.jobs[id].state is Paused ==> {
                &&& t.jobs.contains_key(id)
                &&& t.jobs[id] == (JobView { state: JobState::Queued, ..s.jobs[id] })
                &&& same_but_for(s, t, id)
                &&& t.next_id == s.next_id
                &&& says(r, "Resumed job "@ + text::decimal(id as nat))
                &&& r.persist == Persist::Try
                &&& r.wake
                &&& quiet(r)
            }
            &&& !(s.jobs[id].state is Paused) ==> t == s && turned_down(
                r,
                "Job "@ + text::decimal(id as nat) + " is not paused"@,
            )
        }),
{
    lemma_no_tail("Paused job "@ + text::decimal(id as nat));
    lemma_no_tail("Resumed job "@ + text::decimal(id as nat));
}

// ---------------------------------------------------------------------------
// All jobs
// ---------------------------------------------------------------------------

/// Pausing everything pauses every queued job and resuming everything queues every
/// paused one; nothing else changes, and the answer counts them.
pub proof fn law_pausing_and_resuming_move_every_job(
    s: AppStateView,
    queued: Seq<u32>,
    paused: Seq<u32>,
    gpu: GpuInfo,
    log_dir: Seq<char>,
    now: Timestamp,
)
    requires
        s.jobs.dom().finite(),
        lists_state(s, JobState::Queued, queued),
        lists_state(s, JobState::Paused, paused),
    ensures
        ({
            let (t, r) = daemon::answered(RequestView::PauseAllQueued, s, gpu, log_dir, now);
            &&& same_ids(s, t)
            &&& forall|k: u32| #[trigger]
                s.jobs.contains_key(k) ==> t.jobs[k] == (JobView {
                    state: if s.jobs[k].state is Queued {
                        JobState::Paused
                    } else {
                        s.jobs[k].state
                    },
                    ..s.jobs[k]
                })
            &&& !r.wake
            &&& says(r, "Paused "@ + text::decimal(queued.len()) + " queued jobs"@)
            &&& r.persist == Persist::Try
            &&& quiet(r)
        }),
        ({
            let (t, r) = daemon::answered(RequestView::ResumeAllPaused, s, gpu, log_dir, now);
            &&& same_ids(s, t)
            &&& forall|k: u32| #[trigger]
                s.jobs.contains_key(k) ==> t.jobs[k] == (JobView {
                    state: if s.jobs[k].state is Paused {
                        JobState::Queued
                    } else {
                        s.jobs[k].state
                    },
                    ..s.jobs[k]
                })
            &&& says(r, "Resumed "@ + text::decimal(paused.len()) + " paused jobs"@)
            &&& r.persist == Persist::Try
            &&& r.wake
            &&& quiet(r)
        }),
{
    lemma_count_in_state(s, JobState::Queued, queued);
    lemma_count_in_state(s, JobState::Paused, paused);
}

/// Clearing removes every job that neither waits nor runs, and no other; the answer
/// counts them.
pub proof fn law_clearing_removes_what_is_over(
    s: AppStateView,
    over: Seq<u32>,
    gpu: GpuInfo,
    log_dir: Seq<char>,
    now: Timestamp,
)
    requires
        s.jobs.dom().finite(),
        over.no_duplicates(),
        forall|k: u32| #[trigger]
            over.contains(k) <==> s.jobs.contains_key(k) && !(s.jobs[k].state is Queued)
                && !(s.jobs[k].state is Paused) && !(s.jobs[k].state is Running),
    ensures
        ({
            let (t, r) = daemon::answered(RequestView::Clear, s, gpu, log_dir, now);
            &&& forall|k: u32| #[trigger]
                t.jobs.contains_key(k) <==> s.jobs.contains_key(k) && !over.contains(k)
            &&& forall|k: u32| #[trigger] t.jobs.contains_key(k) ==> t.jobs[k] == s.jobs[k]
            &&& t.next_id == s.next_id
            &&& t.cpu_limit == s.cpu_limit
            &&& !r.wake
            &&& says(r, "Cleared "@ + text::decimal(over.len()) + " finished jobs"@)
            &&& r.persist == Persist::ReportRemoval
            &&& quiet(r)
        }),
{
    laws::law_ids_list_every_job_once(s);
    run_laws::lemma_count(s, |k: u32| s.jobs[k].state.terminal(), over);
}

// ---------------------------------------------------------------------------
// The daemon
// ---------------------------------------------------------------------------

/// Shutting down changes no job and is the only request that stops the daemon.
pub proof fn law_only_a_shutdown_stops_the_daemon(
    request: RequestView,
    s: AppStateView,
    gpu: GpuInfo,
    log_dir: Seq<char>,
    now: Timestamp,
)
    ensures
        daemon::answered(request, s, gpu, log_dir, now).1.shutdown <==> request is Shutdown,
        request is Shutdown ==> daemon::answered(request, s, gpu, log_dir, now).0 == s && says(
            daemon::answered(request, s, gpu, log_dir, now).1,
            "Shutting down"@,
        ),
        daemon::answered(request, s, gpu, log_dir, now).1.kill.len() > 0 ==> request is Kill
            || request is KillAll,
        daemon::answered(request, s, gpu, log_dir, now).1.restart is Some ==> request is Restart,
{
}

/// The limit on CPU jobs is the one that was set last, and asking for it or for the
/// devices changes nothing.
pub proof fn law_the_cpu_limit_is_the_one_that_was_set(
    s: AppStateView,
    limit: Option<u32>,
    gpu: GpuInfo,
    log_dir: Seq<char>,
    now: Timestamp,
)
    ensures
        ({
            let (t, r) = daemon::answered(
                RequestView::SetCpuLimit { limit },
                s,
                gpu,
                log_dir,
                now,
            );
            let (u, answer) = daemon::answered(RequestView::GetCpuLimit, t, gpu, log_dir, now);
            let shown = match limit {
                Some(n) => text::decimal(n as nat),
                None => "unlimited"@,
            };
            &&& t.cpu_limit == limit
            &&& t.jobs == s.jobs
            &&& t.next_id == s.next_id
            &&& says(r, "CPU job limit set to "@ + shown)
            &&& r.persist == Persist::Report
            &&& r.wake
            &&& quiet(r)
            &&& u == t
            &&& says(answer, "CPU job limit: "@ + shown)
            &&& idle(answer)
        }),
        ({
            let (t, r) = daemon::answered(RequestView::GetDevices, s, gpu, log_dir, now);
            &&& t == s
            &&& says(
                r,
                "Detected "@ + text::decimal(gpu.count as nat) + " GPU(s) ("@
                    + gpu.vendor.spec_name() + ")"@,
            )
            &&& idle(r)
        }),
{
}

/// Where the queue could not be written, a new job, a new limit or a removal is
/// answered with the reason, and the scheduler is not woken; any other answer stays.
/// Where it could be written, everything stays.
pub proof fn law_failures_to_save_are_told(r: ReactionView, e: Seq<char>)
    ensures
        daemon::settled(r, None) == r,
        ({
            let told = daemon::settled(r, Some(e));
            &&& r.persist == Persist::Report ==> told.response == ResponseView::Error(
                "persisting state: "@ + e,
            ) && !told.wake
            &&& r.persist == Persist::ReportRemoval ==> told.response == ResponseView::Error(
                "Error saving persisting state: "@ + e,
            ) && !told.wake
            &&& r.persist == Persist::Try || r.persist == Persist::Skip ==> told == r
            &&& told.kill == r.kill
            &&& told.restart == r.restart
            &&& told.shutdown == r.shutdown
            &&& told.persist == r.persist
        }),
{
}

/// What follows from a request looks as it is in every field.
pub proof fn law_the_view_of_a_reaction_holds_every_field(r: Reaction)
    ensures
        r@.response == r.response@,
        r@.persist == r.persist,
        r@.wake == r.wake,
        r@.kill == r.kill@,
        r@.restart == r.restart,
        r@.shutdown == r.shutdown,
{
}

/// What each operation says of a job is where the job stands.
pub proof fn law_outcomes_say_where_a_job_stands(s: AppStateView, id: u32, from: JobState)
    ensures
        s.kill_outcome(id) is NotFound <==> !s.jobs.contains_key(id),
        s.kill_outcome(id) is Running <==> s.jobs.contains_key(id) && s.jobs[id].state is Running,
        s.kill_outcome(id) is Dequeued <==> s.jobs.contains_key(id) && (s.jobs[id].state is Queued
            || s.jobs[id].state is Paused),
        s.remove_outcome(id) is NotFound <==> !s.jobs.contains_key(id),
        s.remove_outcome(id) is Running <==> s.jobs.contains_key(id) && s.jobs[id].state
            is Running,
        s.priority_outcome(id) is NotFound <==> !s.jobs.contains_key(id),
        s.priority_outcome(id) is Updated <==> s.jobs.contains_key(id) && s.jobs[id].state
            is Queued,
        s.restart_outcome(id) is NotFound <==> !s.jobs.contains_key(id),
        s.restart_outcome(id) is Restarting <==> s.jobs.contains_key(id) && s.jobs[id].state
            is Running,
        s.pause_outcome(id, from) is NotFound <==> !s.jobs.contains_key(id),
        s.pause_outcome(id, from) is Done <==> s.jobs.contains_key(id) && s.jobs[id].state == from,
{
}

/// A job is over exactly where it neither waits nor runs.
pub proof fn law_what_neither_waits_nor_runs_is_over(state: JobState)
    ensures
        state.terminal() <==> !(state is Queued) && !(state is Paused) && !(state is Running),
{
}

} // verus!
