//! The daemon's side: what a request does to the queue, what is answered, and
//! how a job is launched.
use vstd::prelude::*;

use super::job::JobState;
use super::laws;
use super::laws::QueueStep;
use super::protocol::{Request, RequestView, Response, ResponseView};
use super::queue::{AppStateView, RunSpecView};
use super::scheduler::{
    AppState, KillOutcome, PauseOutcome, RemoveOutcome, RestartOutcome, RunResult, RunSpec,
    SetPriorityOutcome,
};
use crate::clock::{utc_now, Timestamp};
use crate::gpu::{GpuInfo, Vendor};
use crate::text;

verus! {

// ---------------------------------------------------------------------------
// Reactions
// ---------------------------------------------------------------------------

/// Whether the queue has to be written to disk, and what it means when that
/// fails.
#[derive(Debug, Clone, Copy, PartialEq, Eq, Structural)]
pub enum Persist {
    /// Nothing changed.
    Skip,
    /// A failure is noted, and the answer stays.
    Try,
    /// A failure becomes the answer.
    Report,
    /// A failure to record that jobs are gone becomes the answer.
    ReportRemoval,
}

/// Everything that follows from one request.
#[derive(Debug)]
pub struct Reaction {
    pub response: Response,
    pub persist: Persist,
    /// Whether the scheduler is to look for jobs that can start now.
    pub wake: bool,
    /// Running jobs whose processes are to be killed.
    pub kill: Vec<u32>,
    /// A running job whose process is to be stopped so that it runs again.
    pub restart: Option<u32>,
    /// Whether the daemon is to exit once the answer is sent.
    pub shutdown: bool,
}

/// Everything that follows from one request, as a mathematical value.
#[verifier::ext_equal]
pub struct ReactionView {
    pub response: ResponseView,
    pub persist: Persist,
    pub wake: bool,
    pub kill: Seq<u32>,
    pub restart: Option<u32>,
    pub shutdown: bool,
}

impl View for Reaction {
    type V = ReactionView;

    open spec fn view(&self) -> ReactionView {
        ReactionView {
            response: self.response@,
            persist: self.persist,
            wake: self.wake,
            kill: self.kill@,
            restart: self.restart,
            shutdown: self.shutdown,
        }
    }
}

/// An answer, with nothing else to do.
pub open spec fn only(response: ResponseView) -> ReactionView {
    ReactionView {
        response,
        persist: Persist::Skip,
        wake: false,
        kill: Seq::empty(),
        restart: None,
        shutdown: false,
    }
}

/// A request that is turned down.
pub open spec fn refused(text: Seq<char>) -> ReactionView {
    only(ResponseView::Error(text))
}

/// A request that was carried out and changed the queue.
pub open spec fn changed(text: Seq<char>, persist: Persist, wake: bool) -> ReactionView {
    ReactionView { persist, wake, ..only(ResponseView::Done(text)) }
}

/// How a missing job is reported.
pub open spec fn no_such_job(id: u32) -> Seq<char> {
    "No such job (id "@ + text::decimal(id as nat) + ")"@
}

/// How a job is named in an answer.
pub open spec fn about_job(before: Seq<char>, id: u32, after: Seq<char>) -> Seq<char> {
    before + text::decimal(id as nat) + after
}

/// How a request for more GPUs than there are is reported.
pub open spec fn too_many_gpus(gpus: u32, count: u32) -> Seq<char> {
    "job requests "@ + text::decimal(gpus as nat) + " GPU(s) but only "@ + text::decimal(
        count as nat,
    ) + " are available"@
}

/// A CPU-job limit in words.
pub open spec fn cpu_limit_text(limit: Option<u32>) -> Seq<char> {
    match limit {
        None => "unlimited"@,
        Some(n) => text::decimal(n as nat),
    }
}

/// The queue after a fresh copy of job `id` was added at the given priority.
pub open spec fn rerun_at_priority(
    s: AppStateView,
    log_dir: Seq<char>,
    id: u32,
    priority: i32,
    now: Timestamp,
) -> AppStateView {
    s.rerun(log_dir, id, now).prioritised(s.next_id, priority)
}

/// Whether a request adds a job to the queue, which takes an id that was not
/// used before.
pub open spec fn needs_fresh_id(request: RequestView, s: AppStateView, gpu: GpuInfo) -> bool {
    match request {
        RequestView::Add { gpus, .. } => gpus <= gpu.count,
        RequestView::Rerun { id, .. } => s.has(id) && s.jobs[id].gpus <= gpu.count,
        _ => false,
    }
}

/// What each request comes to: the queue after it, and everything that
/// follows from it.
pub open spec fn answered(
    request: RequestView,
    s: AppStateView,
    gpu: GpuInfo,
    log_dir: Seq<char>,
    now: Timestamp,
) -> (AppStateView, ReactionView) {
    match request {
        RequestView::Add { argv, label, cwd, gpus, priority, env } => if gpus > gpu.count {
            (s, refused(too_many_gpus(gpus, gpu.count)))
        } else {
            (
                s.added(log_dir, argv, label, cwd, gpus, priority, env, now),
                changed(about_job("Queued job "@, s.next_id, ""@), Persist::Report, true),
            )
        },
        RequestView::List => (s, only(ResponseView::Jobs(s.listing()))),
        RequestView::Info { id } => if s.has(id) {
            (s, only(ResponseView::Job(s.jobs[id])))
        } else {
            (s, refused(no_such_job(id)))
        },
        RequestView::Cat { id } => if s.has(id) {
            (s, only(ResponseView::LogPath(s.jobs[id].log_path)))
        } else {
            (s, refused(no_such_job(id)))
        },
        RequestView::Kill { id } => (
            s.kill_requested(id, now),
            match s.kill_outcome(id) {
                KillOutcome::Running => ReactionView {
                    kill: seq![id],
                    ..only(ResponseView::Done(about_job("Killed job "@, id, ""@)))
                },
                KillOutcome::Dequeued => changed(
                    about_job("Dequeued job "@, id, ""@),
                    Persist::Try,
                    false,
                ),
                KillOutcome::AlreadyDone => refused(about_job("Job "@, id, " is already finished"@)),
                KillOutcome::NotFound => refused(no_such_job(id)),
            },
        ),
        RequestView::KillAll => (
            s.cancelled(now),
            ReactionView {
                kill: s.carried_ids_in(JobState::Running),
                ..changed(
                    "Killed "@ + text::decimal(s.ids_in(JobState::Running).len())
                        + " running and dropped "@ + text::decimal(
                        s.ids_in(JobState::Queued).len(),
                    ) + " queued jobs"@,
                    Persist::Try,
                    false,
                )
            },
        ),
        RequestView::SetPriority { id, priority } => (
            s.prioritised(id, priority),
            match s.priority_outcome(id) {
                SetPriorityOutcome::Updated => changed(
                    about_job("Set job "@, id, " priority to "@) + text::signed_decimal(
                        priority as int,
                    ),
                    Persist::Try,
                    true,
                ),
                SetPriorityOutcome::NotQueued => refused(
                    about_job("Job "@, id, " is not queued; priority only applies to queued jobs"@),
                ),
                SetPriorityOutcome::NotFound => refused(no_such_job(id)),
            },
        ),
        RequestView::Rerun { id, priority } => if !s.has(id) {
            (s, refused(no_such_job(id)))
        } else if s.jobs[id].gpus > gpu.count {
            (s, refused(too_many_gpus(s.jobs[id].gpus, gpu.count)))
        } else {
            (
                rerun_at_priority(s, log_dir, id, priority, now),
                changed(about_job("Queued job "@, s.next_id, ""@), Persist::Report, true),
            )
        },
        RequestView::Restart { id } => (
            s,
            match s.restart_outcome(id) {
                RestartOutcome::Restarting => ReactionView {
                    restart: Some(id),
                    ..only(ResponseView::Done(about_job("Restarting job "@, id, ""@)))
                },
                RestartOutcome::NotRunning => refused(
                    about_job("Job "@, id, " is not running; use `rerun` to queue a fresh copy"@),
                ),
                RestartOutcome::NotFound => refused(no_such_job(id)),
            },
        ),
        RequestView::SetLabel { id, text } => if !s.has(id) {
            (s, refused(no_such_job(id)))
        } else if text.len() == 0 {
            (
                s.labelled(id, None),
                changed(about_job("Cleared job "@, id, " label"@), Persist::Try, false),
            )
        } else {
            (
                s.labelled(id, Some(text)),
                changed(about_job("Set job "@, id, " label to "@) + text, Persist::Try, false),
            )
        },
        RequestView::Remove { id } => (
            s.removed(id),
            match s.remove_outcome(id) {
                RemoveOutcome::Removed => changed(
                    about_job("Removed job "@, id, ""@),
                    Persist::ReportRemoval,
                    false,
                ),
                RemoveOutcome::Running => refused(
                    about_job("Job "@, id, " is running; use `kill` first"@),
                ),
                RemoveOutcome::NotFound => refused(no_such_job(id)),
            },
        ),
        RequestView::Clear => (
            s.cleared(),
            changed(
                "Cleared "@ + text::decimal(s.terminal_ids().len()) + " finished jobs"@,
                Persist::ReportRemoval,
                false,
            ),
        ),
        RequestView::PauseAllQueued => (
            s.moved(JobState::Queued, JobState::Paused, None),
            changed(
                "Paused "@ + text::decimal(s.ids_in(JobState::Queued).len()) + " queued jobs"@,
                Persist::Try,
                false,
            ),
        ),
        RequestView::ResumeAllPaused => (
            s.moved(JobState::Paused, JobState::Queued, None),
            changed(
                "Resumed "@ + text::decimal(s.ids_in(JobState::Paused).len()) + " paused jobs"@,
                Persist::Try,
                true,
            ),
        ),
        RequestView::PauseJob { id } => (
            s.shifted(id, JobState::Queued, JobState::Paused),
            match s.pause_outcome(id, JobState::Queued) {
                PauseOutcome::Done => changed(
                    about_job("Paused job "@, id, ""@),
                    Persist::Try,
                    false,
                ),
                PauseOutcome::WrongState => refused(
                    about_job("Job "@, id, " is not queued; only queued jobs can be paused"@),
                ),
                PauseOutcome::NotFound => refused(no_such_job(id)),
            },
        ),
        RequestView::ResumeJob { id } => (
            s.shifted(id, JobState::Paused, JobState::Queued),
            match s.pause_outcome(id, JobState::Paused) {
                PauseOutcome::Done => changed(
                    about_job("Resumed job "@, id, ""@),
                    Persist::Try,
                    true,
                ),
                PauseOutcome::WrongState => refused(about_job("Job "@, id, " is not paused"@)),
                PauseOutcome::NotFound => refused(no_such_job(id)),
            },
        ),
        RequestView::Shutdown => (
            s,
            ReactionView { shutdown: true, ..only(ResponseView::Done("Shutting down"@)) },
        ),
        RequestView::GetDevices => (
            s,
            only(
                ResponseView::Done(
                    "Detected "@ + text::decimal(gpu.count as nat) + " GPU(s) ("@
                        + gpu.vendor.spec_name() + ")"@,
                ),
            ),
        ),
        RequestView::GetCpuLimit => (
            s,
            only(ResponseView::Done("CPU job limit: "@ + cpu_limit_text(s.cpu_limit))),
        ),
        RequestView::SetCpuLimit { limit } => (
            AppStateView { cpu_limit: limit, ..s },
            changed("CPU job limit set to "@ + cpu_limit_text(limit), Persist::Report, true),
        ),
    }
}

// ---------------------------------------------------------------------------
// Building reactions
// ---------------------------------------------------------------------------

impl Reaction {
    fn only(response: Response) -> (r: Reaction)
        ensures
            r@ == only(response@),
    {
        Reaction {
            response,
            persist: Persist::Skip,
            wake: false,
            kill: Vec::new(),
            restart: None,
            shutdown: false,
        }
    }

    fn refused(text: String) -> (r: Reaction)
        ensures
            r@ == refused(text@),
    {
        Reaction::only(Response::Error(text))
    }

    fn done(text: String) -> (r: Reaction)
        ensures
            r@ == only(ResponseView::Done(text@)),
    {
        Reaction::only(Response::Done(text))
    }

    fn changed(text: String, persist: Persist, wake: bool) -> (r: Reaction)
        ensures
            r@ == changed(text@, persist, wake),
    {
        Reaction {
            response: Response::Done(text),
            persist,
            wake,
            kill: Vec::new(),
            restart: None,
            shutdown: false,
        }
    }

    fn no_such_job(id: u32) -> (r: Reaction)
        ensures
            r@ == refused(no_such_job(id)),
    {
        Reaction::refused(text::around_u32("No such job (id ", id, ")"))
    }
}

/// Human-readable form of a CPU-job limit for command replies.
pub fn describe_cpu_limit(limit: Option<u32>) -> (r: String)
    ensures
        r@ == cpu_limit_text(limit),
{
    match limit {
        None => "unlimited".to_owned(),
        Some(n) => text::u32_text(n),
    }
}

fn too_many_gpus_text(gpus: u32, count: u32) -> (r: String)
    ensures
        r@ == too_many_gpus(gpus, count),
{
    let mut s = text::around_u32("job requests ", gpus, " GPU(s) but only ");
    s.append(text::u32_text(count).as_str());
    s.append(" are available");
    s
}

// ---------------------------------------------------------------------------
// Requests
// ---------------------------------------------------------------------------

/// Whether a request adds a job to the queue, which takes an id that was not
/// used before.
pub fn takes_fresh_id(request: &Request, state: &AppState, gpu: GpuInfo) -> (r: bool)
    ensures
        r == needs_fresh_id(request@, state@, gpu),
{
    match request {
        Request::Add { gpus, .. } => *gpus <= gpu.count,
        Request::Rerun { id, .. } => match state.get(*id) {
            Some(job) => job.gpus <= gpu.count,
            None => false,
        },
        _ => false,
    }
}

/// Carry out a request on the queue as of `now`, and say everything that
/// follows from it. `gpu` is what the host has, and new jobs log to `log_dir`.
pub fn handle_request_at(
    request: Request,
    state: &mut AppState,
    gpu: GpuInfo,
    log_dir: &str,
    now: Timestamp,
) -> (r: Reaction)
    requires
        needs_fresh_id(request@, old(state)@, gpu) ==> old(state)@.next_id < u32::MAX,
    ensures
        (final(state)@, r@) == answered(request@, old(state)@, gpu, log_dir@, now),
{
    match request {
        Request::Add { argv, label, cwd, gpus, priority, env } => {
            // Reject a request for more GPUs than exist, otherwise it would sit
            // in the queue forever (the pool can never satisfy it).
            if gpus > gpu.count {
                return Reaction::refused(too_many_gpus_text(gpus, gpu.count));
            }
            let id = state.add_at(log_dir, argv, label, cwd, gpus, priority, env, now);
            Reaction::changed(text::around_u32("Queued job ", id, ""), Persist::Report, true)
        },
        Request::List => Reaction::only(Response::Jobs(state.list())),
        Request::Info { id } => match state.get(id) {
            Some(job) => Reaction::only(Response::Job(job)),
            None => Reaction::no_such_job(id),
        },
        Request::Cat { id } => match state.get(id) {
            Some(job) => Reaction::only(Response::LogPath(job.log_path)),
            None => Reaction::no_such_job(id),
        },
        Request::Kill { id } => handle_kill(state, id, now),
        Request::KillAll => {
            let outcome = state.cancel_all_at(now);
            let mut message = text::around_usize(
                "Killed ",
                outcome.running.len(),
                " running and dropped ",
            );
            message.append(text::usize_text(outcome.dequeued).as_str());
            message.append(" queued jobs");
            let mut r = Reaction::changed(message, Persist::Try, false);
            r.kill = outcome.running;
            r
        },
        Request::SetPriority { id, priority } => match state.set_priority(id, priority) {
            // A reorder may let a different queued job win the next slot.
            SetPriorityOutcome::Updated => {
                let mut message = text::around_u32("Set job ", id, " priority to ");
                message.append(text::i32_text(priority).as_str());
                Reaction::changed(message, Persist::Try, true)
            },
            SetPriorityOutcome::NotQueued => Reaction::refused(
                text::around_u32(
                    "Job ",
                    id,
                    " is not queued; priority only applies to queued jobs",
                ),
            ),
            SetPriorityOutcome::NotFound => Reaction::no_such_job(id),
        },
        Request::Rerun { id, priority } => handle_rerun(state, id, priority, gpu, log_dir, now),
        Request::Restart { id } => match state.request_restart(id) {
            RestartOutcome::Restarting => {
                let mut r = Reaction::done(text::around_u32("Restarting job ", id, ""));
                r.restart = Some(id);
                r
            },
            RestartOutcome::NotRunning => Reaction::refused(
                text::around_u32(
                    "Job ",
                    id,
                    " is not running; use `rerun` to queue a fresh copy",
                ),
            ),
            RestartOutcome::NotFound => Reaction::no_such_job(id),
        },
        Request::SetLabel { id, text } => handle_set_label(state, id, text),
        Request::Remove { id } => match state.remove(id) {
            RemoveOutcome::Removed => Reaction::changed(
                text::around_u32("Removed job ", id, ""),
                Persist::ReportRemoval,
                false,
            ),
            RemoveOutcome::Running => Reaction::refused(
                text::around_u32("Job ", id, " is running; use `kill` first"),
            ),
            RemoveOutcome::NotFound => Reaction::no_such_job(id),
        },
        Request::Clear => {
            let removed = state.clear_finished();
            Reaction::changed(
                text::around_usize("Cleared ", removed, " finished jobs"),
                Persist::ReportRemoval,
                false,
            )
        },
        Request::PauseAllQueued => {
            let paused = state.pause_all();
            Reaction::changed(
                text::around_usize("Paused ", paused, " queued jobs"),
                Persist::Try,
                false,
            )
        },
        Request::ResumeAllPaused => {
            let resumed = state.resume_all();
            Reaction::changed(
                text::around_usize("Resumed ", resumed, " paused jobs"),
                Persist::Try,
                true,
            )
        },
        Request::PauseJob { id } => match state.pause(id) {
            PauseOutcome::Done => Reaction::changed(
                text::around_u32("Paused job ", id, ""),
                Persist::Try,
                false,
            ),
            PauseOutcome::WrongState => Reaction::refused(
                text::around_u32("Job ", id, " is not queued; only queued jobs can be paused"),
            ),
            PauseOutcome::NotFound => Reaction::no_such_job(id),
        },
        Request::ResumeJob { id } => match state.resume(id) {
            PauseOutcome::Done => Reaction::changed(
                text::around_u32("Resumed job ", id, ""),
                Persist::Try,
                true,
            ),
            PauseOutcome::WrongState => Reaction::refused(
                text::around_u32("Job ", id, " is not paused"),
            ),
            PauseOutcome::NotFound => Reaction::no_such_job(id),
        },
        Request::Shutdown => {
            let mut r = Reaction::done("Shutting down".to_owned());
            r.shutdown = true;
            r
        },
        Request::GetDevices => {
            let mut message = text::around_u32("Detected ", gpu.count, " GPU(s) (");
            message.append(gpu.vendor.name());
            message.append(")");
            Reaction::done(message)
        },
        Request::GetCpuLimit => Reaction::done(
            text::concat("CPU job limit: ", describe_cpu_limit(state.cpu_limit()).as_str()),
        ),
        // Raising the limit may make queued CPU jobs runnable.
        Request::SetCpuLimit { limit } => {
            state.set_cpu_limit(limit);
            Reaction::changed(
                text::concat("CPU job limit set to ", describe_cpu_limit(limit).as_str()),
                Persist::Report,
                true,
            )
        },
    }
}

fn handle_kill(state: &mut AppState, id: u32, now: Timestamp) -> (r: Reaction)
    ensures
        forall|gpu: GpuInfo, log_dir: Seq<char>|
            (final(state)@, r@) == #[trigger] answered(
                RequestView::Kill { id },
                old(state)@,
                gpu,
                log_dir,
                now,
            ),
{
    match state.request_kill_at(id, now) {
        KillOutcome::Running => {
            let mut r = Reaction::done(text::around_u32("Killed job ", id, ""));
            r.kill.push(id);
            assert(r@.kill =~= seq![id]);
            r
        },
        KillOutcome::Dequeued => Reaction::changed(
            text::around_u32("Dequeued job ", id, ""),
            Persist::Try,
            false,
        ),
        KillOutcome::AlreadyDone => Reaction::refused(
            text::around_u32("Job ", id, " is already finished"),
        ),
        KillOutcome::NotFound => Reaction::no_such_job(id),
    }
}

fn handle_rerun(
    state: &mut AppState,
    id: u32,
    priority: i32,
    gpu: GpuInfo,
    log_dir: &str,
    now: Timestamp,
) -> (r: Reaction)
    requires
        needs_fresh_id(RequestView::Rerun { id, priority }, old(state)@, gpu) ==> old(
            state,
        )@.next_id < u32::MAX,
    ensures
        (final(state)@, r@) == answered(
            RequestView::Rerun { id, priority },
            old(state)@,
            gpu,
            log_dir@,
            now,
        ),
{
    let source = match state.get(id) {
        Some(job) => job,
        None => return Reaction::no_such_job(id),
    };
    if source.gpus > gpu.count {
        return Reaction::refused(too_many_gpus_text(source.gpus, gpu.count));
    }
    match state.rerun_at(log_dir, id, now) {
        Some(fresh) => {
            // The fresh copy waits at its own priority, not the source's.
            let _ = state.set_priority(fresh, priority);
            Reaction::changed(text::around_u32("Queued job ", fresh, ""), Persist::Report, true)
        },
        None => Reaction::no_such_job(id),
    }
}

fn handle_set_label(state: &mut AppState, id: u32, label: String) -> (r: Reaction)
    ensures
        forall|gpu: GpuInfo, log_dir: Seq<char>, now: Timestamp|
            (final(state)@, r@) == #[trigger] answered(
                RequestView::SetLabel { id, text: label@ },
                old(state)@,
                gpu,
                log_dir,
                now,
            ),
{
    if label.as_str().unicode_len() == 0 {
        if state.set_label(id, None) {
            Reaction::changed(text::around_u32("Cleared job ", id, " label"), Persist::Try, false)
        } else {
            Reaction::no_such_job(id)
        }
    } else {
        let mut message = text::around_u32("Set job ", id, " label to ");
        message.append(label.as_str());
        if state.set_label(id, Some(label)) {
            Reaction::changed(message, Persist::Try, false)
        } else {
            Reaction::no_such_job(id)
        }
    }
}

/// Like `handle_request_at`, as of the present time.
pub fn handle_request(
    request: Request,
    state: &mut AppState,
    gpu: GpuInfo,
    log_dir: &str,
) -> (r: Reaction)
    requires
        needs_fresh_id(request@, old(state)@, gpu) ==> old(state)@.next_id < u32::MAX,
    ensures
        exists|now: Timestamp|
            now.is_reading() && (final(state)@, r@) == #[trigger] answered(
                request@,
                old(state)@,
                gpu,
                log_dir@,
                now,
            ),
{
    let now = utc_now();
    handle_request_at(request, state, gpu, log_dir, now)
}

/// A reaction once the queue was written to disk, or could not be.
pub open spec fn settled(r: ReactionView, failure: Option<Seq<char>>) -> ReactionView {
    match (failure, r.persist) {
        (Some(e), Persist::Report) => ReactionView {
            response: ResponseView::Error("persisting state: "@ + e),
            wake: false,
            ..r
        },
        (Some(e), Persist::ReportRemoval) => ReactionView {
            response: ResponseView::Error("Error saving persisting state: "@ + e),
            wake: false,
            ..r
        },
        _ => r,
    }
}

/// What remains of a reaction once the queue was written to disk. `failure`
/// says why that failed, if it did: then the answer may become an error, and
/// the scheduler is not woken.
pub fn settle(reaction: Reaction, failure: Option<String>) -> (r: Reaction)
    ensures
        r@ == settled(reaction@, failure.deep_view()),
{
    let mut r = reaction;
    if let Some(e) = failure {
        match r.persist {
            Persist::Report => {
                r.response = Response::Error(text::concat("persisting state: ", e.as_str()));
                r.wake = false;
            },
            Persist::ReportRemoval => {
                r.response = Response::Error(
                    text::concat("Error saving persisting state: ", e.as_str()),
                );
                r.wake = false;
            },
            _ => {},
        }
    }
    r
}

// ---------------------------------------------------------------------------
// Launching
// ---------------------------------------------------------------------------

/// How a job's process is started.
#[derive(Debug)]
pub struct Launch {
    pub program: String,
    pub args: Vec<String>,
    pub cwd: String,
    pub log_path: String,
    /// Whether the process starts without the daemon's own environment.
    pub clear_env: bool,
    /// Variables to set, in order: a later one overrides an earlier one.
    pub env: Vec<(String, String)>,
}

/// How a job's process is started, as a mathematical value.
#[verifier::ext_equal]
pub struct LaunchView {
    pub program: Seq<char>,
    pub args: Seq<Seq<char>>,
    pub cwd: Seq<char>,
    pub log_path: Seq<char>,
    pub clear_env: bool,
    pub env: Seq<(Seq<char>, Seq<char>)>,
}

impl View for Launch {
    type V = LaunchView;

    open spec fn view(&self) -> LaunchView {
        LaunchView {
            program: self.program@,
            args: self.args.deep_view(),
            cwd: self.cwd@,
            log_path: self.log_path@,
            clear_env: self.clear_env,
            env: self.env.deep_view(),
        }
    }
}

/// The indices that a job may see, as the visible-devices variables write them.
pub open spec fn visible_devices(indices: Seq<u32>) -> Seq<char> {
    text::joined(text::decimals(indices), ","@)
}

/// How the process of a job is started on a host with GPUs of a vendor.
///
/// It runs with the environment the client captured at `add` time, so the job
/// sees the user's active shell instead of the daemon's; a job without a
/// snapshot keeps the daemon's environment. The vendor's visible-devices
/// variables come last, so they always win.
pub open spec fn launched(spec: RunSpecView, vendor: Vendor) -> LaunchView {
    LaunchView {
        program: spec.argv[0],
        args: spec.argv.skip(1),
        cwd: spec.cwd,
        log_path: spec.log_path,
        clear_env: spec.env.len() > 0,
        env: spec.env + vendor.device_variables().map_values(
            |name: Seq<char>| (name, visible_devices(spec.assigned_gpus)),
        ),
    }
}

/// How the process of a job is started on a host with GPUs of a vendor.
pub fn launch(spec: &RunSpec, vendor: Vendor) -> (r: Launch)
    requires
        spec.argv@.len() > 0,
    ensures
        r@ == launched(spec@, vendor),
{
    let mut args: Vec<String> = Vec::new();
    for i in 1..spec.argv.len()
        invariant
            1 <= i <= spec.argv@.len(),
            args@ == spec.argv@.subrange(1, i as int),
    {
        args.push(spec.argv[i].clone());
    }
    let visible = text::join_numbers(&spec.assigned_gpus, ",");
    let mut env = text::copy_pairs(&spec.env);
    let names = vendor.visible_devices_env();
    let ghost vars = vendor.device_variables();
    let ghost setting = |name: Seq<char>| (name, visible_devices(spec@.assigned_gpus));
    assert(vars.take(0).map_values(setting) =~= Seq::<(Seq<char>, Seq<char>)>::empty());
    assert(env.deep_view() =~= spec@.env + vars.take(0).map_values(setting));
    for i in 0..names.len()
        invariant
            vars == vendor.device_variables(),
            names@.map_values(|s: &'static str| s@) == vars,
            setting == (|name: Seq<char>| (name, visible_devices(spec@.assigned_gpus))),
            visible@ == visible_devices(spec@.assigned_gpus),
            env.deep_view() == spec@.env + vars.take(i as int).map_values(setting),
    {
        let name = names[i].to_owned();
        assert(name@ == vars[i as int]);
        let ghost before = env.deep_view();
        env.push((name, visible.clone()));
        assert(env.deep_view() =~= before.push((name@, visible@)));
        assert(vars.take(i + 1).map_values(setting) =~= vars.take(i as int).map_values(
            setting,
        ).push(setting(vars[i as int])));
        assert(env.deep_view() =~= spec@.env + vars.take(i + 1).map_values(setting));
    }
    assert(vars.take(vars.len() as int) == vars);
    let r = Launch {
        program: spec.argv[0].clone(),
        args,
        cwd: spec.cwd.clone(),
        log_path: spec.log_path.clone(),
        clear_env: spec.env.len() > 0,
        env,
    };
    assert(r@.args =~= spec@.argv.skip(1));
    r
}

/// How the run of a job came to an end.
#[derive(Debug, Clone, Copy, PartialEq, Eq)]
pub enum RunEnd {
    /// The log file could not be created.
    NoLog,
    /// The command could not be started.
    NotStarted,
    /// The process ended by itself, with an exit code if it has one.
    Exited(Option<i32>),
    /// The process was started but could not be waited for.
    Lost,
    /// The process was stopped for good.
    Killed,
    /// The process was stopped so that the job runs again.
    Restarted,
}

/// What the queue records of the end of a run.
pub open spec fn recorded(end: RunEnd) -> RunResult {
    match end {
        RunEnd::NoLog => RunResult::SpawnFailed,
        RunEnd::NotStarted => RunResult::SpawnFailed,
        RunEnd::Exited(code) => RunResult::Exited(code),
        RunEnd::Lost => RunResult::SpawnFailed,
        RunEnd::Killed => RunResult::Killed,
        RunEnd::Restarted => RunResult::Restarted,
    }
}

/// What the queue records of the end of a run.
pub fn run_result(end: RunEnd) -> (r: RunResult)
    ensures
        r == recorded(end),
{
    match end {
        RunEnd::NoLog | RunEnd::NotStarted | RunEnd::Lost => RunResult::SpawnFailed,
        RunEnd::Exited(code) => RunResult::Exited(code),
        RunEnd::Killed => RunResult::Killed,
        RunEnd::Restarted => RunResult::Restarted,
    }
}

// ---------------------------------------------------------------------------
// Laws
// ---------------------------------------------------------------------------

/// A request that is turned down changes nothing: not the queue, not the disk,
/// not any running job.
pub proof fn law_refused_requests_change_nothing(
    request: RequestView,
    s: AppStateView,
    gpu: GpuInfo,
    log_dir: Seq<char>,
    now: Timestamp,
)
    requires
        answered(request, s, gpu, log_dir, now).1.response is Error,
    ensures
        answered(request, s, gpu, log_dir, now).0 == s,
        answered(request, s, gpu, log_dir, now).1 == only(
            answered(request, s, gpu, log_dir, now).1.response,
        ),
{
    let (t, r) = answered(request, s, gpu, log_dir, now);
    match request {
        RequestView::Add { .. } => assert(t == s && r == only(r.response)),
        RequestView::Info { .. } | RequestView::Cat { .. } => assert(t == s && r == only(
            r.response,
        )),
        RequestView::Kill { .. } => assert(t == s && r == only(r.response)),
        RequestView::SetPriority { .. } => assert(t == s && r == only(r.response)),
        RequestView::Rerun { .. } => assert(t == s && r == only(r.response)),
        RequestView::Restart { .. } => assert(t == s && r == only(r.response)),
        RequestView::SetLabel { .. } => assert(t == s && r == only(r.response)),
        RequestView::Remove { .. } => assert(t == s && r == only(r.response)),
        RequestView::PauseJob { .. } => assert(t == s && r == only(r.response)),
        RequestView::ResumeJob { .. } => assert(t == s && r == only(r.response)),
        _ => assert(false),
    }
}

/// Whenever the queue changed, it is written to disk.
pub proof fn law_changes_are_persisted(
    request: RequestView,
    s: AppStateView,
    gpu: GpuInfo,
    log_dir: Seq<char>,
    now: Timestamp,
)
    requires
        answered(request, s, gpu, log_dir, now).0 != s,
    ensures
        answered(request, s, gpu, log_dir, now).1.persist != Persist::Skip,
{
}

/// A job that asks for more GPUs than the host has is not let in, so every job
/// that waits could run if it had the pool to itself.
pub open spec fn waiting_jobs_fit_the_pool(s: AppStateView, gpu_total: u32) -> bool {
    forall|k: u32| #[trigger]
        s.has(k) && !s.jobs[k].state.terminal() ==> s.jobs[k].gpus <= gpu_total
}

/// Where each job that waits asks for what it asked for before, or fits the
/// pool, all jobs that wait fit.
proof fn lemma_no_new_demand(s: AppStateView, t: AppStateView, gpu_total: u32)
    requires
        waiting_jobs_fit_the_pool(s, gpu_total),
        forall|k: u32| #[trigger]
            t.has(k) && !t.jobs[k].state.terminal() ==> t.jobs[k].gpus <= gpu_total || (s.has(k)
                && !s.jobs[k].state.terminal() && t.jobs[k].gpus == s.jobs[k].gpus),
    ensures
        waiting_jobs_fit_the_pool(t, gpu_total),
{
}

/// No request lets in a job that the pool could never satisfy.
pub proof fn law_requests_keep_waiting_jobs_runnable(
    request: RequestView,
    s: AppStateView,
    gpu: GpuInfo,
    log_dir: Seq<char>,
    now: Timestamp,
)
    requires
        waiting_jobs_fit_the_pool(s, gpu.count),
    ensures
        waiting_jobs_fit_the_pool(answered(request, s, gpu, log_dir, now).0, gpu.count),
{
    let t = answered(request, s, gpu, log_dir, now).0;
    match request {
        RequestView::Add { .. } => lemma_no_new_demand(s, t, gpu.count),
        RequestView::Kill { .. } => lemma_no_new_demand(s, t, gpu.count),
        RequestView::KillAll => lemma_no_new_demand(s, t, gpu.count),
        RequestView::SetPriority { .. } => lemma_no_new_demand(s, t, gpu.count),
        RequestView::Rerun { id, .. } => {
            assert(s.has(id) ==> t == s || t.jobs[s.next_id].gpus == s.jobs[id].gpus);
            lemma_no_new_demand(s, t, gpu.count);
        },
        RequestView::SetLabel { .. } => lemma_no_new_demand(s, t, gpu.count),
        RequestView::Remove { .. } => lemma_no_new_demand(s, t, gpu.count),
        RequestView::Clear => lemma_no_new_demand(s, t, gpu.count),
        RequestView::PauseAllQueued => lemma_no_new_demand(s, t, gpu.count),
        RequestView::ResumeAllPaused => lemma_no_new_demand(s, t, gpu.count),
        RequestView::PauseJob { .. } => lemma_no_new_demand(s, t, gpu.count),
        RequestView::ResumeJob { .. } => lemma_no_new_demand(s, t, gpu.count),
        RequestView::SetCpuLimit { .. } => lemma_no_new_demand(s, t, gpu.count),
        _ => assert(t == s),
    }
}

/// The steps that a request takes on the queue.
pub open spec fn steps_of(
    request: RequestView,
    s: AppStateView,
    gpu: GpuInfo,
    log_dir: Seq<char>,
    now: Timestamp,
) -> Seq<QueueStep> {
    match request {
        RequestView::Add { argv, label, cwd, gpus, priority, env } => if gpus > gpu.count {
            Seq::empty()
        } else {
            seq![QueueStep::Add { log_dir, argv, label, cwd, gpus, priority, env, now }]
        },
        RequestView::Kill { id } => seq![QueueStep::Kill { id, now }],
        RequestView::KillAll => seq![QueueStep::CancelAll { now }],
        RequestView::SetPriority { id, priority } => seq![QueueStep::SetPriority { id, priority }],
        RequestView::Rerun { id, priority } => if needs_fresh_id(request, s, gpu) {
            seq![
                QueueStep::Rerun { log_dir, id, now },
                QueueStep::SetPriority { id: s.next_id, priority },
            ]
        } else {
            Seq::empty()
        },
        RequestView::SetLabel { id, text } => seq![
            QueueStep::SetLabel {
                id,
                label: if text.len() == 0 {
                    None
                } else {
                    Some(text)
                },
            },
        ],
        RequestView::Remove { id } => seq![QueueStep::Remove { id }],
        RequestView::Clear => seq![QueueStep::Clear],
        RequestView::PauseAllQueued => seq![QueueStep::PauseAll],
        RequestView::ResumeAllPaused => seq![QueueStep::ResumeAll],
        RequestView::PauseJob { id } => seq![QueueStep::Pause { id }],
        RequestView::ResumeJob { id } => seq![QueueStep::Resume { id }],
        RequestView::SetCpuLimit { limit } => seq![QueueStep::SetCpuLimit { limit }],
        _ => Seq::empty(),
    }
}

/// One step is a history.
proof fn lemma_one_step(s: AppStateView, step: QueueStep, gpu_total: u32)
    requires
        step.enabled(s, gpu_total),
    ensures
        laws::history_enabled(s, seq![step], gpu_total),
        laws::history_end(s, seq![step], gpu_total) == step.after(s, gpu_total),
{
    let steps = seq![step];
    assert(steps.drop_last() == Seq::<QueueStep>::empty());
    assert(laws::history_end(s, steps.drop_last(), gpu_total) == s);
    assert(laws::history_enabled(s, steps.drop_last(), gpu_total));
    assert(steps.last() == step);
}

/// What a request does to the queue is a history of its steps. So what every
/// step keeps, every request keeps.
pub proof fn law_requests_are_histories(
    request: RequestView,
    s: AppStateView,
    gpu: GpuInfo,
    log_dir: Seq<char>,
    now: Timestamp,
)
    requires
        needs_fresh_id(request, s, gpu) ==> s.next_id < u32::MAX,
    ensures
        laws::history_enabled(s, steps_of(request, s, gpu, log_dir, now), gpu.count),
        laws::history_end(s, steps_of(request, s, gpu, log_dir, now), gpu.count) == answered(
            request,
            s,
            gpu,
            log_dir,
            now,
        ).0,
{
    let steps = steps_of(request, s, gpu, log_dir, now);
    if steps.len() == 1 {
        assert(steps == seq![steps[0]]);
        assert(steps[0].enabled(s, gpu.count));
        lemma_one_step(s, steps[0], gpu.count);
    } else if steps.len() == 2 {
        let first = steps[0];
        lemma_one_step(s, first, gpu.count);
        assert(steps.drop_last() == seq![first]);
        assert(steps.last().enabled(first.after(s, gpu.count), gpu.count));
    }
}

/// Every request keeps the queue well formed and its reservations sound.
pub proof fn law_requests_keep_the_queue_sound(
    request: RequestView,
    s: AppStateView,
    gpu: GpuInfo,
    log_dir: Seq<char>,
    now: Timestamp,
)
    requires
        laws::well_formed(s),
        laws::gpus_sound(s, gpu.count),
        needs_fresh_id(request, s, gpu) ==> s.next_id < u32::MAX,
    ensures
        laws::well_formed(answered(request, s, gpu, log_dir, now).0),
        laws::gpus_sound(answered(request, s, gpu, log_dir, now).0, gpu.count),
{
    let steps = steps_of(request, s, gpu, log_dir, now);
    law_requests_are_histories(request, s, gpu, log_dir, now);
    laws::law_histories_keep_well_formed(s, steps, gpu.count);
    laws::law_histories_keep_gpus_sound(s, steps, gpu.count);
}

/// `t` runs what `s` runs, and nothing waits in `t` that does not wait in `s`.
spec fn nothing_new_waits(s: AppStateView, t: AppStateView) -> bool {
    &&& s.cpu_limit == t.cpu_limit
    &&& forall|k: u32|
        #![trigger s.in_state(k, JobState::Running)]
        #![trigger t.in_state(k, JobState::Running)]
        s.in_state(k, JobState::Running) == t.in_state(k, JobState::Running) && (s.in_state(
            k,
            JobState::Running,
        ) ==> s.jobs[k].gpus == t.jobs[k].gpus && s.jobs[k].assigned_gpus
            == t.jobs[k].assigned_gpus)
    &&& forall|k: u32| #[trigger]
        t.in_state(k, JobState::Queued) ==> s.in_state(k, JobState::Queued) && s.jobs[k].gpus
            == t.jobs[k].gpus
}

/// No queued job is left stranded: where nothing fitted before a request and
/// something fits after it, the scheduler is woken.
pub proof fn law_requests_wake_the_scheduler(
    request: RequestView,
    s: AppStateView,
    gpu: GpuInfo,
    log_dir: Seq<char>,
    now: Timestamp,
    id: u32,
)
    requires
        laws::well_formed(s),
        needs_fresh_id(request, s, gpu) ==> s.next_id < u32::MAX,
        forall|k: u32| !#[trigger] s.fits(gpu.count, k),
        answered(request, s, gpu, log_dir, now).0.fits(gpu.count, id),
    ensures
        answered(request, s, gpu, log_dir, now).1.wake,
{
    let (t, r) = answered(request, s, gpu, log_dir, now);
    if !r.wake {
        match request {
            RequestView::Kill { .. } => assert(nothing_new_waits(s, t)),
            RequestView::KillAll => assert(nothing_new_waits(s, t)),
            RequestView::SetLabel { .. } => assert(nothing_new_waits(s, t)),
            RequestView::Remove { .. } => assert(nothing_new_waits(s, t)),
            RequestView::Clear => assert(nothing_new_waits(s, t)),
            RequestView::PauseAllQueued => assert(nothing_new_waits(s, t)),
            RequestView::PauseJob { .. } => assert(nothing_new_waits(s, t)),
            _ => assert(t == s),
        }
        law_requests_are_histories(request, s, gpu, log_dir, now);
        laws::law_histories_keep_well_formed(
            s,
            steps_of(request, s, gpu, log_dir, now),
            gpu.count,
        );
        laws::law_fitting_depends_on_what_runs(s, t, gpu.count, id);
        assert(s.fits(gpu.count, id));
    }
}

/// While nothing runs, every queued job that the pool could ever satisfy fits,
/// unless CPU jobs are not allowed to run at all.
pub proof fn law_an_idle_host_starts_something(s: AppStateView, gpu_total: u32, id: u32)
    requires
        waiting_jobs_fit_the_pool(s, gpu_total),
        forall|k: u32| !#[trigger] s.in_state(k, JobState::Running),
        s.in_state(id, JobState::Queued),
        s.cpu_limit != Some(0u32),
    ensures
        s.fits(gpu_total, id),
{
    assert(s.has(id));
    assert forall|x: u32| !#[trigger] s.held(x) by {
        if s.held(x) {
            let k = choose|k: u32| #[trigger] s.holds(k, x);
            assert(s.in_state(k, JobState::Running));
        }
    }
    lemma_all_pass(
        Seq::new(gpu_total as nat, |i: int| i as u32),
        |i: u32| !s.held(i),
    );
    lemma_none_pass(s.ids(), |k: u32| s.runs_on_cpu(k));
}

proof fn lemma_all_pass(q: Seq<u32>, p: spec_fn(u32) -> bool)
    requires
        forall|x: u32| #[trigger] p(x),
    ensures
        q.filter(p) == q,
    decreases q.len(),
{
    reveal(Seq::filter);
    if q.len() > 0 {
        lemma_all_pass(q.drop_last(), p);
        assert(p(q.last()));
        assert(q.drop_last().push(q.last()) == q);
    }
}

proof fn lemma_none_pass(q: Seq<u32>, p: spec_fn(u32) -> bool)
    requires
        forall|x: u32| !#[trigger] p(x),
    ensures
        q.filter(p).len() == 0,
    decreases q.len(),
{
    reveal(Seq::filter);
    if q.len() > 0 {
        lemma_none_pass(q.drop_last(), p);
        assert(!p(q.last()));
    }
}

/// The value that a variable has once all settings were made, in order.
pub open spec fn last_setting(env: Seq<(Seq<char>, Seq<char>)>, name: Seq<char>) -> Option<
    Seq<char>,
>
    decreases env.len(),
{
    if env.len() == 0 {
        None
    } else if env.last().0 == name {
        Some(env.last().1)
    } else {
        last_setting(env.drop_last(), name)
    }
}

proof fn lemma_last_setting_of_tail(
    head: Seq<(Seq<char>, Seq<char>)>,
    names: Seq<Seq<char>>,
    value: Seq<char>,
    name: Seq<char>,
)
    ensures
        last_setting(head + names.map_values(|n: Seq<char>| (n, value)), name) == (
        if names.contains(name) {
            Some(value)
        } else {
            last_setting(head, name)
        }),
    decreases names.len(),
{
    let f = |n: Seq<char>| (n, value);
    let all = head + names.map_values(f);
    if names.len() == 0 {
        assert(all == head);
    } else {
        let init = names.drop_last();
        lemma_last_setting_of_tail(head, init, value, name);
        assert(all.drop_last() == head + init.map_values(f));
        assert(all.last() == (names.last(), value));
        if names.last() == name {
            assert(names[names.len() - 1] == name);
        } else if names.contains(name) {
            let i = choose|i: int| 0 <= i < names.len() && names[i] == name;
            assert(init[i] == name);
        } else if init.contains(name) {
            let i = choose|i: int| 0 <= i < init.len() && init[i] == name;
            assert(names[i] == name);
        }
    }
}

/// A job sees exactly the GPUs that it was assigned: each of the vendor's
/// visible-devices variables lists them, whatever the captured environment
/// says. Every other variable has the value that was captured.
pub proof fn law_jobs_see_their_gpus_only(spec: RunSpecView, vendor: Vendor, name: Seq<char>)
    ensures
        vendor.device_variables().contains(name) ==> last_setting(
            launched(spec, vendor).env,
            name,
        ) == Some(visible_devices(spec.assigned_gpus)),
        !vendor.device_variables().contains(name) ==> last_setting(
            launched(spec, vendor).env,
            name,
        ) == last_setting(spec.env, name),
{
    lemma_last_setting_of_tail(
        spec.env,
        vendor.device_variables(),
        visible_devices(spec.assigned_gpus),
        name,
    );
}

} // verus!
