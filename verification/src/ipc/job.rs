//! A job and the states that it passes through.
use vstd::prelude::*;

use crate::clock::Timestamp;
use crate::text;

verus! {

/// Where a job stands.
#[derive(Debug, Clone, Copy, PartialEq, Eq, Structural)]
pub enum JobState {
    Queued,
    /// Held back: it stays out of the queue until it is resumed.
    Paused,
    Running,
    Finished,
    Killed,
    /// The command could not be started, or the daemon died while it ran.
    Failed,
}

impl JobState {
    /// Whether the job is over for good.
    pub open spec fn terminal(self) -> bool {
        self is Finished || self is Killed || self is Failed
    }

    /// The name of the state.
    pub open spec fn state_name(self) -> Seq<char> {
        match self {
            JobState::Queued => "queued"@,
            JobState::Paused => "paused"@,
            JobState::Running => "running"@,
            JobState::Finished => "finished"@,
            JobState::Killed => "killed"@,
            JobState::Failed => "failed"@,
        }
    }

    pub fn is_terminal(&self) -> (r: bool)
        ensures
            r == self.terminal(),
    {
        matches!(self, JobState::Finished | JobState::Killed | JobState::Failed)
    }

    pub fn as_str(&self) -> (r: &'static str)
        ensures
            r@ == self.state_name(),
    {
        match self {
            JobState::Queued => "queued",
            JobState::Paused => "paused",
            JobState::Running => "running",
            JobState::Finished => "finished",
            JobState::Killed => "killed",
            JobState::Failed => "failed",
        }
    }
}

/// A job as the queue records it.
#[derive(Debug)]
pub struct Job {
    pub id: u32,
    pub argv: Vec<String>,
    pub label: Option<String>,
    pub cwd: String,
    pub state: JobState,
    pub exit_code: Option<i32>,
    pub log_path: String,
    pub enqueued_at: Timestamp,
    pub started_at: Option<Timestamp>,
    pub finished_at: Option<Timestamp>,
    /// Scheduling priority; higher runs first, ties break by id.
    pub priority: i32,
    /// Number of GPUs that the job asks for.
    pub gpus: u32,
    /// GPU indices reserved for the job while it runs.
    pub assigned_gpus: Vec<u32>,
    /// Environment that the job runs under.
    pub env: Vec<(String, String)>,
}

/// What a job is, as a mathematical value.
#[verifier::ext_equal]
pub struct JobView {
    pub id: u32,
    pub argv: Seq<Seq<char>>,
    pub label: Option<Seq<char>>,
    pub cwd: Seq<char>,
    pub state: JobState,
    pub exit_code: Option<i32>,
    pub log_path: Seq<char>,
    pub enqueued_at: Timestamp,
    pub started_at: Option<Timestamp>,
    pub finished_at: Option<Timestamp>,
    pub priority: i32,
    pub gpus: u32,
    pub assigned_gpus: Seq<u32>,
    pub env: Seq<(Seq<char>, Seq<char>)>,
}

impl View for Job {
    type V = JobView;

    open spec fn view(&self) -> JobView {
        JobView {
            id: self.id,
            argv: self.argv.deep_view(),
            label: self.label.deep_view(),
            cwd: self.cwd@,
            state: self.state,
            exit_code: self.exit_code,
            log_path: self.log_path@,
            enqueued_at: self.enqueued_at,
            started_at: self.started_at,
            finished_at: self.finished_at,
            priority: self.priority,
            gpus: self.gpus,
            assigned_gpus: self.assigned_gpus@,
            env: self.env.deep_view(),
        }
    }
}

/// The views of a list of jobs.
pub open spec fn job_views(jobs: Seq<Job>) -> Seq<JobView> {
    jobs.map_values(|j: Job| j@)
}

impl Clone for Job {
    fn clone(&self) -> (r: Self)
        ensures
            r@ == self@,
    {
        Job {
            id: self.id,
            argv: text::copy_texts(&self.argv),
            label: text::copy_optional(&self.label),
            cwd: self.cwd.clone(),
            state: self.state,
            exit_code: self.exit_code,
            log_path: self.log_path.clone(),
            enqueued_at: self.enqueued_at,
            started_at: self.started_at,
            finished_at: self.finished_at,
            priority: self.priority,
            gpus: self.gpus,
            assigned_gpus: text::copy_numbers(&self.assigned_gpus),
            env: text::copy_pairs(&self.env),
        }
    }
}

impl Job {
    /// The command and its arguments, separated by spaces.
    pub fn command_line(&self) -> (r: String)
        ensures
            r@ == text::joined(self@.argv, " "@),
    {
        text::join(&self.argv, " ")
    }
}

} // verus!
