//! The commands of `msc`.
use vstd::prelude::*;

verus! {

#[derive(Debug)]
pub struct Cli {
    pub command: Command,
}

#[allow(inconsistent_fields)]
#[derive(Debug)]
pub enum Command {
    /// Add a command to the queue.
    Add {
        /// Optional human-readable label for the job.
        label: Option<String>,
        /// Number of GPUs to reserve for the job (0 = none).
        gpus: u32,
        /// Scheduling priority; higher runs first, ties break by id.
        priority: i32,
        /// The command and its arguments.
        argv: Vec<String>,
    },
    /// List jobs and their state. Shows the jobs that run or wait by default.
    ///
    /// The default view sorts by execution order: running first, then queued
    /// jobs in priority order (highest first). `by_id` sorts by id instead.
    /// The views by `all` and `state` always use id order.
    List {
        /// Show jobs in every state.
        all: bool,
        /// Only show jobs in these states.
        state: Vec<StateFilter>,
        /// Sort by id instead of execution order.
        by_id: bool,
    },
    /// Show full details for a single job.
    Info { id: u32 },
    /// Print the captured output (stdout + stderr) of a job.
    Cat { id: u32 },
    /// Follow a running job's output live.
    ///
    /// Only running jobs can be watched. Without an id, the sole running job is
    /// watched, or the running jobs are listed to choose from.
    Watch {
        id: Option<u32>,
        /// Show the entire log from the beginning before following, instead of
        /// only new output from now on.
        from_start: bool,
    },
    /// Kill one or more running jobs, or drop jobs that are still queued.
    Kill {
        ids: Vec<String>,
        /// Kill every running job and drop every queued one.
        all: bool,
    },
    /// Change the priority of one or more queued jobs. The last argument is the
    /// priority value; all preceding arguments are job ids (ranges accepted).
    Priority { args: Vec<String> },
    /// Re-run one or more jobs: queue a fresh copy at the given priority.
    Rerun { ids: Vec<String>, priority: i32 },
    /// Restart one or more running jobs in place: stop and re-run them.
    Restart { ids: Vec<String> },
    /// Set or change a job's label; an empty text clears it.
    Label { id: u32, label: String },
    /// Pause every queued job, or the ones that are named.
    Pause { ids: Vec<String> },
    /// Resume every paused job, or the ones that are named.
    Resume { ids: Vec<String> },
    /// Remove a finished or queued job from the list.
    Remove { id: u32 },
    /// Remove all finished/killed/failed jobs from the list.
    Clear,
    /// Inspect or control the background daemon (devices, settings, shutdown).
    Daemon { command: DaemonCommand },
    /// Run the background daemon.
    RunDaemon,
}

/// Daemon-level operations. These act on the daemon/host, not a single job.
#[derive(Debug)]
pub enum DaemonCommand {
    /// Show the GPU devices detected by the daemon at startup.
    Devices,
    /// View or change daemon settings.
    Config { setting: ConfigCommand },
    /// Stop the background daemon.
    Shutdown,
}

/// Job states that a listing can be restricted to.
#[derive(Clone, Copy, Debug, PartialEq, Eq, Structural)]
pub enum StateFilter {
    Queued,
    Paused,
    Running,
    Finished,
    Killed,
    Failed,
}

impl StateFilter {
    /// How the filter is written on the command line.
    pub open spec fn word(self) -> Seq<char> {
        match self {
            StateFilter::Queued => "queued"@,
            StateFilter::Paused => "paused"@,
            StateFilter::Running => "running"@,
            StateFilter::Finished => "finished"@,
            StateFilter::Killed => "killed"@,
            StateFilter::Failed => "failed"@,
        }
    }
}

/// Daemon settings.
#[derive(Debug)]
pub enum ConfigCommand {
    /// Get or set how many CPU (non-GPU) jobs may run at once.
    ///
    /// Without a number the current limit is asked for; `0` means unlimited.
    /// GPU jobs are bounded by the GPU pool, not this.
    CpuLimit { limit: Option<u32> },
}

} // verus!
