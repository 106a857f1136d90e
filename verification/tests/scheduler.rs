use mochi_scheduler::clock::Timestamp;
use mochi_scheduler::ipc::job::{Job, JobState};
use mochi_scheduler::ipc::scheduler::{
    AppState, KillOutcome, PauseOutcome, RemoveOutcome, RestartOutcome, RunResult,
    SetPriorityOutcome, StoredState,
};

/// `add` only joins the log dir into a path; it never touches the filesystem,
/// so an arbitrary placeholder is fine for the in-memory tests.
fn log_dir() -> String {
    "logs".to_string()
}

fn enqueue(state: &mut AppState, argv: &str) -> u32 {
    enqueue_gpu(state, argv, 0)
}

fn enqueue_gpu(state: &mut AppState, argv: &str, gpus: u32) -> u32 {
    state.add(
        &log_dir(),
        vec![argv.to_string()],
        None,
        ".".to_string(),
        gpus,
        0,
        Vec::new(),
    )
}

fn enqueue_prio(state: &mut AppState, argv: &str, priority: i32) -> u32 {
    state.add(
        &log_dir(),
        vec![argv.to_string()],
        None,
        ".".to_string(),
        0,
        priority,
        Vec::new(),
    )
}

#[test]
fn add_assigns_sequential_ids_and_queues() {
    let mut s = AppState::default();
    let id0 = s.add(
        &log_dir(),
        vec!["echo".into(), "hi".into()],
        None,
        ".".into(),
        0,
        0,
        Vec::new(),
    );
    let id1 = s.add(
        &log_dir(),
        vec!["ls".into()],
        Some("list".into()),
        ".".into(),
        0,
        0,
        Vec::new(),
    );

    assert_eq!((id0, id1), (0, 1));
    let j0 = s.get(0).unwrap();
    assert_eq!(j0.state, JobState::Queued);
    assert_eq!(j0.log_path, std::path::Path::new("logs").join("0.log").to_string_lossy());
    assert_eq!(s.get(1).unwrap().label.as_deref(), Some("list"));
}

#[test]
fn take_next_runnable_picks_lowest_id_and_marks_running() {
    let mut s = AppState::default();
    enqueue(&mut s, "a");
    enqueue(&mut s, "b");

    let spec = s.take_next_runnable(0).unwrap();
    assert_eq!(spec.id, 0);
    let j0 = s.get(0).unwrap();
    assert_eq!(j0.state, JobState::Running);
    assert!(j0.started_at.is_some());

    assert_eq!(s.take_next_runnable(0).unwrap().id, 1);
    assert!(s.take_next_runnable(0).is_none());
}

#[test]
fn finish_sets_state_per_result() {
    let mut s = AppState::default();
    enqueue(&mut s, "a");
    enqueue(&mut s, "b");
    enqueue(&mut s, "c");
    s.take_next_runnable(0);
    s.take_next_runnable(0);
    s.take_next_runnable(0);

    s.finish(0, RunResult::Exited(Some(3)));
    s.finish(1, RunResult::Killed);
    s.finish(2, RunResult::SpawnFailed);

    let j0 = s.get(0).unwrap();
    assert_eq!(j0.state, JobState::Finished);
    assert_eq!(j0.exit_code, Some(3));
    assert!(j0.finished_at.is_some());
    assert_eq!(s.get(1).unwrap().state, JobState::Killed);
    assert_eq!(s.get(2).unwrap().state, JobState::Failed);
}

#[test]
fn request_kill_covers_every_outcome() {
    let mut s = AppState::default();
    enqueue(&mut s, "a"); // 0
    enqueue(&mut s, "b"); // 1

    // A queued job is dropped immediately and marked killed.
    assert!(matches!(s.request_kill(0), KillOutcome::Dequeued));
    assert_eq!(s.get(0).unwrap().state, JobState::Killed);

    // A running job needs the daemon to signal its kill switch.
    s.take_next_runnable(0); // picks id 1, since 0 is terminal
    assert!(matches!(s.request_kill(1), KillOutcome::Running));

    s.finish(1, RunResult::Exited(Some(0)));
    assert!(matches!(s.request_kill(1), KillOutcome::AlreadyDone));
    assert!(matches!(s.request_kill(99), KillOutcome::NotFound));
}

#[test]
fn remove_covers_every_outcome() {
    let mut s = AppState::default();
    enqueue(&mut s, "a");
    s.take_next_runnable(0); // 0 running

    assert!(matches!(s.remove(0), RemoveOutcome::Running));
    s.finish(0, RunResult::Exited(Some(0)));
    assert!(matches!(s.remove(0), RemoveOutcome::Removed));
    assert!(s.get(0).is_none());
    assert!(matches!(s.remove(0), RemoveOutcome::NotFound));
}

#[test]
fn clear_finished_keeps_running_and_queued() {
    let mut s = AppState::default();
    enqueue(&mut s, "a"); // 0
    enqueue(&mut s, "b"); // 1
    enqueue(&mut s, "c"); // 2
    s.take_next_runnable(0); // 0 running
    s.finish(0, RunResult::Exited(Some(0))); // 0 finished
    s.take_next_runnable(0); // 1 running, left running

    assert_eq!(s.clear_finished(), 1);
    assert!(s.get(0).is_none()); // terminal -> removed
    assert!(s.get(1).is_some()); // running -> kept
    assert!(s.get(2).is_some()); // queued -> kept
}

#[test]
fn save_then_load_preserves_jobs_and_next_id() {
    let mut s = AppState::default();
    s.add(
        &log_dir(),
        vec!["echo".into(), "hi".into()],
        Some("greet".into()),
        ".".into(),
        0,
        0,
        Vec::new(),
    );
    let stored = s.save();

    let mut loaded = AppState::load(Some(stored));
    assert_eq!(loaded.get(0).unwrap().label.as_deref(), Some("greet"));
    // next_id is persisted, so a fresh add keeps climbing instead of reusing 0.
    assert_eq!(enqueue(&mut loaded, "next"), 1);
}

#[test]
fn load_reconciles_running_jobs_to_failed() {
    let mut s = AppState::default();
    enqueue(&mut s, "a");
    s.take_next_runnable(0); // 0 running when the daemon "dies"
    let stored = s.save();

    let loaded = AppState::load(Some(stored));
    let j = loaded.get(0).unwrap();
    assert_eq!(j.state, JobState::Failed);
    assert!(j.finished_at.is_some());
}

#[test]
fn load_missing_file_yields_empty_state() {
    let s = AppState::load(None);
    assert!(s.list().is_empty());
}

#[test]
fn gpu_jobs_run_concurrently_until_pool_is_exhausted() {
    let mut s = AppState::default();
    enqueue_gpu(&mut s, "a", 1); // 0
    enqueue_gpu(&mut s, "b", 1); // 1
    enqueue_gpu(&mut s, "c", 1); // 2

    // Pool of 2: the first two each grab a distinct GPU.
    let a = s.take_next_runnable(2).unwrap();
    let b = s.take_next_runnable(2).unwrap();
    assert_eq!(a.assigned_gpus, vec![0]);
    assert_eq!(b.assigned_gpus, vec![1]);
    // Pool is full, so the third job stays queued.
    assert!(s.take_next_runnable(2).is_none());
    assert_eq!(s.get(2).unwrap().state, JobState::Queued);

    // Finishing one releases its GPU, which the waiting job then reuses.
    s.finish(0, RunResult::Exited(Some(0)));
    let c = s.take_next_runnable(2).unwrap();
    assert_eq!(c.id, 2);
    assert_eq!(c.assigned_gpus, vec![0]);
}

#[test]
fn multi_gpu_job_reserves_contiguous_lowest_indices() {
    let mut s = AppState::default();
    enqueue_gpu(&mut s, "big", 3);
    let spec = s.take_next_runnable(4).unwrap();
    assert_eq!(spec.assigned_gpus, vec![0, 1, 2]);
    assert_eq!(s.get(0).unwrap().assigned_gpus, vec![0, 1, 2]);
}

#[test]
fn backfill_runs_smaller_job_ahead_of_a_blocked_larger_one() {
    let mut s = AppState::default();
    enqueue_gpu(&mut s, "needs-two", 2); // 0, won't fit in 1 free GPU
    enqueue_gpu(&mut s, "needs-one", 1); // 1, fits
    enqueue(&mut s, "no-gpu"); // 2, always fits

    // Only 1 GPU total: job 0 is skipped, job 1 takes the GPU.
    let first = s.take_next_runnable(1).unwrap();
    assert_eq!(first.id, 1);
    assert_eq!(first.assigned_gpus, vec![0]);

    // The 0-GPU job still runs even though job 0 is blocked.
    let second = s.take_next_runnable(1).unwrap();
    assert_eq!(second.id, 2);
    assert!(second.assigned_gpus.is_empty());

    // Job 0 remains queued, waiting for the GPU to free up.
    assert!(s.take_next_runnable(1).is_none());
    assert_eq!(s.get(0).unwrap().state, JobState::Queued);
}

#[test]
fn captured_env_flows_through_to_the_run_spec() {
    let mut s = AppState::default();
    let env = vec![("PATH".to_string(), "/pixi/bin".to_string())];
    s.add(
        &log_dir(),
        vec!["python".into()],
        None,
        ".".into(),
        0,
        0,
        env.clone(),
    );

    let spec = s.take_next_runnable(0).unwrap();
    assert_eq!(spec.env, env);
}

#[test]
fn finish_releases_gpus_back_into_the_pool() {
    let mut s = AppState::default();
    enqueue_gpu(&mut s, "a", 2);
    s.take_next_runnable(2);
    assert!(s.get(0).unwrap().assigned_gpus == vec![0, 1]);

    s.finish(0, RunResult::Exited(Some(0)));
    assert!(s.get(0).unwrap().assigned_gpus.is_empty());
    // Both GPUs are free again for a fresh job.
    let id = enqueue_gpu(&mut s, "b", 2);
    let spec = s.take_next_runnable(2).unwrap();
    assert_eq!(spec.id, id);
    assert_eq!(spec.assigned_gpus, vec![0, 1]);
}

#[test]
fn cpu_limit_caps_concurrent_cpu_jobs() {
    let mut s = AppState::default();
    s.set_cpu_limit(Some(2));
    enqueue(&mut s, "a"); // 0
    enqueue(&mut s, "b"); // 1
    enqueue(&mut s, "c"); // 2

    assert_eq!(s.take_next_runnable(0).unwrap().id, 0);
    assert_eq!(s.take_next_runnable(0).unwrap().id, 1);
    // Limit of 2 reached, so the third stays queued.
    assert!(s.take_next_runnable(0).is_none());
    assert_eq!(s.get(2).unwrap().state, JobState::Queued);

    // Finishing one frees a CPU slot for the waiting job.
    s.finish(0, RunResult::Exited(Some(0)));
    assert_eq!(s.take_next_runnable(0).unwrap().id, 2);
}

#[test]
fn cpu_limit_does_not_throttle_gpu_jobs() {
    let mut s = AppState::default();
    s.set_cpu_limit(Some(1));
    enqueue_gpu(&mut s, "cpu", 0); // 0
    enqueue_gpu(&mut s, "g1", 1); // 1
    enqueue_gpu(&mut s, "g2", 1); // 2

    // One CPU job runs (limit 1); GPU jobs run per the GPU pool regardless.
    assert_eq!(s.take_next_runnable(2).unwrap().id, 0);
    assert_eq!(s.take_next_runnable(2).unwrap().id, 1);
    assert_eq!(s.take_next_runnable(2).unwrap().id, 2);
    assert!(s.take_next_runnable(2).is_none());
}

#[test]
fn higher_priority_job_runs_first_even_if_queued_later() {
    let mut s = AppState::default();
    enqueue(&mut s, "low"); // 0, priority 0
    enqueue_prio(&mut s, "high", 5); // 1, jumps ahead
    enqueue_prio(&mut s, "mid", 1); // 2

    assert_eq!(s.take_next_runnable(0).unwrap().id, 1); // highest priority
    assert_eq!(s.take_next_runnable(0).unwrap().id, 2); // next highest
    assert_eq!(s.take_next_runnable(0).unwrap().id, 0); // default priority last
}

#[test]
fn equal_priority_breaks_ties_by_id() {
    let mut s = AppState::default();
    enqueue_prio(&mut s, "a", 3); // 0
    enqueue_prio(&mut s, "b", 3); // 1

    assert_eq!(s.take_next_runnable(0).unwrap().id, 0);
    assert_eq!(s.take_next_runnable(0).unwrap().id, 1);
}

#[test]
fn set_priority_lets_a_queued_job_jump_the_queue() {
    let mut s = AppState::default();
    enqueue(&mut s, "a"); // 0
    enqueue(&mut s, "b"); // 1
    enqueue(&mut s, "c"); // 2

    // Bump the last job above the others; it now runs first.
    assert!(matches!(s.set_priority(2, 10), SetPriorityOutcome::Updated));
    assert_eq!(s.take_next_runnable(0).unwrap().id, 2);
    assert_eq!(s.take_next_runnable(0).unwrap().id, 0);
}

#[test]
fn set_priority_covers_non_queued_and_missing_jobs() {
    let mut s = AppState::default();
    enqueue(&mut s, "a"); // 0
    s.take_next_runnable(0); // 0 now running

    assert!(matches!(s.set_priority(0, 5), SetPriorityOutcome::NotQueued));
    assert!(matches!(s.set_priority(99, 5), SetPriorityOutcome::NotFound));
}

#[test]
fn cancel_all_kills_running_and_drops_queued() {
    let mut s = AppState::default();
    enqueue(&mut s, "a"); // 0
    enqueue(&mut s, "b"); // 1
    enqueue(&mut s, "c"); // 2
    s.take_next_runnable(0); // 0 running
    s.take_next_runnable(0); // 1 running
    s.finish(0, RunResult::Exited(Some(0))); // 0 finished (terminal, untouched)

    let outcome = s.cancel_all();
    // Job 1 is running -> reported for the daemon to signal; not yet killed.
    assert_eq!(outcome.running, vec![1]);
    assert_eq!(s.get(1).unwrap().state, JobState::Running);
    // Job 2 was queued -> dropped immediately.
    assert_eq!(outcome.dequeued, 1);
    assert_eq!(s.get(2).unwrap().state, JobState::Killed);
    // The already-finished job is left as-is.
    assert_eq!(s.get(0).unwrap().state, JobState::Finished);
}

#[test]
fn rerun_clones_job_into_a_fresh_queued_job() {
    let mut s = AppState::default();
    let env = vec![("PATH".to_string(), "/pixi/bin".to_string())];
    let id = s.add(
        &log_dir(),
        vec!["echo".into(), "hi".into()],
        Some("greet".into()),
        "/work".to_string(),
        2,
        5,
        env.clone(),
    );
    s.take_next_runnable(4);
    s.finish(id, RunResult::Exited(Some(1))); // original is now terminal

    let new_id = s.rerun(&log_dir(), id).unwrap();
    assert_ne!(new_id, id);

    // Original record is untouched.
    let orig = s.get(id).unwrap();
    assert_eq!(orig.state, JobState::Finished);
    assert_eq!(orig.exit_code, Some(1));

    // New job is a fresh queued clone with its own log file.
    let new = s.get(new_id).unwrap();
    assert_eq!(new.state, JobState::Queued);
    assert_eq!(new.argv, vec!["echo".to_string(), "hi".to_string()]);
    assert_eq!(new.label.as_deref(), Some("greet"));
    assert_eq!(new.cwd, "/work".to_string());
    assert_eq!(new.gpus, 2);
    assert_eq!(new.priority, 5);
    assert_eq!(new.env, env);
    assert_eq!(new.exit_code, None);
    assert!(new.started_at.is_none());
    assert_ne!(new.log_path, orig.log_path);
}

#[test]
fn rerun_missing_job_returns_none() {
    let mut s = AppState::default();
    assert!(s.rerun(&log_dir(), 42).is_none());
}

#[test]
fn cpu_limit_lets_a_gpu_job_backfill_past_a_blocked_cpu_job() {
    let mut s = AppState::default();
    s.set_cpu_limit(Some(1));
    enqueue(&mut s, "cpu1"); // 0
    enqueue(&mut s, "cpu2"); // 1
    enqueue_gpu(&mut s, "g", 1); // 2

    assert_eq!(s.take_next_runnable(2).unwrap().id, 0); // cpu1 fills the 1 CPU slot
    assert_eq!(s.take_next_runnable(2).unwrap().id, 2); // cpu2 blocked, GPU job backfills
    assert!(s.take_next_runnable(2).is_none());
    assert_eq!(s.get(1).unwrap().state, JobState::Queued);
}

// ---------------------------------------------------------------------------
// Further cases
// ---------------------------------------------------------------------------

fn at(secs: i64) -> Timestamp {
    Timestamp { secs, nanos: 0 }
}

#[test]
fn add_at_records_the_whole_job() {
    let mut s = AppState::default();
    let env = vec![("K".to_string(), "V".to_string())];
    let id = s.add_at(
        "logs",
        vec!["echo".to_string(), "hi".to_string()],
        Some("greet".to_string()),
        "/work".to_string(),
        2,
        -3,
        env.clone(),
        at(7),
    );
    let j = s.get(id).unwrap();
    assert_eq!(j.id, 0);
    assert_eq!(j.argv, vec!["echo".to_string(), "hi".to_string()]);
    assert_eq!(j.label.as_deref(), Some("greet"));
    assert_eq!(j.cwd, "/work");
    assert_eq!(j.gpus, 2);
    assert_eq!(j.priority, -3);
    assert_eq!(j.env, env);
    assert_eq!(j.enqueued_at, at(7));
    assert_eq!(j.started_at, None);
    assert_eq!(j.finished_at, None);
    assert_eq!(j.exit_code, None);
    assert!(j.assigned_gpus.is_empty());
    assert_eq!(j.command_line(), "echo hi");
}

#[test]
fn add_uses_the_present_time() {
    let mut s = AppState::default();
    enqueue(&mut s, "a");
    // Any time after 2020 will do.
    assert!(s.get(0).unwrap().enqueued_at.secs > 1_577_836_800);
}

#[test]
fn the_smallest_priority_comes_last() {
    let mut s = AppState::default();
    enqueue_prio(&mut s, "least", i32::MIN);
    enqueue_prio(&mut s, "most", i32::MAX);
    enqueue(&mut s, "plain");
    assert_eq!(s.take_next_runnable(0).unwrap().id, 1);
    assert_eq!(s.take_next_runnable(0).unwrap().id, 2);
    assert_eq!(s.take_next_runnable(0).unwrap().id, 0);
}

#[test]
fn a_cpu_limit_of_zero_holds_every_cpu_job() {
    let mut s = AppState::default();
    s.set_cpu_limit(Some(0));
    enqueue(&mut s, "a");
    assert!(s.take_next_runnable(1).is_none());
    assert_eq!(s.cpu_limit(), Some(0));
    s.set_cpu_limit(None);
    assert_eq!(s.take_next_runnable(1).unwrap().id, 0);
}

#[test]
fn freed_gpus_are_reused_around_held_ones() {
    let mut s = AppState::default();
    for name in ["a", "b", "c"] {
        enqueue_gpu(&mut s, name, 1);
        s.take_next_runnable(4);
    }
    s.finish(1, RunResult::Killed);
    enqueue_gpu(&mut s, "d", 2);
    assert_eq!(s.take_next_runnable(4).unwrap().assigned_gpus, vec![1, 3]);
}

#[test]
fn two_running_jobs_never_share_a_gpu() {
    let mut s = AppState::default();
    for gpus in [2, 1, 3, 2] {
        enqueue_gpu(&mut s, "x", gpus);
    }
    let mut seen = Vec::new();
    while let Some(spec) = s.take_next_runnable(6) {
        for i in spec.assigned_gpus {
            assert!(!seen.contains(&i));
            assert!(i < 6);
            seen.push(i);
        }
    }
    assert_eq!(seen.len(), 6);
}

#[test]
fn paused_jobs_do_not_start_until_resumed() {
    let mut s = AppState::default();
    enqueue(&mut s, "a");
    enqueue(&mut s, "b");
    assert_eq!(s.pause(0), PauseOutcome::Done);
    assert_eq!(s.get(0).unwrap().state, JobState::Paused);
    assert_eq!(s.pause(0), PauseOutcome::WrongState);
    assert_eq!(s.pause(9), PauseOutcome::NotFound);
    assert_eq!(s.take_next_runnable(0).unwrap().id, 1);
    assert!(s.take_next_runnable(0).is_none());
    assert_eq!(s.resume(1), PauseOutcome::WrongState);
    assert_eq!(s.resume(9), PauseOutcome::NotFound);
    assert_eq!(s.resume(0), PauseOutcome::Done);
    assert_eq!(s.take_next_runnable(0).unwrap().id, 0);
}

#[test]
fn pause_all_and_resume_all_move_every_job() {
    let mut s = AppState::default();
    enqueue(&mut s, "a");
    enqueue(&mut s, "b");
    enqueue(&mut s, "c");
    s.take_next_runnable(0);
    assert_eq!(s.pause_all(), 2);
    assert!(s.take_next_runnable(0).is_none());
    assert_eq!(s.get(0).unwrap().state, JobState::Running);
    assert_eq!(s.resume_all(), 2);
    assert_eq!(s.get(1).unwrap().state, JobState::Queued);
    assert_eq!(s.get(2).unwrap().state, JobState::Queued);
}

#[test]
fn paused_jobs_can_be_killed_and_removed() {
    let mut s = AppState::default();
    enqueue(&mut s, "a");
    enqueue(&mut s, "b");
    s.pause_all();
    assert_eq!(s.request_kill(0), KillOutcome::Dequeued);
    assert_eq!(s.get(0).unwrap().state, JobState::Killed);
    assert_eq!(s.set_priority(1, 4), SetPriorityOutcome::NotQueued);
    assert_eq!(s.remove(1), RemoveOutcome::Removed);
}

#[test]
fn a_restarted_job_waits_again_as_itself() {
    let mut s = AppState::default();
    enqueue_gpu(&mut s, "a", 2);
    let before = s.get(0).unwrap();
    s.take_next_runnable(2);
    assert_eq!(s.request_restart(0), RestartOutcome::Restarting);
    s.finish(0, RunResult::Restarted);
    let j = s.get(0).unwrap();
    assert_eq!(j.state, JobState::Queued);
    assert_eq!(j.log_path, before.log_path);
    assert_eq!(j.started_at, None);
    assert_eq!(j.finished_at, None);
    assert!(j.assigned_gpus.is_empty());
    assert_eq!(s.request_restart(0), RestartOutcome::NotRunning);
    assert_eq!(s.request_restart(5), RestartOutcome::NotFound);
    assert_eq!(s.take_next_runnable(2).unwrap().assigned_gpus, vec![0, 1]);
}

#[test]
fn labels_can_be_set_and_cleared_in_any_state() {
    let mut s = AppState::default();
    enqueue(&mut s, "a");
    assert!(s.set_label(0, Some("x".to_string())));
    assert_eq!(s.get(0).unwrap().label.as_deref(), Some("x"));
    s.take_next_runnable(0);
    assert!(s.set_label(0, None));
    assert_eq!(s.get(0).unwrap().label, None);
    assert!(!s.set_label(3, None));
}

#[test]
fn ids_go_on_after_jobs_are_gone() {
    let mut s = AppState::default();
    enqueue(&mut s, "a");
    s.remove(0);
    assert!(s.has_free_id());
    assert_eq!(enqueue(&mut s, "b"), 1);
    s.cancel_all();
    assert_eq!(s.clear_finished(), 1);
    assert_eq!(s.clear_finished(), 0);
    assert_eq!(enqueue(&mut s, "c"), 2);
}

#[test]
fn a_full_id_space_is_noticed() {
    let s = AppState::load(Some(StoredState {
        next_id: u32::MAX,
        jobs: Vec::new(),
        cpu_limit: None,
    }));
    assert!(!s.has_free_id());
}

#[test]
fn loading_gives_back_everything_that_was_saved() {
    let mut s = AppState::default();
    s.set_cpu_limit(Some(3));
    enqueue(&mut s, "a");
    enqueue(&mut s, "b");
    s.pause(0);
    s.take_next_runnable(0);
    let loaded = AppState::load_at(Some(s.save()), at(99));
    assert_eq!(loaded.cpu_limit(), Some(3));
    let jobs: Vec<Job> = loaded.list();
    assert_eq!(jobs.len(), 2);
    assert_eq!(jobs[0].state, JobState::Paused);
    assert_eq!(jobs[0].finished_at, None);
    assert_eq!(jobs[1].state, JobState::Failed);
    assert_eq!(jobs[1].finished_at, Some(at(99)));
}

#[test]
fn of_two_stored_jobs_with_one_id_the_later_counts() {
    let mut s = AppState::default();
    enqueue(&mut s, "a");
    enqueue(&mut s, "b");
    let mut stored = s.save();
    stored.jobs[0].0 = 1;
    stored.jobs.reverse();
    let loaded = AppState::load(Some(stored));
    assert_eq!(loaded.list().len(), 1);
    assert_eq!(loaded.get(1).unwrap().argv, vec!["a".to_string()]);
}

#[test]
fn times_are_recorded_as_given() {
    let mut s = AppState::default();
    enqueue(&mut s, "a");
    enqueue(&mut s, "b");
    s.take_next_runnable_at(0, at(10));
    s.finish_at(0, RunResult::Exited(None), at(20));
    s.request_kill_at(1, at(30));
    let a = s.get(0).unwrap();
    assert_eq!((a.started_at, a.finished_at, a.exit_code), (Some(at(10)), Some(at(20)), None));
    assert_eq!(s.get(1).unwrap().finished_at, Some(at(30)));
    assert_eq!(s.cancel_all_at(at(40)).dequeued, 0);
    assert_eq!(s.rerun_at("logs", 1, at(50)), Some(2));
    assert_eq!(s.get(2).unwrap().enqueued_at, at(50));
}

/// A queue whose jobs are stored under the given numbers, with the ids that they
/// carry, their priorities and their GPU requests.
fn stored_under(entries: &[(u32, u32, i32, u32)]) -> AppState {
    let mut jobs = Vec::new();
    for (number, id, priority, gpus) in entries {
        let mut one = AppState::default();
        one.add_at(
            "logs",
            vec![format!("job-{number}")],
            None,
            ".".to_string(),
            *gpus,
            *priority,
            Vec::new(),
            at(1),
        );
        let mut job = one.get(0).unwrap();
        job.id = *id;
        jobs.push((*number, job));
    }
    AppState::load_at(Some(StoredState { next_id: 100, jobs, cpu_limit: None }), at(2))
}

#[test]
fn the_id_that_a_job_carries_decides_what_starts() {
    // The job under 1 wins by priority and carries the id 2, so what is found under
    // 2 is started.
    let mut s = stored_under(&[(1, 2, 5, 0), (2, 9, 0, 3)]);
    assert!(s.can_start(4));
    let spec = s.take_next_runnable_at(4, at(3)).unwrap();
    assert_eq!((spec.id, spec.argv[0].as_str()), (2, "job-2"));
    assert_eq!(spec.assigned_gpus, vec![0, 1, 2]);
    assert_eq!(s.get(1).unwrap().state, JobState::Queued);
    assert_eq!(s.get(2).unwrap().state, JobState::Running);
    // It is reported by the id that it carries.
    assert_eq!(s.cancel_all_at(at(4)).running, vec![9]);

    // It gets what is free, where it asks for more.
    let mut s = stored_under(&[(1, 2, 5, 0), (2, 9, 0, 3)]);
    assert_eq!(s.take_next_runnable_at(1, at(3)).unwrap().assigned_gpus, vec![0]);
}

#[test]
fn ties_go_by_the_id_that_a_job_carries() {
    let mut s = stored_under(&[(1, 7, 0, 0), (3, 3, 0, 0), (7, 8, 0, 0)]);
    assert_eq!(s.take_next_runnable_at(0, at(3)).unwrap().id, 3);
    assert_eq!(s.take_next_runnable_at(0, at(3)).unwrap().argv, vec!["job-7"]);
}

#[test]
fn a_job_that_cannot_be_found_under_its_id_cannot_start() {
    assert!(!stored_under(&[(1, 4, 0, 0)]).can_start(0));
    // Its turn has not come.
    assert!(stored_under(&[(1, 4, 0, 0), (2, 2, 1, 0)]).can_start(0));
    assert!(AppState::default().can_start(0));
}

#[test]
fn ids_go_on_over_any_number_of_restarts() {
    let mut s = AppState::default();
    assert_eq!(enqueue(&mut s, "a"), 0);
    s.take_next_runnable(0);
    s = AppState::load(Some(s.save()));
    assert_eq!(enqueue(&mut s, "b"), 1);
    s.remove(1);
    s.clear_finished();
    assert!(s.list().is_empty());
    s = AppState::load(Some(s.save()));
    s = AppState::load(Some(s.save()));
    assert_eq!(enqueue(&mut s, "c"), 2);
}

#[test]
fn recorded_times_can_be_shown() {
    let mut s = AppState::default();
    enqueue(&mut s, "a");
    enqueue(&mut s, "b");
    s.take_next_runnable(0);
    s.finish(0, RunResult::Exited(Some(0)));
    s.request_kill(1);
    let (a, b) = (s.get(0).unwrap(), s.get(1).unwrap());
    for t in [a.enqueued_at, a.started_at.unwrap(), a.finished_at.unwrap(), b.finished_at.unwrap()]
    {
        assert!(t.is_displayable() && t.nanos < 1_000_000_000);
    }
}
