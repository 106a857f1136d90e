use mochi_scheduler::clock::Timestamp;
use mochi_scheduler::gpu::{GpuInfo, Vendor};
use mochi_scheduler::ipc::daemon::{
    describe_cpu_limit, handle_request, handle_request_at, launch, run_result, settle,
    takes_fresh_id, Persist, Reaction, RunEnd,
};
use mochi_scheduler::ipc::job::JobState;
use mochi_scheduler::ipc::protocol::{Request, Response};
use mochi_scheduler::ipc::scheduler::{AppState, RunResult, RunSpec};

const GPUS: GpuInfo = GpuInfo { count: 2, vendor: Vendor::Nvidia };

fn ask(state: &mut AppState, request: Request) -> Reaction {
    handle_request_at(request, state, GPUS, "logs", Timestamp { secs: 5, nanos: 0 })
}

fn add(gpus: u32) -> Request {
    Request::Add {
        argv: vec!["x".to_string()],
        label: None,
        cwd: ".".to_string(),
        gpus,
        priority: 3,
        env: Vec::new(),
    }
}

fn done(r: &Reaction) -> &str {
    match &r.response {
        Response::Done(text) => text,
        other => panic!("unexpected response: {other:?}"),
    }
}

fn error(r: &Reaction) -> &str {
    match &r.response {
        Response::Error(text) => text,
        other => panic!("unexpected response: {other:?}"),
    }
}

/// A request that was turned down asks for nothing.
fn assert_refused(r: &Reaction, message: &str) {
    assert_eq!(error(r), message);
    assert_eq!(r.persist, Persist::Skip);
    assert!(!r.wake && !r.shutdown);
    assert!(r.kill.is_empty());
    assert_eq!(r.restart, None);
}

#[test]
fn add_queues_persists_and_wakes() {
    let mut s = AppState::default();
    let r = ask(&mut s, add(2));
    assert_eq!(done(&r), "Queued job 0");
    assert_eq!((r.persist, r.wake), (Persist::Report, true));
    let j = s.get(0).unwrap();
    assert_eq!((j.gpus, j.priority, j.enqueued_at.secs), (2, 3, 5));
}

#[test]
fn a_request_for_too_many_gpus_is_rejected() {
    let mut s = AppState::default();
    let r = ask(&mut s, add(3));
    assert_refused(&r, "job requests 3 GPU(s) but only 2 are available");
    assert!(s.list().is_empty());
}

#[test]
fn jobs_can_be_asked_for() {
    let mut s = AppState::default();
    ask(&mut s, add(0));
    ask(&mut s, add(1));
    match ask(&mut s, Request::List).response {
        Response::Jobs(jobs) => {
            assert_eq!(jobs.iter().map(|j| j.id).collect::<Vec<_>>(), vec![0, 1])
        }
        other => panic!("unexpected response: {other:?}"),
    }
    match ask(&mut s, Request::Info { id: 1 }).response {
        Response::Job(job) => assert_eq!(job.gpus, 1),
        other => panic!("unexpected response: {other:?}"),
    }
    match ask(&mut s, Request::Cat { id: 1 }).response {
        Response::LogPath(path) => assert_eq!(path, s.get(1).unwrap().log_path),
        other => panic!("unexpected response: {other:?}"),
    }
    assert_refused(&ask(&mut s, Request::Info { id: 9 }), "No such job (id 9)");
    assert_refused(&ask(&mut s, Request::Cat { id: 9 }), "No such job (id 9)");
}

#[test]
fn kill_covers_every_outcome() {
    let mut s = AppState::default();
    ask(&mut s, add(0));
    ask(&mut s, add(0));
    s.take_next_runnable(2);
    let r = ask(&mut s, Request::Kill { id: 0 });
    assert_eq!(done(&r), "Killed job 0");
    assert_eq!((r.kill.clone(), r.persist), (vec![0], Persist::Skip));
    let r = ask(&mut s, Request::Kill { id: 1 });
    assert_eq!(done(&r), "Dequeued job 1");
    assert_eq!((r.persist, r.wake), (Persist::Try, false));
    assert_refused(&ask(&mut s, Request::Kill { id: 1 }), "Job 1 is already finished");
    assert_refused(&ask(&mut s, Request::Kill { id: 7 }), "No such job (id 7)");
}

#[test]
fn kill_all_stops_and_drops() {
    let mut s = AppState::default();
    for _ in 0..3 {
        ask(&mut s, add(1));
    }
    s.take_next_runnable(2);
    s.take_next_runnable(2);
    let r = ask(&mut s, Request::KillAll);
    assert_eq!(done(&r), "Killed 2 running and dropped 1 queued jobs");
    assert_eq!((r.kill.clone(), r.persist), (vec![0, 1], Persist::Try));
    assert_eq!(s.get(2).unwrap().state, JobState::Killed);
}

#[test]
fn set_priority_covers_every_outcome() {
    let mut s = AppState::default();
    ask(&mut s, add(0));
    let r = ask(&mut s, Request::SetPriority { id: 0, priority: -4 });
    assert_eq!(done(&r), "Set job 0 priority to -4");
    assert_eq!((r.persist, r.wake), (Persist::Try, true));
    assert_eq!(s.get(0).unwrap().priority, -4);
    s.take_next_runnable(2);
    assert_refused(
        &ask(&mut s, Request::SetPriority { id: 0, priority: 1 }),
        "Job 0 is not queued; priority only applies to queued jobs",
    );
    assert_refused(
        &ask(&mut s, Request::SetPriority { id: 8, priority: 1 }),
        "No such job (id 8)",
    );
}

#[test]
fn rerun_takes_its_own_priority() {
    let mut s = AppState::default();
    ask(&mut s, add(1));
    let r = ask(&mut s, Request::Rerun { id: 0, priority: 0 });
    assert_eq!(done(&r), "Queued job 1");
    assert_eq!((r.persist, r.wake), (Persist::Report, true));
    let j = s.get(1).unwrap();
    assert_eq!((j.priority, j.gpus), (0, 1));
    assert_eq!(s.get(0).unwrap().priority, 3);
    assert_refused(
        &ask(&mut s, Request::Rerun { id: 5, priority: 0 }),
        "No such job (id 5)",
    );
    // The host may have fewer GPUs than when the job was first queued.
    let few = GpuInfo { count: 0, vendor: Vendor::NoGpu };
    let r = handle_request(Request::Rerun { id: 0, priority: 0 }, &mut s, few, "logs");
    assert_refused(&r, "job requests 1 GPU(s) but only 0 are available");
}

#[test]
fn restart_covers_every_outcome() {
    let mut s = AppState::default();
    ask(&mut s, add(0));
    assert_refused(
        &ask(&mut s, Request::Restart { id: 0 }),
        "Job 0 is not running; use `rerun` to queue a fresh copy",
    );
    s.take_next_runnable(2);
    let r = ask(&mut s, Request::Restart { id: 0 });
    assert_eq!(done(&r), "Restarting job 0");
    assert_eq!(r.restart, Some(0));
    assert_refused(&ask(&mut s, Request::Restart { id: 1 }), "No such job (id 1)");
}

#[test]
fn labels_are_set_and_cleared() {
    let mut s = AppState::default();
    ask(&mut s, add(0));
    let set = |s: &mut AppState, id, text: &str| {
        ask(s, Request::SetLabel { id, text: text.to_string() })
    };
    let r = set(&mut s, 0, "night");
    assert_eq!((done(&r), r.persist), ("Set job 0 label to night", Persist::Try));
    assert_eq!(s.get(0).unwrap().label.as_deref(), Some("night"));
    let r = set(&mut s, 0, "");
    assert_eq!(done(&r), "Cleared job 0 label");
    assert_eq!(s.get(0).unwrap().label, None);
    assert_refused(&set(&mut s, 2, "x"), "No such job (id 2)");
    assert_refused(&set(&mut s, 2, ""), "No such job (id 2)");
}

#[test]
fn remove_and_clear_report_failures_of_the_disk() {
    let mut s = AppState::default();
    ask(&mut s, add(0));
    ask(&mut s, add(0));
    s.take_next_runnable(2);
    assert_refused(
        &ask(&mut s, Request::Remove { id: 0 }),
        "Job 0 is running; use `kill` first",
    );
    let r = ask(&mut s, Request::Remove { id: 1 });
    assert_eq!((done(&r), r.persist), ("Removed job 1", Persist::ReportRemoval));
    assert_refused(&ask(&mut s, Request::Remove { id: 1 }), "No such job (id 1)");
    s.finish(0, RunResult::Exited(Some(0)));
    let r = ask(&mut s, Request::Clear);
    assert_eq!((done(&r), r.persist), ("Cleared 1 finished jobs", Persist::ReportRemoval));
}

#[test]
fn pausing_and_resuming_are_answered() {
    let mut s = AppState::default();
    ask(&mut s, add(0));
    ask(&mut s, add(0));
    let r = ask(&mut s, Request::PauseJob { id: 0 });
    assert_eq!((done(&r), r.persist, r.wake), ("Paused job 0", Persist::Try, false));
    assert_refused(
        &ask(&mut s, Request::PauseJob { id: 0 }),
        "Job 0 is not queued; only queued jobs can be paused",
    );
    assert_refused(&ask(&mut s, Request::PauseJob { id: 6 }), "No such job (id 6)");
    let r = ask(&mut s, Request::ResumeJob { id: 0 });
    assert_eq!((done(&r), r.persist, r.wake), ("Resumed job 0", Persist::Try, true));
    assert_refused(&ask(&mut s, Request::ResumeJob { id: 0 }), "Job 0 is not paused");
    assert_refused(&ask(&mut s, Request::ResumeJob { id: 6 }), "No such job (id 6)");
    let r = ask(&mut s, Request::PauseAllQueued);
    assert_eq!((done(&r), r.wake), ("Paused 2 queued jobs", false));
    let r = ask(&mut s, Request::ResumeAllPaused);
    assert_eq!((done(&r), r.wake), ("Resumed 2 paused jobs", true));
}

#[test]
fn settings_of_the_daemon_are_answered() {
    let mut s = AppState::default();
    assert_eq!(done(&ask(&mut s, Request::GetCpuLimit)), "CPU job limit: unlimited");
    let r = ask(&mut s, Request::SetCpuLimit { limit: Some(4) });
    assert_eq!((done(&r), r.persist, r.wake), ("CPU job limit set to 4", Persist::Report, true));
    assert_eq!(done(&ask(&mut s, Request::GetCpuLimit)), "CPU job limit: 4");
    assert_eq!(done(&ask(&mut s, Request::GetDevices)), "Detected 2 GPU(s) (Nvidia)");
    let r = ask(&mut s, Request::Shutdown);
    assert_eq!((done(&r), r.shutdown), ("Shutting down", true));
    assert_eq!(describe_cpu_limit(None), "unlimited");
}

#[test]
fn a_failure_to_persist_may_become_the_answer() {
    let mut s = AppState::default();
    let failure = || Some("disk full".to_string());
    let r = settle(ask(&mut s, add(0)), failure());
    assert_eq!((error(&r), r.wake), ("persisting state: disk full", false));
    let r = settle(ask(&mut s, Request::Remove { id: 0 }), failure());
    assert_eq!(error(&r), "Error saving persisting state: disk full");
    ask(&mut s, add(0));
    let r = settle(ask(&mut s, Request::PauseJob { id: 1 }), failure());
    assert_eq!(done(&r), "Paused job 1");
    let r = settle(ask(&mut s, add(0)), None);
    assert_eq!((done(&r), r.wake), ("Queued job 2", true));
}

fn spec(env: Vec<(String, String)>, assigned_gpus: Vec<u32>) -> RunSpec {
    RunSpec {
        id: 0,
        argv: vec!["prog".to_string(), "-x".to_string(), "y".to_string()],
        cwd: "/work".to_string(),
        log_path: "logs/0.log".to_string(),
        assigned_gpus,
        env,
    }
}

fn pair(k: &str, v: &str) -> (String, String) {
    (k.to_string(), v.to_string())
}

#[test]
fn a_job_is_launched_with_its_gpus() {
    let env = vec![pair("PATH", "/bin"), pair("CUDA_VISIBLE_DEVICES", "7")];
    let l = launch(&spec(env, vec![0, 2]), Vendor::Nvidia);
    assert_eq!(l.program, "prog");
    assert_eq!(l.args, vec!["-x".to_string(), "y".to_string()]);
    assert_eq!((l.cwd.as_str(), l.log_path.as_str()), ("/work", "logs/0.log"));
    assert!(l.clear_env);
    // The assigned indices come last, so they win.
    assert_eq!(
        l.env,
        vec![
            pair("PATH", "/bin"),
            pair("CUDA_VISIBLE_DEVICES", "7"),
            pair("CUDA_VISIBLE_DEVICES", "0,2")
        ]
    );
}

#[test]
fn a_job_without_a_snapshot_keeps_the_environment() {
    let l = launch(&spec(Vec::new(), Vec::new()), Vendor::Amd);
    assert!(!l.clear_env);
    assert_eq!(
        l.env,
        vec![pair("HIP_VISIBLE_DEVICES", ""), pair("ROCR_VISIBLE_DEVICES", "")]
    );
    assert!(launch(&spec(Vec::new(), vec![1]), Vendor::NoGpu).env.is_empty());
}

#[test]
fn the_end_of_a_run_is_recorded() {
    assert_eq!(run_result(RunEnd::NoLog), RunResult::SpawnFailed);
    assert_eq!(run_result(RunEnd::NotStarted), RunResult::SpawnFailed);
    assert_eq!(run_result(RunEnd::Lost), RunResult::SpawnFailed);
    assert_eq!(run_result(RunEnd::Exited(Some(3))), RunResult::Exited(Some(3)));
    assert_eq!(run_result(RunEnd::Exited(None)), RunResult::Exited(None));
    assert_eq!(run_result(RunEnd::Killed), RunResult::Killed);
    assert_eq!(run_result(RunEnd::Restarted), RunResult::Restarted);
}

#[test]
fn only_new_jobs_take_an_id() {
    let mut s = AppState::default();
    assert!(takes_fresh_id(&add(2), &s, GPUS));
    assert!(!takes_fresh_id(&add(3), &s, GPUS));
    assert!(!takes_fresh_id(&Request::Rerun { id: 0, priority: 0 }, &s, GPUS));
    ask(&mut s, add(2));
    assert!(takes_fresh_id(&Request::Rerun { id: 0, priority: 0 }, &s, GPUS));
    assert!(!takes_fresh_id(&Request::List, &s, GPUS));
}
