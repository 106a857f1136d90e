use mochi_scheduler::cli::{Command, ConfigCommand, DaemonCommand, StateFilter};
use mochi_scheduler::clock::Timestamp;
use mochi_scheduler::ipc::batch::{act_on_many, set_priority_many, Batch};
use mochi_scheduler::ipc::client::{
    build_request, can_show_times, connect_step, details_footer, details_table, dispatch,
    empty_notice, execution_order_key, filter_matches, follow_start, follow_step, format_gpu_list,
    info_reply, is_yes, job_details, jobs_table, judge, list_reply, parse_job_ids,
    parse_priority_args, pick_running_job, resolve_watch_target, resume_needs_confirmation,
    select_jobs, show_error, state_wanted, ConnectMove, Dispatch, FollowStep, IdAction, IdError,
    ListReply, Pick, PriorityError, Remark, WatchTarget,
};
use mochi_scheduler::ipc::job::{Job, JobState};
use mochi_scheduler::ipc::protocol::{Request, Response};

#[test]
fn default_view_is_running_and_queued() {
    assert!(state_wanted(false, &[], &JobState::Running));
    assert!(state_wanted(false, &[], &JobState::Queued));
    assert!(!state_wanted(false, &[], &JobState::Finished));
    assert!(!state_wanted(false, &[], &JobState::Killed));
    assert!(!state_wanted(false, &[], &JobState::Failed));
}

#[test]
fn all_shows_every_state() {
    for s in [
        JobState::Queued,
        JobState::Running,
        JobState::Finished,
        JobState::Killed,
        JobState::Failed,
    ] {
        assert!(state_wanted(true, &[], &s));
    }
}

#[test]
fn explicit_states_filter_exactly() {
    let filters = [StateFilter::Finished, StateFilter::Failed];
    assert!(state_wanted(false, &filters, &JobState::Finished));
    assert!(state_wanted(false, &filters, &JobState::Failed));
    assert!(!state_wanted(false, &filters, &JobState::Running));
    assert!(!state_wanted(false, &filters, &JobState::Queued));
}

#[test]
fn parse_job_ids_handles_singles_ranges_and_dedup() {
    let s = |x: &str| x.to_string();

    assert_eq!(parse_job_ids(&[s("5")]).unwrap(), vec![5]);
    assert_eq!(parse_job_ids(&[s("3-5")]).unwrap(), vec![3, 4, 5]);
    assert_eq!(parse_job_ids(&[s("0-0")]).unwrap(), vec![0]);

    // overlapping: 4 appears in the range and again explicitly — deduplicated
    assert_eq!(
        parse_job_ids(&[s("3-5"), s("4"), s("7")]).unwrap(),
        vec![3, 4, 5, 7]
    );

    // multiple ranges
    assert_eq!(
        parse_job_ids(&[s("1-2"), s("5-6")]).unwrap(),
        vec![1, 2, 5, 6]
    );
}

#[test]
fn parse_job_ids_rejects_bad_input() {
    let s = |x: &str| x.to_string();

    assert!(parse_job_ids(&[s("5-3")]).is_err()); // start > end
    assert!(parse_job_ids(&[s("abc")]).is_err()); // not a number
    assert!(parse_job_ids(&[s("1-abc")]).is_err()); // bad range end
}

// ---------------------------------------------------------------------------
// Further cases
// ---------------------------------------------------------------------------

fn texts(items: &[&str]) -> Vec<String> {
    items.iter().map(|s| s.to_string()).collect()
}

fn job(id: u32, state: JobState, priority: i32) -> Job {
    Job {
        id,
        argv: texts(&["run", "it"]),
        label: None,
        cwd: "/work".to_string(),
        state,
        exit_code: None,
        log_path: format!("logs/{id}.log"),
        enqueued_at: Timestamp { secs: 1_700_000_000, nanos: 0 },
        started_at: None,
        finished_at: None,
        priority,
        gpus: 0,
        assigned_gpus: Vec::new(),
        env: Vec::new(),
    }
}

fn ids(jobs: &[Job]) -> Vec<u32> {
    jobs.iter().map(|j| j.id).collect()
}

#[test]
fn job_ids_come_sorted() {
    let got = parse_job_ids(&texts(&["7", "3-4", "1", "+2", "4"])).unwrap();
    assert_eq!(got, vec![1, 2, 3, 4, 7]);
    assert!(parse_job_ids(&[]).unwrap().is_empty());
}

#[test]
fn job_id_errors_say_what_is_wrong() {
    let message = |items: &[&str]| parse_job_ids(&texts(items)).unwrap_err().message();
    assert_eq!(
        message(&["5-3"]),
        "invalid range '5-3': start (5) is greater than end (3)"
    );
    assert_eq!(message(&["abc"]), "'abc' is not a valid job id");
    assert_eq!(message(&["1-abc"]), "invalid id in range '1-abc'");
    assert_eq!(message(&["-1"]), "invalid id in range '-1'");
    assert_eq!(message(&["1-2-3"]), "invalid id in range '1-2-3'");
    assert_eq!(message(&["4294967296"]), "'4294967296' is not a valid job id");
    // The first bad argument is the one that is reported.
    assert_eq!(message(&["1", "x", "5-3"]), "'x' is not a valid job id");
    assert!(matches!(
        parse_job_ids(&texts(&["9-8"])),
        Err(IdError::Backwards { start: 9, end: 8, .. })
    ));
    assert!(matches!(parse_job_ids(&texts(&["1-"])), Err(IdError::BadRange { .. })));
    assert!(matches!(parse_job_ids(&texts(&[""])), Err(IdError::BadId { .. })));
}

#[test]
fn the_largest_id_can_be_named() {
    assert_eq!(
        parse_job_ids(&texts(&["4294967294-4294967295"])).unwrap(),
        vec![4294967294, 4294967295]
    );
}

#[test]
fn the_last_priority_argument_is_the_value() {
    let (ids, priority) = parse_priority_args(&texts(&["12", "15-17", "-10"])).unwrap();
    assert_eq!((ids, priority), (vec![12, 15, 16, 17], -10));
    let e = parse_priority_args(&texts(&["x", "high"])).unwrap_err();
    assert!(matches!(e, PriorityError::BadPriority { .. }));
    assert_eq!(e.message(), "'high' is not a valid priority value (expected integer)");
    let e = parse_priority_args(&texts(&["x", "3"])).unwrap_err();
    assert!(matches!(e, PriorityError::Ids(_)));
    assert_eq!(e.message(), "'x' is not a valid job id");
    assert!(parse_priority_args(&texts(&["1", "2147483648"])).is_err());
    assert_eq!(parse_priority_args(&texts(&["1", "-2147483648"])).unwrap().1, i32::MIN);
}

#[test]
fn paused_jobs_show_in_the_default_view() {
    assert!(state_wanted(false, &[], &JobState::Paused));
    assert!(filter_matches(StateFilter::Paused, &JobState::Paused));
    assert!(!filter_matches(StateFilter::Paused, &JobState::Queued));
}

#[test]
fn the_default_view_is_in_execution_order() {
    let jobs = || {
        vec![
            job(0, JobState::Queued, 0),
            job(1, JobState::Finished, 9),
            job(2, JobState::Queued, 5),
            job(3, JobState::Running, -1),
            job(4, JobState::Queued, 5),
            job(5, JobState::Paused, 7),
            job(6, JobState::Running, 3),
        ]
    };
    assert_eq!(ids(&select_jobs(jobs(), false, &[], false)), vec![3, 6, 2, 4, 0, 5]);
    assert_eq!(ids(&select_jobs(jobs(), false, &[], true)), vec![0, 2, 3, 4, 5, 6]);
    assert_eq!(ids(&select_jobs(jobs(), true, &[], false)), vec![0, 1, 2, 3, 4, 5, 6]);
    assert_eq!(
        ids(&select_jobs(jobs(), false, &[StateFilter::Finished, StateFilter::Queued], false)),
        vec![0, 1, 2, 4]
    );
}

#[test]
fn the_order_key_has_groups() {
    assert_eq!(execution_order_key(&job(4, JobState::Running, 9)), (0, 0, 4));
    assert_eq!(execution_order_key(&job(4, JobState::Queued, 9)), (1, -9, 4));
    assert_eq!(
        execution_order_key(&job(4, JobState::Queued, i32::MIN)),
        (1, 2147483648, 4)
    );
    assert_eq!(execution_order_key(&job(4, JobState::Killed, 9)), (2, 0, 4));
}

#[test]
fn empty_listings_say_why() {
    assert_eq!(empty_notice(true, &[]), "(no matching jobs)");
    assert_eq!(empty_notice(false, &[StateFilter::Failed]), "(no matching jobs)");
    assert_eq!(
        empty_notice(false, &[]),
        "(no running or queued jobs; pass --all to show every state)"
    );
}

#[test]
fn commands_go_where_they_belong() {
    assert!(matches!(
        dispatch(Command::Watch { id: Some(2), from_start: true }),
        Dispatch::Watch { id: Some(2), from_start: true }
    ));
    assert!(matches!(
        dispatch(Command::List { all: true, state: Vec::new(), by_id: false }),
        Dispatch::List { all: true, by_id: false, .. }
    ));
    assert!(matches!(
        dispatch(Command::Kill { ids: texts(&["1"]), all: false }),
        Dispatch::Each { action: IdAction::Kill, .. }
    ));
    assert!(matches!(
        dispatch(Command::Kill { ids: Vec::new(), all: true }),
        Dispatch::Send { .. }
    ));
    assert!(matches!(
        dispatch(Command::Rerun { ids: texts(&["1"]), priority: 4 }),
        Dispatch::Each { action: IdAction::Rerun { priority: 4 }, .. }
    ));
    assert!(matches!(
        dispatch(Command::Restart { ids: texts(&["1"]) }),
        Dispatch::Each { action: IdAction::Restart, .. }
    ));
    assert!(matches!(dispatch(Command::Pause { ids: Vec::new() }), Dispatch::Send { .. }));
    assert!(matches!(
        dispatch(Command::Pause { ids: texts(&["1"]) }),
        Dispatch::Each { action: IdAction::Pause, .. }
    ));
    assert!(matches!(dispatch(Command::Resume { ids: Vec::new() }), Dispatch::ResumeAll));
    assert!(matches!(
        dispatch(Command::Resume { ids: texts(&["1"]) }),
        Dispatch::Each { action: IdAction::Resume, .. }
    ));
    assert!(matches!(
        dispatch(Command::Priority { args: texts(&["1", "2"]) }),
        Dispatch::Prioritise { .. }
    ));
    assert!(matches!(dispatch(Command::RunDaemon), Dispatch::RunDaemon));
    assert!(matches!(dispatch(Command::Clear), Dispatch::Send { .. }));
}

fn request(command: Command) -> Request {
    build_request(command, "/here".to_string(), vec![("A".to_string(), "B".to_string())])
}

#[test]
fn commands_become_requests() {
    match request(Command::Add {
        label: Some("l".to_string()),
        gpus: 1,
        priority: 2,
        argv: texts(&["x"]),
    }) {
        Request::Add { argv, label, cwd, gpus, priority, env } => {
            assert_eq!(argv, texts(&["x"]));
            assert_eq!(label.as_deref(), Some("l"));
            assert_eq!(cwd, "/here");
            assert_eq!((gpus, priority), (1, 2));
            assert_eq!(env, vec![("A".to_string(), "B".to_string())]);
        }
        other => panic!("unexpected request: {other:?}"),
    }
    assert!(matches!(request(Command::Info { id: 1 }), Request::Info { id: 1 }));
    assert!(matches!(request(Command::Cat { id: 1 }), Request::Cat { id: 1 }));
    assert!(matches!(
        request(Command::Kill { ids: Vec::new(), all: true }),
        Request::KillAll
    ));
    assert!(matches!(
        request(Command::Pause { ids: Vec::new() }),
        Request::PauseAllQueued
    ));
    assert!(matches!(request(Command::Remove { id: 3 }), Request::Remove { id: 3 }));
    assert!(matches!(request(Command::Clear), Request::Clear));
    match request(Command::Label { id: 3, label: "n".to_string() }) {
        Request::SetLabel { id, text } => assert_eq!((id, text.as_str()), (3, "n")),
        other => panic!("unexpected request: {other:?}"),
    }
    let daemon = |command| request(Command::Daemon { command });
    let limit = |limit| {
        daemon(DaemonCommand::Config { setting: ConfigCommand::CpuLimit { limit } })
    };
    assert!(matches!(daemon(DaemonCommand::Devices), Request::GetDevices));
    assert!(matches!(daemon(DaemonCommand::Shutdown), Request::Shutdown));
    assert!(matches!(limit(None), Request::GetCpuLimit));
    assert!(matches!(limit(Some(0)), Request::SetCpuLimit { limit: None }));
    assert!(matches!(limit(Some(4)), Request::SetCpuLimit { limit: Some(4) }));
}

#[test]
fn each_action_has_its_request() {
    assert!(matches!(IdAction::Kill.request(7), Request::Kill { id: 7 }));
    assert!(matches!(
        IdAction::Rerun { priority: 1 }.request(7),
        Request::Rerun { id: 7, priority: 1 }
    ));
    assert!(matches!(
        IdAction::SetPriority { priority: 1 }.request(7),
        Request::SetPriority { id: 7, priority: 1 }
    ));
    assert!(matches!(IdAction::Restart.request(7), Request::Restart { id: 7 }));
    assert!(matches!(IdAction::Pause.request(7), Request::PauseJob { id: 7 }));
    assert!(matches!(IdAction::Resume.request(7), Request::ResumeJob { id: 7 }));
    assert_eq!(IdAction::SetPriority { priority: 1 }.name(), "set-priority");
}

#[test]
fn answers_are_judged() {
    match judge(Response::Done("ok".to_string())) {
        Remark::Print(line) => assert_eq!(line, "ok"),
        other => panic!("unexpected: {other:?}"),
    }
    match judge(Response::Error("no".to_string())) {
        Remark::Complain(line) => assert_eq!(line, "[ERROR] no"),
        other => panic!("unexpected: {other:?}"),
    }
    assert!(matches!(judge(Response::Jobs(Vec::new())), Remark::Unexpected));
    assert_eq!(show_error("x"), "[ERROR] x");
}

#[test]
fn only_running_jobs_are_watched() {
    assert!(matches!(
        resolve_watch_target(3, Some(job(3, JobState::Running, 0))),
        WatchTarget::Follow { id: 3 }
    ));
    match resolve_watch_target(3, None) {
        WatchTarget::Missing { error } => assert_eq!(error, "[ERROR] No such job (id 3)"),
        other => panic!("unexpected target: {other:?}"),
    }
    match resolve_watch_target(3, Some(job(3, JobState::Failed, 0))) {
        WatchTarget::NotRunning { warning, hint } => {
            assert_eq!(
                warning,
                "[WARN] job 3 is failed, not running; watch only follows running jobs."
            );
            assert_eq!(
                hint.as_deref(),
                Some("(use `msc cat 3` to see its captured output)")
            );
        }
        other => panic!("unexpected target: {other:?}"),
    }
    match resolve_watch_target(3, Some(job(3, JobState::Queued, 0))) {
        WatchTarget::NotRunning { hint, .. } => assert_eq!(hint, None),
        other => panic!("unexpected target: {other:?}"),
    }
}

#[test]
fn the_sole_running_job_is_picked() {
    let q = || job(0, JobState::Queued, 0);
    assert!(matches!(pick_running_job(vec![q()]), Pick::Nothing));
    assert!(matches!(
        pick_running_job(vec![q(), job(4, JobState::Running, 0)]),
        Pick::One { id: 4 }
    ));
    match pick_running_job(vec![job(4, JobState::Running, 0), q(), job(5, JobState::Running, 0)]) {
        Pick::Several { jobs } => assert_eq!(ids(&jobs), vec![4, 5]),
        other => panic!("unexpected pick: {other:?}"),
    }
}

#[test]
fn following_stops_when_the_job_is_over() {
    assert!(matches!(follow_step(2, Some(JobState::Running)), FollowStep::GoOn));
    assert!(matches!(follow_step(2, Some(JobState::Queued)), FollowStep::GoOn));
    match follow_step(2, Some(JobState::Killed)) {
        FollowStep::Over { notice } => assert_eq!(notice, "(job 2 killed)"),
        other => panic!("unexpected step: {other:?}"),
    }
    match follow_step(2, None) {
        FollowStep::Gone { notice } => assert_eq!(notice, "(job 2 no longer exists)"),
        other => panic!("unexpected step: {other:?}"),
    }
    assert_eq!(follow_start(true, 40), 0);
    assert_eq!(follow_start(false, 40), 40);
}

#[test]
fn resuming_everything_may_need_a_yes() {
    assert!(!resume_needs_confirmation(&vec![job(0, JobState::Paused, 0)]));
    assert!(resume_needs_confirmation(&vec![
        job(0, JobState::Paused, 0),
        job(1, JobState::Queued, 0)
    ]));
    assert!(is_yes("y"));
    assert!(is_yes(" YES\n"));
    assert!(!is_yes("no"));
    assert!(!is_yes(""));
}

#[test]
fn gpu_lists_are_bracketed() {
    assert_eq!(format_gpu_list(&vec![0, 2]), "[0,2]");
    assert_eq!(format_gpu_list(&vec![]), "[]");
}

#[test]
fn a_listing_has_one_row_per_job() {
    let mut running = job(10, JobState::Running, -2);
    running.gpus = 2;
    running.assigned_gpus = vec![0, 2];
    running.label = Some("l".to_string());
    let mut failed = job(3, JobState::Failed, 0);
    failed.gpus = 2;
    // Indices that a job no longer holds are not shown.
    failed.assigned_gpus = vec![0, 2];
    failed.exit_code = Some(-1);
    let text = jobs_table(&vec![running, failed], None).to_plain_string();
    let lines: Vec<&str> = text.lines().collect();
    assert_eq!(lines.len(), 8);
    assert_eq!(lines[0], "╭────┬─────────┬──────┬─────┬───────┬───────┬─────────╮");
    assert_eq!(lines[1], "│ id │  state  │ exit │ pri │ gpus  │ label │ command │");
    assert_eq!(lines[2], "├────┼─────────┼──────┼─────┼───────┼───────┼─────────┤");
    assert_eq!(lines[3], "│ 10 │ running │ -    │ -2  │ [0,2] │ l     │ run it  │");
    assert_eq!(lines[4], "│  3 │ failed  │ -1   │ 0   │ 2     │       │ run it  │");
    assert_eq!(lines[7], "╰────┴─────────┴──────┴─────┴───────┴───────┴─────────╯");
}

#[test]
fn a_listing_keeps_to_its_width() {
    let mut long = job(0, JobState::Queued, 0);
    long.argv = vec!["x".repeat(100)];
    let text = jobs_table(&vec![long], Some(60)).to_plain_string();
    for line in text.lines() {
        assert_eq!(line.chars().count(), 60);
    }
    assert!(text.contains("..."));
}

#[test]
fn details_show_every_field() {
    let text = details_table(
        &job(5, JobState::Queued, 3),
        "then".to_string(),
        None,
        Some("later".to_string()),
        None,
    )
    .to_plain_string();
    for (key, value) in [
        ("id", "5"),
        ("state", "queued"),
        ("label", ""),
        ("command", "run it"),
        ("cwd", "/work"),
        ("priority", "3"),
        ("gpus", "-"),
        ("assigned gpus", "-"),
        ("exit code", "-"),
        ("log", "logs/5.log"),
        ("enqueued", "then"),
        ("started", "-"),
        ("finished", "later"),
    ] {
        let row = format!("│ {key:<13} │ {value:<10} │");
        assert!(text.lines().any(|l| l == row), "missing {row:?} in\n{text}");
    }
}

#[test]
fn details_fold_long_values() {
    let mut long = job(0, JobState::Queued, 0);
    long.cwd = "/a/very/long/path/that/does/not/fit/on/one/line".to_string();
    let table = details_table(&long, "t".to_string(), None, None, Some(40));
    let text = table.to_plain_string();
    for line in text.lines() {
        assert!(line.chars().count() <= 40);
    }
    assert!(!text.contains("..."));
}

#[test]
fn times_are_shown_as_date_and_time() {
    let mut j = job(0, JobState::Finished, 0);
    j.started_at = Some(Timestamp { secs: 1_700_000_000, nanos: 5 });
    assert!(can_show_times(&j));
    let text = job_details(&j, None).to_plain_string();
    // Wherever the machine is, the date is one of two days.
    let row = text.lines().find(|l| l.contains("enqueued")).unwrap();
    assert!(row.contains("2023-11-14 ") || row.contains("2023-11-15 "), "{row}");
    assert!(text.lines().any(|l| l.contains("started") && l.contains("2023-11-1")));
    assert!(text.lines().any(|l| l.contains("finished") && l.contains("│ -")));
    // Years that need more than four digits are shown too.
    j.enqueued_at = Timestamp { secs: 300_000_000_000, nanos: 0 };
    assert!(can_show_times(&j));
    assert!(job_details(&j, None).to_plain_string().contains("+11476-"));
    j.enqueued_at = Timestamp { secs: i64::MAX, nanos: 0 };
    assert!(!can_show_times(&j));
}

#[test]
fn several_priorities_are_set_in_order() {
    let mut batch = set_priority_many(&texts(&["12", "15-18", "10"])).unwrap();
    let mut asked = Vec::new();
    while let Some(request) = batch.next() {
        match request {
            Request::SetPriority { id, priority: 10 } => asked.push(id),
            other => panic!("{other:?}"),
        }
        let answer = if asked.len() == 2 {
            Response::Error("no such job".to_string())
        } else {
            Response::Done("done".to_string())
        };
        match batch.answer(answer) {
            Remark::Complain(line) => {
                assert_eq!((asked.len(), line.as_str()), (2, "[ERROR] no such job"))
            }
            Remark::Print(line) => assert_eq!(line, "done"),
            Remark::Unexpected => panic!("unexpected"),
        }
        assert_eq!(batch.exit_status(), if asked.len() < 2 { 0 } else { 1 });
    }
    assert_eq!(asked, vec![12, 15, 16, 17, 18]);
    assert_eq!(batch.exit_status(), 1);
}

#[test]
fn a_batch_without_errors_succeeds() {
    let mut batch = act_on_many(&texts(&["3-4"]), IdAction::Kill).unwrap();
    assert_eq!(batch.action(), IdAction::Kill);
    assert!(matches!(batch.next(), Some(Request::Kill { id: 3 })));
    assert!(matches!(batch.answer(Response::Done("a".to_string())), Remark::Print(_)));
    assert!(matches!(batch.next(), Some(Request::Kill { id: 4 })));
    assert!(matches!(batch.answer(Response::Done("b".to_string())), Remark::Print(_)));
    assert!(batch.next().is_none());
    assert_eq!(batch.exit_status(), 0);
    // Nothing is left to answer.
    assert!(matches!(batch.answer(Response::Error("c".to_string())), Remark::Complain(_)));
    assert_eq!(batch.exit_status(), 0);
}

#[test]
fn an_answer_that_does_not_belong_leaves_the_batch() {
    let mut batch = Batch::new(vec![7, 8], IdAction::Rerun { priority: -2 });
    assert!(matches!(batch.answer(Response::Jobs(Vec::new())), Remark::Unexpected));
    assert!(matches!(batch.next(), Some(Request::Rerun { id: 7, priority: -2 })));
    assert_eq!(batch.exit_status(), 0);
}

#[test]
fn a_batch_needs_arguments_that_make_sense() {
    let e = act_on_many(&texts(&["x"]), IdAction::Pause).unwrap_err();
    assert_eq!(e.message(), "'x' is not a valid job id");
    let e = set_priority_many(&texts(&["1", "high"])).unwrap_err();
    assert_eq!(e.message(), "'high' is not a valid priority value (expected integer)");
    let e = set_priority_many(&texts(&["5-3", "1"])).unwrap_err();
    assert!(matches!(e, PriorityError::Ids(_)));
}

#[test]
fn the_client_starts_the_daemon_and_tries_again() {
    let step = |failed| (connect_step(failed).wait_ms, connect_step(failed).next);
    assert_eq!(step(0), (0, ConnectMove::Connect));
    assert_eq!(step(1), (0, ConnectMove::StartDaemon));
    for failed in 2..=100 {
        assert_eq!(step(failed), (50, ConnectMove::Connect));
    }
    assert_eq!(step(101), (50, ConnectMove::GiveUp));
    assert_eq!(step(u32::MAX), (50, ConnectMove::GiveUp));
}

#[test]
fn only_a_running_job_has_a_footer() {
    assert_eq!(details_footer(&job(0, JobState::Running, 0)), Some("(still running)"));
    for state in [JobState::Queued, JobState::Paused, JobState::Finished, JobState::Failed] {
        assert_eq!(details_footer(&job(0, state, 0)), None);
    }
}

#[test]
fn replies_are_told_apart() {
    let j = job(4, JobState::Queued, 0);
    assert_eq!(info_reply(Response::Job(j)).unwrap().unwrap().id, 4);
    assert!(info_reply(Response::Error("no".to_string())).unwrap().is_none());
    assert!(matches!(info_reply(Response::Done(String::new())), Err(Response::Done(_))));
    match list_reply(Response::Jobs(vec![job(9, JobState::Queued, 0)])) {
        ListReply::Jobs(jobs) => assert_eq!(jobs[0].id, 9),
        other => panic!("{other:?}"),
    }
    match list_reply(Response::Error("no".to_string())) {
        ListReply::Failure(line) => assert_eq!(line, "[ERROR] no"),
        other => panic!("{other:?}"),
    }
    assert!(matches!(
        list_reply(Response::Done("x".to_string())),
        ListReply::Unexpected(Response::Done(_))
    ));
}
