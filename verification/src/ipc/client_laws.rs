//! What commands, listings and tables come to, said of what the user wrote and of
//! the fields of the jobs themselves.
use vstd::prelude::*;

use super::batch::{act_on_many, set_priority_many, Batch, BatchView};
use super::client;
use super::client::{
    ConnectMove, ConnectStep, Dispatch, FollowStep, IdAction, IdError, IdErrorView, ListReply,
    Pick, PriorityError, Remark, WatchTarget,
};
use super::job;
use super::job::{Job, JobState, JobView};
use super::protocol::{Request, Response};
use super::run_laws;
use crate::cli::{Command, ConfigCommand, DaemonCommand, StateFilter};
use crate::text;
use crate::utils::pretty_table::table::TableView;
use crate::utils::pretty_table::Table;

verus! {

// ---------------------------------------------------------------------------
// States and filters
// ---------------------------------------------------------------------------

/// Different states have different names.
pub proof fn law_state_names_differ(a: JobState, b: JobState)
    requires
        a.state_name() == b.state_name(),
    ensures
        a == b,
{
    reveal_state_names();
    let (x, y) = (a.state_name(), b.state_name());
    assert(x.len() == y.len() && x[0] == y[0]);
}

proof fn reveal_state_names()
    ensures
        "queued"@.len() == 6 && "queued"@[0] == 'q',
        "paused"@.len() == 6 && "paused"@[0] == 'p',
        "running"@.len() == 7 && "running"@[0] == 'r',
        "finished"@.len() == 8 && "finished"@[0] == 'f',
        "killed"@.len() == 6 && "killed"@[0] == 'k',
        "failed"@.len() == 6 && "failed"@[0] == 'f',
{
    reveal_strlit("queued");
    reveal_strlit("paused");
    reveal_strlit("running");
    reveal_strlit("finished");
    reveal_strlit("killed");
    reveal_strlit("failed");
}

/// A filter lets exactly the state through whose shown name is the word that the
/// filter is written with.
pub proof fn law_filters_go_by_the_name_of_the_state(filter: StateFilter, state: JobState)
    ensures
        client::lets_through(filter, state) <==> filter.word() == state.state_name(),
{
    reveal_state_names();
    let (x, y) = (filter.word(), state.state_name());
    if x == y {
        assert(x.len() == y.len() && x[0] == y[0]);
    }
}

/// Each filter lets exactly one state through, and each state has a filter.
pub proof fn law_filters_and_states_match(
    filter: StateFilter,
    other: StateFilter,
    a: JobState,
    b: JobState,
) -> (own: StateFilter)
    ensures
        client::lets_through(filter, a) && client::lets_through(filter, b) ==> a == b,
        client::lets_through(filter, a) && client::lets_through(other, a) ==> filter == other,
        client::lets_through(own, a),
{
    law_filters_go_by_the_name_of_the_state(filter, a);
    law_filters_go_by_the_name_of_the_state(filter, b);
    if client::lets_through(filter, a) && client::lets_through(filter, b) {
        law_state_names_differ(a, b);
    }
    match a {
        JobState::Queued => StateFilter::Queued,
        JobState::Paused => StateFilter::Paused,
        JobState::Running => StateFilter::Running,
        JobState::Finished => StateFilter::Finished,
        JobState::Killed => StateFilter::Killed,
        JobState::Failed => StateFilter::Failed,
    }
}

// ---------------------------------------------------------------------------
// Listings
// ---------------------------------------------------------------------------

proof fn lemma_same_filter(jobs: Seq<JobView>, p: spec_fn(JobView) -> bool, q: spec_fn(
    JobView,
) -> bool)
    requires
        forall|i: int| 0 <= i < jobs.len() ==> p(#[trigger] jobs[i]) == q(jobs[i]),
    ensures
        jobs.filter(p) == jobs.filter(q),
    decreases jobs.len(),
{
    reveal(Seq::filter);
    if jobs.len() > 0 {
        lemma_same_filter(jobs.drop_last(), p, q);
        assert(p(jobs[jobs.len() - 1]) == q(jobs[jobs.len() - 1]));
    }
}

proof fn lemma_filter_all(jobs: Seq<JobView>, p: spec_fn(JobView) -> bool)
    requires
        forall|i: int| 0 <= i < jobs.len() ==> p(#[trigger] jobs[i]),
    ensures
        jobs.filter(p) == jobs,
    decreases jobs.len(),
{
    reveal(Seq::filter);
    if jobs.len() > 0 {
        lemma_filter_all(jobs.drop_last(), p);
        assert(p(jobs[jobs.len() - 1]));
        assert(jobs.drop_last().push(jobs.last()) =~= jobs);
    }
}

/// A listing by state holds exactly the jobs whose shown state is one of the words
/// that were given, in the order they came in, whether sorted by id or not.
pub proof fn law_listings_by_state_hold_those_states(
    jobs: Seq<JobView>,
    states: Seq<StateFilter>,
    by_id: bool,
)
    requires
        states.len() > 0,
    ensures
        client::selected(jobs, false, states, by_id) == jobs.filter(
            |j: JobView|
                exists|i: int|
                    0 <= i < states.len() && (#[trigger] states[i]).word()
                        == j.state.state_name(),
        ),
{
    let p = |j: JobView| client::shows(false, states, j.state);
    let q = |j: JobView|
        exists|i: int|
            0 <= i < states.len() && (#[trigger] states[i]).word() == j.state.state_name();
    assert forall|k: int| 0 <= k < jobs.len() implies p(#[trigger] jobs[k]) == q(jobs[k]) by {
        let state = jobs[k].state;
        if p(jobs[k]) {
            let i = choose|i: int|
                0 <= i < states.len() && client::lets_through(#[trigger] states[i], state);
            law_filters_go_by_the_name_of_the_state(states[i], state);
            assert(states[i].word() == state.state_name());
        }
        if q(jobs[k]) {
            let i = choose|i: int|
                0 <= i < states.len() && (#[trigger] states[i]).word() == state.state_name();
            law_filters_go_by_the_name_of_the_state(states[i], state);
            assert(client::lets_through(states[i], state));
        }
    }
    lemma_same_filter(jobs, p, q);
}

/// A listing of everything holds every job, in the order they came in.
pub proof fn law_listings_of_everything_hold_every_job(
    jobs: Seq<JobView>,
    states: Seq<StateFilter>,
    by_id: bool,
)
    ensures
        client::selected(jobs, true, states, by_id) == jobs,
{
    lemma_filter_all(jobs, |j: JobView| client::shows(true, states, j.state));
}

/// Without any choice, a listing holds exactly the jobs that run or wait: by id in
/// the order they came in, else each of them as often, with running jobs first, by
/// id, then queued jobs by falling priority and rising id, then the others by id.
pub proof fn law_default_listings_show_what_runs_or_waits(jobs: Seq<JobView>, i: int, k: int)
    ensures
        client::selected(jobs, false, Seq::empty(), true) == jobs.filter(
            |j: JobView| j.state is Running || j.state is Queued || j.state is Paused,
        ),
        client::selected(jobs, false, Seq::empty(), false).to_multiset() == jobs.filter(
            |j: JobView| j.state is Running || j.state is Queued || j.state is Paused,
        ).to_multiset(),
        0 <= i < k < client::selected(jobs, false, Seq::empty(), false).len() ==> ({
            let a = client::selected(jobs, false, Seq::empty(), false)[i];
            let b = client::selected(jobs, false, Seq::empty(), false)[k];
            &&& b.state is Running ==> a.state is Running && a.id <= b.id
            &&& b.state is Queued ==> a.state is Running || (a.state is Queued && (a.priority
                > b.priority || (a.priority == b.priority && a.id <= b.id)))
            &&& !(a.state is Running) && !(a.state is Queued) ==> !(b.state is Running)
                && !(b.state is Queued) && a.id <= b.id
        }),
{
    let none = Seq::<StateFilter>::empty();
    let p = |j: JobView| client::shows(false, none, j.state);
    let q = |j: JobView| j.state is Running || j.state is Queued || j.state is Paused;
    lemma_same_filter(jobs, p, q);
    let kept = jobs.filter(q);
    client::law_execution_order_sorts(kept);
    let sorted = client::selected(jobs, false, none, false);
    assert(sorted == client::in_execution_order(kept));
    if 0 <= i < k < sorted.len() {
        assert(client::not_after(sorted[i], sorted[k]));
    }
}

/// What is said of an empty listing depends on whether anything was chosen.
pub proof fn law_empty_listings_are_explained(all: bool, states: Seq<StateFilter>)
    ensures
        !all && states.len() == 0 <==> client::spec_empty_notice(all, states)
            == "(no running or queued jobs; pass --all to show every state)"@,
        all || states.len() > 0 <==> client::spec_empty_notice(all, states)
            == "(no matching jobs)"@,
{
    reveal_strlit("(no running or queued jobs; pass --all to show every state)");
    reveal_strlit("(no matching jobs)");
    assert("(no matching jobs)"@.len() == 18);
    assert("(no running or queued jobs; pass --all to show every state)"@.len() == 59);
}

/// The running ones of some jobs are those that run, in the order they came in.
pub proof fn law_running_jobs_are_those_that_run(jobs: Seq<JobView>)
    ensures
        client::running_jobs(jobs) == jobs.filter(|j: JobView| j.state is Running),
{
    lemma_same_filter(
        jobs,
        |j: JobView| j.state == JobState::Running,
        |j: JobView| j.state is Running,
    );
}

// ---------------------------------------------------------------------------
// Job ids
// ---------------------------------------------------------------------------

proof fn lemma_first_hyphen(s: Seq<char>, from: int)
    requires
        0 <= from <= s.len(),
    ensures
        from <= client::first_hyphen(s, from) <= s.len(),
        client::first_hyphen(s, from) < s.len() ==> s[client::first_hyphen(s, from)] == '-',
        forall|k: int| from <= k < client::first_hyphen(s, from) ==> #[trigger] s[k] != '-',
    decreases s.len() - from,
{
    if from < s.len() && s[from] != '-' {
        lemma_first_hyphen(s, from + 1);
    }
}

/// An argument with a hyphen names the jobs from the number before its first hyphen
/// to the number behind it, both among them. One that ends before it starts, or
/// whose ends are no numbers, names none and says why.
pub proof fn law_ranges_name_what_lies_between(x: Seq<char>, y: Seq<char>, id: u32)
    requires
        !x.contains('-'),
    ensures
        ({
            let arg = x + seq!['-'] + y;
            match (text::parsed_u32(x), text::parsed_u32(y)) {
                (Some(a), Some(b)) => {
                    &&& client::names_job(arg, id) <==> a <= id <= b
                    &&& a <= b ==> client::id_range(arg) == Ok::<(u32, u32), IdErrorView>((a, b))
                    &&& a > b ==> client::id_range(arg) == Err::<(u32, u32), IdErrorView>(
                        IdErrorView::Backwards { arg, start: a, end: b },
                    )
                },
                _ => {
                    &&& !client::names_job(arg, id)
                    &&& client::id_range(arg) == Err::<(u32, u32), IdErrorView>(
                        IdErrorView::BadRange { arg },
                    )
                },
            }
        }),
{
    let arg = x + seq!['-'] + y;
    let at = client::first_hyphen(arg, 0);
    lemma_first_hyphen(arg, 0);
    assert(arg[x.len() as int] == '-');
    if at < x.len() {
        assert(x[at] == arg[at]);
        assert(x.contains('-'));
    }
    assert(at == x.len());
    assert(arg.take(at) =~= x);
    assert(arg.skip(at + 1) =~= y);
}

/// An argument without a hyphen names the job with that number, or none.
pub proof fn law_plain_numbers_name_one_job(arg: Seq<char>, id: u32)
    requires
        !arg.contains('-'),
    ensures
        client::names_job(arg, id) <==> text::parsed_u32(arg) == Some(id),
        text::parsed_u32(arg) is None <==> client::id_range(arg) == Err::<
            (u32, u32),
            IdErrorView,
        >(IdErrorView::BadId { arg }),
{
    let at = client::first_hyphen(arg, 0);
    lemma_first_hyphen(arg, 0);
    if at < arg.len() {
        assert(arg.contains('-'));
    }
}

/// Two numbers with a hyphen in between name all jobs from the one to the other.
pub proof fn law_written_ranges_name_their_jobs(a: u32, b: u32, id: u32)
    ensures
        client::names_job(text::decimal(a as nat) + seq!['-'] + text::decimal(b as nat), id)
            <==> a <= id <= b,
        client::names_job(text::decimal(a as nat), id) <==> id == a,
{
    let x = text::decimal(a as nat);
    text::lemma_decimal_reads_back(a as nat);
    text::law_u32_text_round_trip(a);
    text::law_u32_text_round_trip(b);
    assert(!x.contains('-')) by {
        if x.contains('-') {
            let k = choose|k: int| 0 <= k < x.len() && x[k] == '-';
            assert(text::is_digit(x[k]));
        }
    }
    law_ranges_name_what_lies_between(x, text::decimal(b as nat), id);
    law_plain_numbers_name_one_job(x, id);
}

/// What is wrong with some arguments is what is wrong with the first that names no
/// jobs; nothing is wrong where each of them names some.
pub proof fn law_the_first_bad_argument_is_told(args: Seq<Seq<char>>)
    ensures
        client::first_id_error(args) is None <==> forall|i: int|
            0 <= i < args.len() ==> client::id_range(#[trigger] args[i]) is Ok,
        client::first_id_error(args) is Some ==> exists|i: int|
            {
                &&& 0 <= i < args.len()
                &&& client::id_range(#[trigger] args[i]) == Err::<(u32, u32), IdErrorView>(
                    client::first_id_error(args)->0,
                )
                &&& forall|k: int| 0 <= k < i ==> client::id_range(#[trigger] args[k]) is Ok
            },
    decreases args.len(),
{
    if args.len() > 0 {
        let init = args.drop_last();
        law_the_first_bad_argument_is_told(init);
        let last = args.len() - 1;
        assert(args[last] == args.last());
        if client::first_id_error(init) is Some {
            let i = choose|i: int|
                {
                    &&& 0 <= i < init.len()
                    &&& client::id_range(#[trigger] init[i]) == Err::<(u32, u32), IdErrorView>(
                        client::first_id_error(init)->0,
                    )
                    &&& forall|k: int| 0 <= k < i ==> client::id_range(#[trigger] init[k]) is Ok
                };
            assert(client::id_range(args[i]) is Err);
            assert forall|k: int| 0 <= k < i implies client::id_range(#[trigger] args[k]) is Ok by {
                assert(client::id_range(init[k]) is Ok);
            }
        } else {
            assert forall|k: int| 0 <= k < last implies client::id_range(
                #[trigger] args[k],
            ) is Ok by {
                assert(client::id_range(init[k]) is Ok);
            }
        }
    }
}

/// Jobs are named by any of the arguments, and each once, in increasing order.
pub proof fn law_jobs_are_named_by_any_argument(args: Seq<Seq<char>>, ids: Seq<u32>, id: u32)
    ensures
        client::some_names_job(args, id) <==> exists|i: int|
            0 <= i < args.len() && client::names_job(#[trigger] args[i], id),
        client::increasing(ids) <==> forall|i: int, j: int|
            0 <= i < j < ids.len() ==> ids[i] < ids[j],
{
}

/// An error quotes the argument that it is about.
pub proof fn law_id_errors_quote_the_argument(arg: Seq<char>, start: u32, end: u32)
    ensures
        (IdErrorView::BadId { arg }).text() == "'"@ + arg + "' is not a valid job id"@,
        (IdErrorView::BadRange { arg }).text() == "invalid id in range '"@ + arg + "'"@,
        (IdErrorView::Backwards { arg, start, end }).text() == "invalid range '"@ + arg
            + "': start ("@ + text::decimal(start as nat) + ") is greater than end ("@
            + text::decimal(end as nat) + ")"@,
{
}

// ---------------------------------------------------------------------------
// Commands
// ---------------------------------------------------------------------------

/// A command that names jobs does to each of them what it is called, with the
/// arguments as they were written.
pub proof fn law_commands_do_what_they_are_called(
    ids: Vec<String>,
    priority: i32,
    args: Vec<String>,
    id: u32,
)
    ensures
        client::dispatched(Command::Kill { ids, all: false }) matches Dispatch::Each {
            ids: named,
            action,
        } && named == ids && action.spec_request(id) == (Request::Kill { id }),
        client::dispatched(Command::Rerun { ids, priority }) matches Dispatch::Each {
            ids: named,
            action,
        } && named == ids && action.spec_request(id) == (Request::Rerun { id, priority }),
        client::dispatched(Command::Restart { ids }) matches Dispatch::Each { ids: named, action }
            && named == ids && action.spec_request(id) == (Request::Restart { id }),
        ids@.len() > 0 ==> (client::dispatched(Command::Pause { ids }) matches Dispatch::Each {
            ids: named,
            action,
        } && named == ids && action.spec_request(id) == (Request::PauseJob { id })),
        ids@.len() > 0 ==> (client::dispatched(Command::Resume { ids }) matches Dispatch::Each {
            ids: named,
            action,
        } && named == ids && action.spec_request(id) == (Request::ResumeJob { id })),
        ids@.len() == 0 ==> client::dispatched(Command::Resume { ids }) is ResumeAll,
        client::dispatched(Command::Priority { args }) == (Dispatch::Prioritise { args }),
        (IdAction::SetPriority { priority }).spec_request(id) == (Request::SetPriority {
            id,
            priority,
        }),
{
}

/// Listing and watching are done with what was asked for, and the daemon is run
/// where that is asked for.
pub proof fn law_listing_and_watching_are_done_as_asked(
    all: bool,
    state: Vec<StateFilter>,
    by_id: bool,
    id: Option<u32>,
    from_start: bool,
)
    ensures
        client::dispatched(Command::List { all, state, by_id }) == (Dispatch::List {
            all,
            states: state,
            by_id,
        }),
        client::dispatched(Command::Watch { id, from_start }) == (Dispatch::Watch {
            id,
            from_start,
        }),
        client::dispatched(Command::RunDaemon) is RunDaemon,
{
}

/// Every other command is sent as one request, which asks for what the command does.
pub proof fn law_single_requests_ask_for_what_the_command_does(
    command: Command,
    cwd: String,
    env: Vec<(String, String)>,
)
    requires
        client::is_single_request(command),
    ensures
        client::dispatched(command) == (Dispatch::Send { command }),
        match command {
            Command::Add { label, gpus, priority, argv } => client::requested(command, cwd, env)
                == (Request::Add { argv, label, cwd, gpus, priority, env }),
            Command::Info { id } => client::requested(command, cwd, env) == (Request::Info { id }),
            Command::Cat { id } => client::requested(command, cwd, env) == (Request::Cat { id }),
            Command::Kill { all, .. } => all && client::requested(command, cwd, env)
                is KillAll,
            Command::Label { id, label } => client::requested(command, cwd, env) == (
            Request::SetLabel { id, text: label }),
            Command::Pause { ids } => ids@.len() == 0 && client::requested(command, cwd, env)
                is PauseAllQueued,
            Command::Remove { id } => client::requested(command, cwd, env) == (Request::Remove {
                id,
            }),
            Command::Clear => client::requested(command, cwd, env) is Clear,
            Command::Daemon { command: inner } => match inner {
                DaemonCommand::Devices => client::requested(command, cwd, env) is GetDevices,
                DaemonCommand::Shutdown => client::requested(command, cwd, env) is Shutdown,
                DaemonCommand::Config { setting } => match setting {
                    ConfigCommand::CpuLimit { limit } => limit_request(
                        limit,
                        client::requested(command, cwd, env),
                    ),
                },
            },
            _ => false,
        },
{
}

/// Without a number the limit is asked for; a number sets it, and 0 lifts it.
pub open spec fn limit_request(limit: Option<u32>, request: Request) -> bool {
    match limit {
        None => request is GetCpuLimit,
        Some(n) => request matches Request::SetCpuLimit { limit: set } && (n == 0 ==> set is None)
            && (n > 0 ==> set == Some(n)),
    }
}

/// Which commands are sent as one request.
pub proof fn law_commands_for_one_request(command: Command)
    requires
        command is Add || command is Info || command is Cat || command is Label || command
            is Remove || command is Clear || command is Daemon || (command matches Command::Kill {
            all,
            ..
        } && all) || (command matches Command::Pause { ids } && ids@.len() == 0),
    ensures
        client::is_single_request(command),
{
}

/// Different actions are called by different names, which say what they do.
pub proof fn law_actions_are_called_what_they_do(priority: i32)
    ensures
        IdAction::Kill.spec_name() == "kill"@,
        (IdAction::Rerun { priority }).spec_name() == "rerun"@,
        (IdAction::SetPriority { priority }).spec_name() == "set-priority"@,
        IdAction::Restart.spec_name() == "restart"@,
        IdAction::Pause.spec_name() == "pause"@,
        IdAction::Resume.spec_name() == "resume"@,
{
}

/// The next request of a batch is about the first job that waits. An answer takes
/// that job off, and it alone; an error is remembered for good. An answer that does
/// not belong to the request changes nothing. The exit status tells errors apart.
pub proof fn law_answers_take_one_job_off(batch: BatchView, response: Response)
    requires
        batch.waiting.len() > 0,
    ensures
        batch.next() == Some(batch.action.spec_request(batch.waiting[0])),
        response is Done || response is Error ==> seq![batch.waiting[0]] + batch.after(
            response,
        ).waiting == batch.waiting,
        !(response is Done) && !(response is Error) ==> batch.after(response) == batch,
        batch.after(response).action == batch.action,
        batch.after(response).had_error == (batch.had_error || response is Error),
        batch.status() == 1 <==> batch.had_error,
        batch.status() == 0 <==> !batch.had_error,
{
    let rest = batch.waiting.skip(1);
    assert(seq![batch.waiting[0]] + rest =~= batch.waiting);
}

/// A batch without jobs is done.
pub proof fn law_batches_end(batch: BatchView, response: Response)
    requires
        batch.waiting.len() == 0,
    ensures
        batch.next() is None,
        batch.after(response) == batch,
{
}

// ---------------------------------------------------------------------------
// Tables
// ---------------------------------------------------------------------------

/// Whether a cell shows GPU indices: a list of them in brackets.
pub open spec fn shows_indices(cell: Seq<char>, indices: Seq<u32>) -> bool {
    &&& cell.len() >= 2
    &&& cell[0] == '['
    &&& cell[cell.len() - 1] == ']'
    &&& run_laws::lists_numbers(cell.subrange(1, cell.len() - 1), indices)
}

/// A list of indices reads back as the indices.
pub proof fn law_shown_indices_read_back(indices: Seq<u32>)
    ensures
        shows_indices(client::gpu_list(indices), indices),
{
    reveal_strlit("[");
    reveal_strlit("]");
    let cell = client::gpu_list(indices);
    let inner = text::joined(text::decimals(indices), ","@);
    assert("["@ =~= seq!['[']);
    assert("]"@ =~= seq![']']);
    assert(cell.subrange(1, cell.len() - 1) =~= inner);
    text::law_number_lists_read_back(indices);
}

/// Whether a cell shows a number, or a dash where there is none.
pub open spec fn shows_code(cell: Seq<char>, code: Option<i32>) -> bool {
    match code {
        Some(n) => text::parsed_i32(cell) == Some(n),
        None => cell == seq!['-'],
    }
}

/// Whether a cell shows how many GPUs were asked for, or a dash for none.
pub open spec fn shows_count(cell: Seq<char>, gpus: u32) -> bool {
    if gpus == 0 {
        cell == seq!['-']
    } else {
        text::parsed_u32(cell) == Some(gpus)
    }
}

/// Whether a cell shows a label, or nothing where there is none.
pub open spec fn shows_label(cell: Seq<char>, label: Option<Seq<char>>) -> bool {
    match label {
        Some(text) => cell == text,
        None => cell.len() == 0,
    }
}

proof fn lemma_cells(job: JobView)
    ensures
        shows_code(client::exit_cell(job.exit_code), job.exit_code),
        shows_count(client::gpu_count_cell(job.gpus), job.gpus),
        shows_label(client::label_cell(job.label), job.label),
        text::parsed_u32(text::decimal(job.id as nat)) == Some(job.id),
        text::parsed_i32(text::signed_decimal(job.priority as int)) == Some(job.priority),
        "-"@ == seq!['-'],
{
    reveal_strlit("-");
    reveal_strlit("");
    assert("-"@ =~= seq!['-']);
    text::law_u32_text_round_trip(job.id);
    text::law_u32_text_round_trip(job.gpus);
    text::law_i32_text_round_trip(job.priority);
    if let Some(code) = job.exit_code {
        text::law_i32_text_round_trip(code);
    }
}

/// The row of a job in a listing shows its fields: what a cell says reads back as
/// what the job holds. While a job runs on GPUs the row lists them, else it tells how
/// many were asked for.
pub proof fn law_listing_rows_show_the_job(job: JobView)
    ensures
        ({
            let row = client::listing_row(job);
            &&& row.len() == 7
            &&& text::parsed_u32(row[0]) == Some(job.id)
            &&& row[1] == job.state.state_name()
            &&& shows_code(row[2], job.exit_code)
            &&& text::parsed_i32(row[3]) == Some(job.priority)
            &&& job.state is Running && job.assigned_gpus.len() > 0 ==> shows_indices(
                row[4],
                job.assigned_gpus,
            )
            &&& !(job.state is Running) || job.assigned_gpus.len() == 0 ==> shows_count(
                row[4],
                job.gpus,
            )
            &&& shows_label(row[5], job.label)
            &&& row[6] == text::joined(job.argv, " "@)
        }),
{
    lemma_cells(job);
    law_shown_indices_read_back(job.assigned_gpus);
}

/// The table of a listing has a row for each job, in order, under the names of the
/// columns; with a width, the command is cut so that the table keeps to it.
pub proof fn law_listings_have_a_row_for_each_job(
    t: TableView,
    jobs: Seq<JobView>,
    width: Option<usize>,
    i: int,
)
    requires
        client::is_listing(t, jobs, width),
        0 <= i < jobs.len(),
    ensures
        t.rows.len() == jobs.len(),
        t.rows[i] == client::listing_row(jobs[i]),
        t.header == seq!["id"@, "state"@, "exit"@, "pri"@, "gpus"@, "label"@, "command"@],
        t.max_width == width,
        width is Some ==> t.flex_column == Some(6usize),
        !t.wrap,
        t.right_aligned == seq![0usize],
{
}

/// Whether a cell shows a time, or a dash where it has not come.
pub open spec fn shows_moment(cell: Seq<char>, moment: Option<Seq<char>>) -> bool {
    match moment {
        Some(shown) => cell == shown,
        None => cell == seq!['-'],
    }
}

/// The details of a job show its fields, each under its name: what a cell says reads
/// back as what the job holds. GPUs are listed only while the job runs.
pub proof fn law_details_show_the_job(
    job: JobView,
    enqueued: Seq<char>,
    started: Option<Seq<char>>,
    finished: Option<Seq<char>>,
)
    ensures
        ({
            let rows = client::detail_rows(job, enqueued, started, finished);
            &&& rows.len() == 13
            &&& forall|i: int| 0 <= i < 13 ==> (#[trigger] rows[i]).len() == 2
            &&& rows[0][0] == "id"@ && text::parsed_u32(rows[0][1]) == Some(job.id)
            &&& rows[1][0] == "state"@ && rows[1][1] == job.state.state_name()
            &&& rows[2][0] == "label"@ && shows_label(rows[2][1], job.label)
            &&& rows[3][0] == "command"@ && rows[3][1] == text::joined(job.argv, " "@)
            &&& rows[4][0] == "cwd"@ && rows[4][1] == job.cwd
            &&& rows[5][0] == "priority"@ && text::parsed_i32(rows[5][1]) == Some(job.priority)
            &&& rows[6][0] == "gpus"@ && shows_count(rows[6][1], job.gpus)
            &&& rows[7][0] == "assigned gpus"@
            &&& job.state is Running && job.assigned_gpus.len() > 0 ==> shows_indices(
                rows[7][1],
                job.assigned_gpus,
            )
            &&& !(job.state is Running) || job.assigned_gpus.len() == 0 ==> rows[7][1] == seq!['-']
            &&& rows[8][0] == "exit code"@ && shows_code(rows[8][1], job.exit_code)
            &&& rows[9][0] == "log"@ && rows[9][1] == job.log_path
            &&& rows[10][0] == "enqueued"@ && rows[10][1] == enqueued
            &&& rows[11][0] == "started"@ && shows_moment(rows[11][1], started)
            &&& rows[12][0] == "finished"@ && shows_moment(rows[12][1], finished)
        }),
{
    lemma_cells(job);
    law_shown_indices_read_back(job.assigned_gpus);
}

/// The table of the details holds exactly the rows of the job, and folds the values
/// where it has to keep to a width.
pub proof fn law_details_hold_the_rows_of_the_job(
    t: TableView,
    rows: Seq<Seq<Seq<char>>>,
    width: Option<usize>,
)
    requires
        client::is_details(t, rows, width),
    ensures
        t.rows == rows,
        t.header == seq!["key"@, "value"@],
        t.max_width == width,
        width is Some ==> t.flex_column == Some(1usize) && t.wrap,
        t.right_aligned.len() == 0,
{
}

// ---------------------------------------------------------------------------
// Words
// ---------------------------------------------------------------------------

/// What the client says of a job names the job, and how it stands.
pub proof fn law_remarks_name_the_job(id: u32, state: JobState, message: Seq<char>)
    ensures
        client::error_line(message) == "[ERROR] "@ + message,
        client::not_running_warning(id, state) == "[WARN] job "@ + text::decimal(id as nat)
            + " is "@ + state.state_name() + ", not running; watch only follows running jobs."@,
        client::cat_hint(id) == "(use `msc cat "@ + text::decimal(id as nat)
            + "` to see its captured output)"@,
{
}

/// A priority that is no number is quoted.
pub proof fn law_bad_priorities_are_quoted(e: PriorityError)
    ensures
        e matches PriorityError::BadPriority { arg } ==> e.text() == "'"@ + arg@
            + "' is not a valid priority value (expected integer)"@,
        e matches PriorityError::Ids(inner) ==> e.text() == inner@.text(),
{
}

// ---------------------------------------------------------------------------
// Connecting and watching
// ---------------------------------------------------------------------------

/// The daemon is started once, after the first failure, and the client gives up after
/// the hundred tries that follow, 50 ms apart. Once it has given up it does not try
/// again.
pub proof fn law_the_daemon_is_started_once(
    failed: u32,
    later: u32,
    a: ConnectStep,
    b: ConnectStep,
)
    requires
        client::connect_step.ensures((failed,), a),
        client::connect_step.ensures((later,), b),
        failed <= later,
    ensures
        a.next == ConnectMove::StartDaemon <==> failed == 1,
        a.next == ConnectMove::GiveUp <==> failed > 100,
        a.next == ConnectMove::GiveUp ==> b.next == ConnectMove::GiveUp,
        failed <= 1 ==> a.wait_ms == 0,
        failed > 1 ==> a.wait_ms == 50,
{
}

/// A job is followed as long as it waits or runs; one that is over or gone ends it, and
/// the client says which and how. Following starts at the end of the log, or at its
/// beginning where that is asked for.
pub proof fn law_jobs_are_followed_until_they_are_over(
    id: u32,
    state: Option<JobState>,
    step: FollowStep,
    from_start: bool,
    log_len: u64,
    pos: u64,
)
    requires
        client::follow_step.ensures((id, state), step),
        client::follow_start.ensures((from_start, log_len), pos),
    ensures
        step is Gone <==> state is None,
        step is GoOn <==> state is Some && (state->0 is Queued || state->0 is Paused || state->0
            is Running),
        step matches FollowStep::Gone { notice } ==> notice@ == "(job "@ + text::decimal(id as nat)
            + " no longer exists)"@,
        step matches FollowStep::Over { notice } ==> notice@ == "(job "@ + text::decimal(id as nat)
            + " "@ + state->0.state_name() + ")"@,
        from_start ==> pos == 0,
        !from_start ==> pos == log_len,
{
}

/// A named job is watched exactly where it is there and runs; where it does not run the
/// client says how it stands, and where its output is if it is over.
pub proof fn law_only_running_jobs_are_watched(id: u32, job: Option<Job>, r: WatchTarget)
    requires
        client::resolve_watch_target.ensures((id, job), r),
    ensures
        r is Missing <==> job is None,
        r is Follow <==> job is Some && job->0.state is Running,
        r matches WatchTarget::Follow { id: target } ==> target == job->0.id,
        r matches WatchTarget::Missing { error } ==> error@ == "[ERROR] "@ + ("No such job (id "@
            + text::decimal(id as nat) + ")"@),
        r matches WatchTarget::NotRunning { warning, hint } ==> warning@ == "[WARN] job "@
            + text::decimal(id as nat) + " is "@ + job->0.state.state_name()
            + ", not running; watch only follows running jobs."@ && (hint is Some <==> !(
        job->0.state is Queued) && !(job->0.state is Paused)),
        r matches WatchTarget::NotRunning { warning, hint } ==> (hint matches Some(line) ==> line@
            == "(use `msc cat "@ + text::decimal(id as nat)
            + "` to see its captured output)"@),
{
}

/// Without a name, the one job that runs is watched; where several run, exactly those
/// are shown to choose from.
pub proof fn law_the_only_running_job_is_watched(jobs: Vec<Job>, r: Pick)
    requires
        client::pick_running_job.ensures((jobs,), r),
    ensures
        ({
            let running = job::job_views(jobs@).filter(|j: JobView| j.state is Running);
            &&& r is Nothing <==> running.len() == 0
            &&& r is One <==> running.len() == 1
            &&& r matches Pick::One { id } ==> id == running[0].id
            &&& r matches Pick::Several { jobs: shown } ==> job::job_views(shown@) == running
        }),
{
    law_running_jobs_are_those_that_run(job::job_views(jobs@));
}

/// Answers are told apart by what they are: a message is printed, an error is shown as
/// one, and what does not belong to the request comes back.
pub proof fn law_answers_are_told_apart(
    response: Response,
    remark: Remark,
    info: Result<Option<Job>, Response>,
    list: ListReply,
)
    requires
        client::judge.ensures((response,), remark),
        client::info_reply.ensures((response,), info),
        client::list_reply.ensures((response,), list),
    ensures
        response matches Response::Done(message) ==> remark == Remark::Print(message),
        response matches Response::Error(message) ==> (remark matches Remark::Complain(line)
            && line@ == "[ERROR] "@ + message@),
        remark is Unexpected <==> !(response is Done) && !(response is Error),
        response matches Response::Job(job) ==> info == Ok::<Option<Job>, Response>(Some(job)),
        response is Error ==> info == Ok::<Option<Job>, Response>(None),
        !(response is Job) && !(response is Error) ==> info == Err::<Option<Job>, Response>(
            response,
        ),
        response matches Response::Jobs(jobs) ==> list == ListReply::Jobs(jobs),
        response matches Response::Error(message) ==> (list matches ListReply::Failure(line)
            && line@ == "[ERROR] "@ + message@),
        !(response is Jobs) && !(response is Error) ==> list == ListReply::Unexpected(response),
{
}

/// Only a running job is said to be still running.
pub proof fn law_running_jobs_are_still_running(job: Job, r: Option<&'static str>)
    requires
        client::details_footer.ensures((&job,), r),
    ensures
        r is Some <==> job.state is Running,
        r matches Some(line) ==> line@ == "(still running)"@,
{
}

/// Resuming everything is confirmed first exactly where some job is still queued, and a
/// yes is a yes in either length, whatever its case and the white space around it.
pub proof fn law_resuming_is_confirmed_while_jobs_are_queued(
    jobs: Vec<Job>,
    asks: bool,
    answer: &str,
    yes: bool,
)
    requires
        client::resume_needs_confirmation.ensures((&jobs,), asks),
        client::is_yes.ensures((answer,), yes),
    ensures
        asks <==> exists|i: int| 0 <= i < jobs@.len() && (#[trigger] jobs@[i]).state is Queued,
        yes <==> text::ascii_lowered(text::trimmed(answer@)) == "y"@ || text::ascii_lowered(
            text::trimmed(answer@),
        ) == "yes"@,
{
    if asks {
        let i = choose|i: int|
            0 <= i < jobs@.len() && (#[trigger] jobs@[i]).state == JobState::Queued;
        assert(jobs@[i].state is Queued);
    }
    if exists|i: int| 0 <= i < jobs@.len() && (#[trigger] jobs@[i]).state is Queued {
        let i = choose|i: int| 0 <= i < jobs@.len() && (#[trigger] jobs@[i]).state is Queued;
        assert(jobs@[i].state == JobState::Queued);
    }
}

// ---------------------------------------------------------------------------
// What the functions give
// ---------------------------------------------------------------------------

/// A state passes a filter exactly where it is shown by the word of the filter.
pub proof fn law_matching_goes_by_the_name_of_the_state(
    filter: StateFilter,
    state: JobState,
    r: bool,
)
    requires
        client::filter_matches.ensures((filter, &state), r),
    ensures
        r <==> filter.word() == state.state_name(),
{
    law_filters_go_by_the_name_of_the_state(filter, state);
}

/// A state is wanted where everything is, where one of the words that were given is its
/// name, or, where none was given, where the job runs or waits.
pub proof fn law_wanted_states_are_those_asked_for(
    all: bool,
    states: &[StateFilter],
    state: JobState,
    r: bool,
)
    requires
        client::state_wanted.ensures((all, states, &state), r),
    ensures
        all ==> r,
        !all && states@.len() == 0 ==> (r <==> state is Running || state is Queued || state
            is Paused),
        !all && states@.len() > 0 ==> (r <==> exists|i: int|
            0 <= i < states@.len() && (#[trigger] states@[i]).word() == state.state_name()),
{
    if !all && states@.len() > 0 {
        if r {
            let i = choose|i: int|
                0 <= i < states@.len() && client::lets_through(#[trigger] states@[i], state);
            law_filters_go_by_the_name_of_the_state(states@[i], state);
            assert(states@[i].word() == state.state_name());
        }
        if exists|i: int|
            0 <= i < states@.len() && (#[trigger] states@[i]).word() == state.state_name() {
            let i = choose|i: int|
                0 <= i < states@.len() && (#[trigger] states@[i]).word() == state.state_name();
            law_filters_go_by_the_name_of_the_state(states@[i], state);
            assert(client::lets_through(states@[i], state));
        }
    }
}

/// The jobs that a listing by state selects are exactly those whose shown state is one
/// of the words that were given.
pub proof fn law_selected_jobs_have_the_states_asked_for(
    jobs: Vec<Job>,
    states: &[StateFilter],
    by_id: bool,
    r: Vec<Job>,
)
    requires
        client::select_jobs.ensures((jobs, false, states, by_id), r),
        states@.len() > 0,
    ensures
        job::job_views(r@) == job::job_views(jobs@).filter(
            |j: JobView|
                exists|i: int|
                    0 <= i < states@.len() && (#[trigger] states@[i]).word()
                        == j.state.state_name(),
        ),
{
    law_listings_by_state_hold_those_states(job::job_views(jobs@), states@, by_id);
}

/// The ids that some arguments name are exactly those from the first to the last number
/// of each, each once, in increasing order.
pub proof fn law_parsed_ids_are_those_named(args: &[String], r: Result<Vec<u32>, IdError>, id: u32)
    requires
        client::parse_job_ids.ensures((args,), r),
    ensures
        r matches Ok(ids) ==> (ids@.contains(id) <==> exists|i: int|
            0 <= i < args@.len() && client::names_job((#[trigger] args@[i])@, id)),
        r matches Ok(ids) ==> forall|i: int, j: int| 0 <= i < j < ids@.len() ==> ids@[i] < ids@[j],
        r is Ok <==> forall|i: int|
            0 <= i < args@.len() ==> client::id_range((#[trigger] args@[i])@) is Ok,
{
    let texts = args.deep_view();
    law_the_first_bad_argument_is_told(texts);
    assert forall|i: int| 0 <= i < args@.len() implies texts[i] == (#[trigger] args@[i])@ by {}
    if client::some_names_job(texts, id) {
        let i = choose|i: int| 0 <= i < texts.len() && client::names_job(#[trigger] texts[i], id);
        assert(client::names_job(args@[i]@, id));
    }
    if exists|i: int| 0 <= i < args@.len() && client::names_job((#[trigger] args@[i])@, id) {
        let i = choose|i: int|
            0 <= i < args@.len() && client::names_job((#[trigger] args@[i])@, id);
        assert(client::names_job(texts[i], id));
    }
    if forall|i: int| 0 <= i < args@.len() ==> client::id_range((#[trigger] args@[i])@) is Ok {
        assert forall|i: int| 0 <= i < texts.len() implies client::id_range(
            #[trigger] texts[i],
        ) is Ok by {
            assert(client::id_range(args@[i]@) is Ok);
        }
    }
    if r is Ok {
        assert forall|i: int| 0 <= i < args@.len() implies client::id_range(
            (#[trigger] args@[i])@,
        ) is Ok by {
            assert(client::id_range(texts[i]) is Ok);
        }
    }
}

/// A change of priorities asks, for each job that is named before the last argument, for
/// the priority that the last argument is read as.
pub proof fn law_priorities_are_the_last_argument(
    args: Vec<String>,
    r: Result<Batch, PriorityError>,
    id: u32,
)
    requires
        set_priority_many.ensures((&args,), r),
        args@.len() >= 2,
    ensures
        r matches Ok(batch) ==> ({
            let priority = text::parsed_i32(args@[args@.len() - 1]@);
            &&& priority is Some
            &&& batch@.action.spec_request(id) == (Request::SetPriority {
                id,
                priority: priority->0,
            })
            &&& !batch@.had_error
            &&& batch@.waiting.contains(id) <==> exists|i: int|
                0 <= i < args@.len() - 1 && client::names_job((#[trigger] args@[i])@, id)
            &&& forall|i: int, j: int|
                0 <= i < j < batch@.waiting.len() ==> batch@.waiting[i] < batch@.waiting[j]
        }),
{
    let texts = args.deep_view();
    let named = texts.drop_last();
    assert(texts.last() == args@[args@.len() - 1]@);
    assert forall|i: int| 0 <= i < args@.len() - 1 implies named[i] == (
    #[trigger] args@[i])@ by {}
    if client::some_names_job(named, id) {
        let i = choose|i: int| 0 <= i < named.len() && client::names_job(#[trigger] named[i], id);
        assert(client::names_job(args@[i]@, id));
    }
    if exists|i: int| 0 <= i < args@.len() - 1 && client::names_job((#[trigger] args@[i])@, id) {
        let i = choose|i: int|
            0 <= i < args@.len() - 1 && client::names_job((#[trigger] args@[i])@, id);
        assert(client::names_job(named[i], id));
    }
}

/// A command that names jobs asks for each of them what the action asks for.
pub proof fn law_actions_reach_the_jobs_that_are_named(
    args: &[String],
    action: IdAction,
    r: Result<Batch, IdError>,
    id: u32,
)
    requires
        act_on_many.ensures((args, action), r),
    ensures
        r matches Ok(batch) ==> ({
            &&& batch@.action == action
            &&& !batch@.had_error
            &&& batch@.waiting.contains(id) <==> exists|i: int|
                0 <= i < args@.len() && client::names_job((#[trigger] args@[i])@, id)
            &&& forall|i: int, j: int|
                0 <= i < j < batch@.waiting.len() ==> batch@.waiting[i] < batch@.waiting[j]
        }),
{
    let texts = args.deep_view();
    assert forall|i: int| 0 <= i < args@.len() implies texts[i] == (#[trigger] args@[i])@ by {}
    if client::some_names_job(texts, id) {
        let i = choose|i: int| 0 <= i < texts.len() && client::names_job(#[trigger] texts[i], id);
        assert(client::names_job(args@[i]@, id));
    }
    if exists|i: int| 0 <= i < args@.len() && client::names_job((#[trigger] args@[i])@, id) {
        let i = choose|i: int|
            0 <= i < args@.len() && client::names_job((#[trigger] args@[i])@, id);
        assert(client::names_job(texts[i], id));
    }
}

/// The table of some jobs has a row for each, whose cells read back as what the job
/// holds.
pub proof fn law_job_tables_show_the_jobs(
    jobs: Vec<Job>,
    width: Option<usize>,
    t: Table,
    i: int,
)
    requires
        client::jobs_table.ensures((&jobs, width), t),
        0 <= i < jobs@.len(),
    ensures
        t@.rows.len() == jobs@.len(),
        t@.rows[i].len() == 7,
        text::parsed_u32(t@.rows[i][0]) == Some(jobs@[i].id),
        t@.rows[i][1] == jobs@[i].state.state_name(),
        shows_code(t@.rows[i][2], jobs@[i].exit_code),
        text::parsed_i32(t@.rows[i][3]) == Some(jobs@[i].priority),
        jobs@[i].state is Running && jobs@[i].assigned_gpus@.len() > 0 ==> shows_indices(
            t@.rows[i][4],
            jobs@[i].assigned_gpus@,
        ),
        !(jobs@[i].state is Running) || jobs@[i].assigned_gpus@.len() == 0 ==> shows_count(
            t@.rows[i][4],
            jobs@[i].gpus,
        ),
        shows_label(t@.rows[i][5], jobs@[i].label.deep_view()),
        t@.rows[i][6] == text::joined(jobs@[i].argv.deep_view(), " "@),
        t@.max_width == width,
{
    let views = job::job_views(jobs@);
    law_listings_have_a_row_for_each_job(t@, views, width, i);
    law_listing_rows_show_the_job(views[i]);
}

} // verus!
